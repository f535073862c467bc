//! The compatibility-prefix family: the game sees a per-game prefix
//! directory, and native placeholders become fixed relative paths in it.
use vstd::prelude::*;
use crate::expand::{replace_literal, replaced};
use crate::identity::{find_id_text, identity_from_id, identity_of, profile_id, IdentityError};
use crate::decimal::decimal_of;
use crate::mapping::ConfigRecord;
use crate::platform::{home_dir, InitError};
use crate::sync::{backup_path, backup_path_of, copy_step, joined, join_path, plan_of, step_of, steps_view, CopyStep, SyncDirection};
use crate::text::push_str;

verus! {

/// The user's directory inside the prefix.
pub const WINE_USER_PATH: &'static str = "pfx/drive_c/users/steamuser";

pub open spec fn sep() -> char {
    '/'
}

/// The backup root below the home directory `home`.
pub open spec fn good_config_paths_of(home: Seq<char>) -> Seq<char> {
    joined(joined(home, "Documents"@, sep()), "game_configs"@, sep())
}

/// The backup root below the home directory `home`.
pub fn good_config_paths_from_home(home: &str) -> (r: String)
    ensures
        r@ == good_config_paths_of(home@),
{
    let d = join_path(home, "Documents", '/');
    join_path(d.as_str(), "game_configs", '/')
}

/// The backup root below the current user's home directory; `None` when
/// no home directory can be found.
pub fn get_good_config_paths() -> (r: Option<String>)
    ensures
        r matches Some(p) ==> exists|h: Seq<char>| p@ == good_config_paths_of(h),
{
    match home_dir() {
        Some(h) => Some(good_config_paths_from_home(h.as_str())),
        None => None,
    }
}

/// Where the platform client keeps its profile file below `home`.
pub open spec fn config_vdf_path_of(home: Seq<char>) -> Seq<char> {
    joined(joined(joined(joined(joined(home, ".local"@, sep()), "share"@, sep()), "Steam"@, sep()), "config"@, sep()), "config.vdf"@, sep())
}

pub fn config_vdf_path(home: &str) -> (r: String)
    ensures
        r@ == config_vdf_path_of(home@),
{
    let a = join_path(home, ".local", '/');
    let b = join_path(a.as_str(), "share", '/');
    let c = join_path(b.as_str(), "Steam", '/');
    let d = join_path(c.as_str(), "config", '/');
    join_path(d.as_str(), "config.vdf", '/')
}

/// What a run on this family works with once set up.
pub struct LinuxContext {
    pub proton_prefix: String,
    pub steam_id: String,
    pub steam_id_3: String,
}

/// Sets up a run: the prefix directory `compat_data_path` is required,
/// and the identity comes from the user's entry in the profile text.
pub fn init(steam_user: &str, config: Option<&str>, compat_data_path: Option<&str>) -> (r: Result<LinuxContext, InitError>)
    ensures
        compat_data_path is None ==> r == Err::<LinuxContext, InitError>(InitError::MissingCompatPrefix),
        compat_data_path matches Some(p) ==> {
            let found = match config {
                Some(c) => profile_id(c@, steam_user@),
                None => None,
            };
            match r {
                Ok(ctx) => ctx.proton_prefix@ == p@ && (found matches Some(s) && (identity_of(s) matches Ok(ids)
                    && ctx.steam_id@ == s
                    && ctx.steam_id_3@ == crate::decimal::decimal_string(ids.1 as nat))),
                Err(e) => match found {
                    Some(s) => identity_of(s) matches Err(ie) && e == InitError::Identity(ie),
                    None => e == InitError::Identity(IdentityError::IdentityNotFound),
                },
            }
        },
{
    let prefix = match compat_data_path {
        Some(p) => crate::text::string_of(p),
        None => return Err(InitError::MissingCompatPrefix),
    };
    let text = match find_id_text(steam_user, None, config) {
        Some(t) => t,
        None => return Err(InitError::Identity(IdentityError::IdentityNotFound)),
    };
    match identity_from_id(text.as_str()) {
        Ok(id) => Ok(LinuxContext {
            proton_prefix: prefix,
            steam_id: text,
            steam_id_3: decimal_of(id.secondary_id),
        }),
        Err(e) => Err(InitError::Identity(e)),
    }
}

/// The line that reports the prefix directory.
pub fn print_debug(proton_prefix: &str) -> (r: String)
    ensures
        r@ == "Proton Prefix: "@ + proton_prefix@,
{
    let mut out = String::new();
    push_str(&mut out, "Proton Prefix: ");
    push_str(&mut out, proton_prefix);
    assert(Seq::<char>::empty() + "Proton Prefix: "@ == "Proton Prefix: "@);
    out
}

/// A template with the native placeholders turned into paths inside the
/// prefix, then the identity placeholders filled in, in that order.
pub open spec fn localized(t: Seq<char>, steam_id: Seq<char>, steam_id_3: Seq<char>) -> Seq<char> {
    let a = replaced(t, "%APPDATA%"@, "Application Data"@);
    let b = replaced(a, "%DOCUMENTS%"@, "Documents"@);
    let c = replaced(b, "%USERPROFILE%"@, ""@);
    let d = replaced(c, "%LOCALAPPDATA%"@, "AppData/Local"@);
    let e = replaced(d, "%STEAMID%"@, steam_id);
    replaced(e, "%SteamID3%"@, steam_id_3)
}

pub fn localize_template(t: &str, steam_id: &str, steam_id_3: &str) -> (r: String)
    ensures
        r@ == localized(t@, steam_id@, steam_id_3@),
{
    proof {
        reveal_strlit("%APPDATA%");
        reveal_strlit("%DOCUMENTS%");
        reveal_strlit("%USERPROFILE%");
        reveal_strlit("%LOCALAPPDATA%");
        reveal_strlit("%STEAMID%");
        reveal_strlit("%SteamID3%");
    }
    let a = replace_literal(t, "%APPDATA%", "Application Data");
    let b = replace_literal(a.as_str(), "%DOCUMENTS%", "Documents");
    let c = replace_literal(b.as_str(), "%USERPROFILE%", "");
    let d = replace_literal(c.as_str(), "%LOCALAPPDATA%", "AppData/Local");
    let e = replace_literal(d.as_str(), "%STEAMID%", steam_id);
    replace_literal(e.as_str(), "%SteamID3%", steam_id_3)
}

/// Where the game sees `rec`'s file.
pub open spec fn game_path_of(prefix: Seq<char>, rec: (Seq<char>, Seq<char>, Seq<char>), steam_id: Seq<char>, steam_id_3: Seq<char>) -> Seq<char> {
    joined(joined(joined(prefix, WINE_USER_PATH@, sep()), localized(rec.1, steam_id, steam_id_3), sep()), rec.2, sep())
}

/// (backup path, game path) of each record's file, in order.
pub open spec fn file_pairs(records: Seq<ConfigRecord>, steam_id: Seq<char>, steam_id_3: Seq<char>, steam_app_id: Seq<char>, good_config_paths: Seq<char>, proton_prefix: Seq<char>) -> Seq<(Seq<char>, Seq<char>)> {
    records.map_values(|rec: ConfigRecord| (backup_path_of(good_config_paths, steam_app_id, rec.file_name@, sep()),
        game_path_of(proton_prefix, rec.view(), steam_id, steam_id_3)))
}

/// The copies of one pass over `records`, one per record and in order.
pub fn process_configs(
    direction: SyncDirection,
    records: &Vec<ConfigRecord>,
    steam_id: &str,
    steam_id_3: &str,
    steam_app_id: &str,
    good_config_paths: &str,
    proton_prefix: &str,
) -> (r: Vec<CopyStep>)
    ensures
        r@.len() == records@.len(),
        steps_view(r@) == plan_of(direction, file_pairs(records@, steam_id@, steam_id_3@, steam_app_id@, good_config_paths@, proton_prefix@)),
        forall|k: int| 0 <= k < records@.len() ==> #[trigger] r@[k].view() == step_of(direction,
            backup_path_of(good_config_paths@, steam_app_id@, records@[k].file_name@, sep()),
            game_path_of(proton_prefix@, records@[k].view(), steam_id@, steam_id_3@)),
{
    let user_root = join_path(proton_prefix, WINE_USER_PATH, '/');
    let mut out: Vec<CopyStep> = Vec::new();
    let mut i: usize = 0;
    while i < records.len()
        invariant
            i <= records@.len(),
            user_root@ == joined(proton_prefix@, WINE_USER_PATH@, sep()),
            out@.len() == i,
            forall|k: int| 0 <= k < i ==> #[trigger] out@[k].view() == step_of(direction,
                backup_path_of(good_config_paths@, steam_app_id@, records@[k].file_name@, sep()),
                game_path_of(proton_prefix@, records@[k].view(), steam_id@, steam_id_3@)),
        decreases records@.len() - i,
    {
        let rec = &records[i];
        let dir = localize_template(rec.path_template.as_str(), steam_id, steam_id_3);
        let game_dir = join_path(user_root.as_str(), dir.as_str(), '/');
        let game = join_path(game_dir.as_str(), rec.file_name.as_str(), '/');
        let backup = backup_path(good_config_paths, steam_app_id, rec.file_name.as_str(), '/');
        out.push(copy_step(direction, backup, game));
        i = i + 1;
    }
    assert(steps_view(out@) =~= plan_of(direction, file_pairs(records@, steam_id@, steam_id_3@, steam_app_id@, good_config_paths@, proton_prefix@)));
    out
}

} // verus!
