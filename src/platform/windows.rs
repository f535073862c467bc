//! The native family: templates expand to absolute paths, with the
//! documents folder and install folder read from the registry.
use vstd::prelude::*;
use crate::decimal::{decimal_of, decimal_string};
use crate::expand::{expand_windows_env_vars, expanded, PlaceholderMap};
use crate::identity::{find_id_text, found_id_text, identity_from_id, identity_of, opt_view, IdentityError};
use crate::mapping::ConfigRecord;
use crate::sync::{backup_path, backup_path_of, copy_step, joined, join_path, plan_of, step_of, steps_view, CopyStep, SyncDirection};
use crate::text::{chars_of, push_str, string_of, string_of_range};

verus! {

pub const DOCUMENTS_REGKEY_PATH: &'static str = "HKEY_CURRENT_USER\\Software\\Microsoft\\Windows\\CurrentVersion\\Explorer\\User Shell Folders";
pub const DOCUMENTS_REGKEY: &'static str = "Personal";
pub const STEAM_REGKEY_PATH: &'static str = "HKEY_LOCAL_MACHINE\\SOFTWARE\\WOW6432Node\\Valve\\Steam";
pub const STEAM_REGKEY: &'static str = "InstallPath";
/// Where the platform client is installed when the registry does not say.
pub const DEFAULT_STEAM_PATH: &'static str = "C:\\Program Files (x86)\\Steam\\";

pub open spec fn sep() -> char {
    '\\'
}

/// The predefined registry keys a key path may start from.
#[derive(Debug, Clone, Copy, PartialEq, Eq, Structural)]
pub enum RegistryRoot {
    ClassesRoot,
    CurrentUser,
    LocalMachine,
    Users,
    CurrentConfig,
}

/// Why a registry key path cannot be used.
#[derive(Debug, Clone, Copy, PartialEq, Eq, Structural)]
pub enum RegistryError {
    /// The path holds no `\` between its root and its subkey.
    NoSeparator,
    /// The path starts from no predefined key.
    UnknownRoot,
}

/// The predefined key that the upper-case name `u` denotes.
pub open spec fn root_named(u: Seq<char>) -> Option<RegistryRoot> {
    if u == "HKEY_CLASSES_ROOT"@ {
        Some(RegistryRoot::ClassesRoot)
    } else if u == "HKEY_CURRENT_USER"@ {
        Some(RegistryRoot::CurrentUser)
    } else if u == "HKEY_LOCAL_MACHINE"@ {
        Some(RegistryRoot::LocalMachine)
    } else if u == "HKEY_USERS"@ {
        Some(RegistryRoot::Users)
    } else if u == "HKEY_CURRENT_CONFIG"@ {
        Some(RegistryRoot::CurrentConfig)
    } else {
        None
    }
}

/// What `str::to_uppercase` makes of a string.
pub uninterp spec fn upper_of(s: Seq<char>) -> Seq<char>;

/// Relies on str::to_uppercase: the upper-case form, which depends on the
/// characters alone.
#[verifier::external_body]
fn to_upper(s: &str) -> (r: String)
    ensures
        r@ == upper_of(s@),
{
    s.to_uppercase()
}

/// The predefined key that the upper-case name `u` denotes.
pub fn registry_root_named(u: &str) -> (r: Option<RegistryRoot>)
    ensures
        r == root_named(u@),
{
    let s = string_of(u);
    if s == string_of("HKEY_CLASSES_ROOT") {
        Some(RegistryRoot::ClassesRoot)
    } else if s == string_of("HKEY_CURRENT_USER") {
        Some(RegistryRoot::CurrentUser)
    } else if s == string_of("HKEY_LOCAL_MACHINE") {
        Some(RegistryRoot::LocalMachine)
    } else if s == string_of("HKEY_USERS") {
        Some(RegistryRoot::Users)
    } else if s == string_of("HKEY_CURRENT_CONFIG") {
        Some(RegistryRoot::CurrentConfig)
    } else {
        None
    }
}

/// The predefined key that `s` names, in any letter case.
pub fn predef_from_str(s: &str) -> (r: Option<RegistryRoot>)
    ensures
        r == root_named(upper_of(s@)),
{
    let u = to_upper(s);
    registry_root_named(u.as_str())
}

/// A registry key: a predefined root and the path below it.
pub struct RegistryKeyPath {
    pub root: RegistryRoot,
    pub subkey: String,
}

/// The first index that holds `\` (`s.len()` if none does).
pub open spec fn first_backslash(s: Seq<char>, i: int) -> int
    decreases s.len() - i,
{
    if i < 0 || i >= s.len() || s[i] == '\\' {
        i
    } else {
        first_backslash(s, i + 1)
    }
}

/// Splits `root\sub\key` at its first `\` into the root and the subkey.
pub fn split_registry_path(key_path: &str) -> (r: Result<RegistryKeyPath, RegistryError>)
    ensures
        ({
            let s = key_path@;
            let i = first_backslash(s, 0);
            if i >= s.len() {
                r == Err::<RegistryKeyPath, RegistryError>(RegistryError::NoSeparator)
            } else {
                match root_named(upper_of(s.subrange(0, i))) {
                    Some(root) => r matches Ok(k) && k.root == root && k.subkey@ == s.subrange(i + 1, s.len() as int),
                    None => r == Err::<RegistryKeyPath, RegistryError>(RegistryError::UnknownRoot),
                }
            }
        }),
{
    let s = chars_of(key_path);
    let mut i: usize = 0;
    while i < s.len() && s[i] != '\\'
        invariant
            i <= s@.len(),
            s@ == key_path@,
            first_backslash(s@, i as int) == first_backslash(s@, 0),
        decreases s@.len() - i,
    {
        i = i + 1;
    }
    if i == s.len() {
        return Err(RegistryError::NoSeparator);
    }
    let head = string_of_range(&s, 0, i);
    match predef_from_str(head.as_str()) {
        Some(root) => Ok(RegistryKeyPath { root, subkey: string_of_range(&s, i + 1, s.len()) }),
        None => Err(RegistryError::UnknownRoot),
    }
}

/// The documents folder: the registry's value as stored, else `Documents`
/// below the home directory.
pub fn documents_path(registry_value: Option<&str>, home: &str) -> (r: String)
    ensures
        registry_value is None ==> r@ == joined(home@, "Documents"@, sep()),
        registry_value matches Some(v) ==> r@ == v@,
{
    match registry_value {
        Some(v) => string_of(v),
        None => join_path(home, "Documents", '\\'),
    }
}

/// The backup root inside the documents folder.
pub fn get_good_config_paths(documents: &str) -> (r: String)
    ensures
        r@ == joined(documents@, "game_configs"@, sep()),
{
    join_path(documents, "game_configs", '\\')
}

/// The install folder of the platform client: the registry's value, else
/// the usual place.
pub fn steam_path(registry_value: Option<&str>) -> (r: String)
    ensures
        r@ == match registry_value {
            Some(v) => v@,
            None => DEFAULT_STEAM_PATH@,
        },
{
    match registry_value {
        Some(v) => string_of(v),
        None => string_of(DEFAULT_STEAM_PATH),
    }
}

/// Where the client keeps its profile file, given its install folder.
pub fn config_vdf_path(steam_path: &str) -> (r: String)
    ensures
        r@ == joined(joined(steam_path@, "config"@, sep()), "config.vdf"@, sep()),
{
    let c = join_path(steam_path, "config", '\\');
    join_path(c.as_str(), "config.vdf", '\\')
}

/// What a run on this family works with once set up.
pub struct WindowsContext {
    pub steam_id: String,
    pub steam_id_3: String,
    /// The run's own placeholders, consulted before the environment.
    pub custom_env: PlaceholderMap,
}

/// Sets up a run: the identity comes from `override_id` when given, else
/// from the user's entry in the profile text, and is kept as found; the
/// run's placeholders name both ids and the documents folder, in that order.
pub fn init(steam_user: &str, override_id: Option<&str>, config: Option<&str>, documents: &str) -> (r: Result<WindowsContext, IdentityError>)
    ensures
        match r {
            Ok(ctx) => found_id_text(steam_user@, opt_view(override_id), opt_view(config)) matches Some(s)
                && (identity_of(s) matches Ok(ids)
                && ctx.steam_id@ == s
                && ctx.steam_id_3@ == decimal_string(ids.1 as nat)
                && ctx.custom_env.entries@.len() == 3
                && ctx.custom_env.entries@[0].0@ == "STEAMID"@
                && ctx.custom_env.entries@[0].1@ == ctx.steam_id@
                && ctx.custom_env.entries@[1].0@ == "SteamID3"@
                && ctx.custom_env.entries@[1].1@ == ctx.steam_id_3@
                && ctx.custom_env.entries@[2].0@ == "DOCUMENTS"@
                && ctx.custom_env.entries@[2].1@ == documents@
                && ctx.custom_env.get_spec("STEAMID"@) == Some(ctx.steam_id@)
                && ctx.custom_env.get_spec("SteamID3"@) == Some(ctx.steam_id_3@)
                && ctx.custom_env.get_spec("DOCUMENTS"@) == Some(documents@)
                && forall|k: Seq<char>| k != "STEAMID"@ && k != "SteamID3"@ && k != "DOCUMENTS"@
                    ==> ctx.custom_env.get_spec(k) is None),
            Err(e) => match found_id_text(steam_user@, opt_view(override_id), opt_view(config)) {
                Some(s) => identity_of(s) == Err::<(u64, u64), IdentityError>(e),
                None => e == IdentityError::IdentityNotFound,
            },
        },
{
    let steam_id = match find_id_text(steam_user, override_id, config) {
        Some(t) => t,
        None => return Err(IdentityError::IdentityNotFound),
    };
    let id = match identity_from_id(steam_id.as_str()) {
        Ok(id) => id,
        Err(e) => return Err(e),
    };
    let steam_id_3 = decimal_of(id.secondary_id);
    proof {
        reveal_strlit("STEAMID");
        reveal_strlit("SteamID3");
        reveal_strlit("DOCUMENTS");
        assert("STEAMID"@.len() == 7 && "SteamID3"@.len() == 8 && "DOCUMENTS"@.len() == 9);
    }
    let mut custom_env = PlaceholderMap::new();
    custom_env.insert("STEAMID", steam_id.as_str());
    let ghost e0 = custom_env.entries@;
    custom_env.insert("SteamID3", steam_id_3.as_str());
    assert(custom_env.entries@[0] == e0[0]);
    let ghost e1 = custom_env.entries@;
    custom_env.insert("DOCUMENTS", documents);
    assert(custom_env.entries@[0] == e1[0] && custom_env.entries@[1] == e1[1]);
    Ok(WindowsContext { steam_id, steam_id_3, custom_env })
}

/// One `name = value` line per placeholder of the run, in the order set.
pub fn print_debug(custom_env: &PlaceholderMap) -> (r: Vec<String>)
    ensures
        r@.len() == custom_env.entries@.len(),
        forall|k: int| 0 <= k < r@.len() ==> #[trigger] r@[k]@ == custom_env.entries@[k].0@ + " = "@ + custom_env.entries@[k].1@,
{
    let mut out: Vec<String> = Vec::new();
    let mut i: usize = 0;
    while i < custom_env.entries.len()
        invariant
            i <= custom_env.entries@.len(),
            out@.len() == i,
            forall|k: int| 0 <= k < i ==> #[trigger] out@[k]@ == custom_env.entries@[k].0@ + " = "@ + custom_env.entries@[k].1@,
        decreases custom_env.entries@.len() - i,
    {
        let mut line = string_of(custom_env.entries[i].0.as_str());
        push_str(&mut line, " = ");
        push_str(&mut line, custom_env.entries[i].1.as_str());
        out.push(line);
        i = i + 1;
    }
    out
}

/// Where the game sees `rec`'s file.
pub open spec fn game_path_of(rec: (Seq<char>, Seq<char>, Seq<char>), custom_env: PlaceholderMap, env: PlaceholderMap) -> Seq<char> {
    joined(expanded(rec.1, custom_env, env), rec.2, sep())
}

/// (backup path, game path) of each record's file, in order.
pub open spec fn file_pairs(records: Seq<ConfigRecord>, custom_env: PlaceholderMap, env: PlaceholderMap, steam_app_id: Seq<char>, good_config_paths: Seq<char>) -> Seq<(Seq<char>, Seq<char>)> {
    records.map_values(|rec: ConfigRecord| (backup_path_of(good_config_paths, steam_app_id, rec.file_name@, sep()),
        game_path_of(rec.view(), custom_env, env)))
}

/// The copies of one pass over `records`, one per record and in order.
pub fn process_configs(
    direction: SyncDirection,
    records: &Vec<ConfigRecord>,
    custom_env: &PlaceholderMap,
    env: &PlaceholderMap,
    steam_app_id: &str,
    good_config_paths: &str,
) -> (r: Vec<CopyStep>)
    ensures
        r@.len() == records@.len(),
        steps_view(r@) == plan_of(direction, file_pairs(records@, *custom_env, *env, steam_app_id@, good_config_paths@)),
        forall|k: int| 0 <= k < records@.len() ==> #[trigger] r@[k].view() == step_of(direction,
            backup_path_of(good_config_paths@, steam_app_id@, records@[k].file_name@, sep()),
            game_path_of(records@[k].view(), *custom_env, *env)),
{
    let mut out: Vec<CopyStep> = Vec::new();
    let mut i: usize = 0;
    while i < records.len()
        invariant
            i <= records@.len(),
            out@.len() == i,
            forall|k: int| 0 <= k < i ==> #[trigger] out@[k].view() == step_of(direction,
                backup_path_of(good_config_paths@, steam_app_id@, records@[k].file_name@, sep()),
                game_path_of(records@[k].view(), *custom_env, *env)),
        decreases records@.len() - i,
    {
        let rec = &records[i];
        let dir = expand_windows_env_vars(rec.path_template.as_str(), custom_env, env);
        let game = join_path(dir.as_str(), rec.file_name.as_str(), '\\');
        let backup = backup_path(good_config_paths, steam_app_id, rec.file_name.as_str(), '\\');
        out.push(copy_step(direction, backup, game));
        i = i + 1;
    }
    assert(steps_view(out@) =~= plan_of(direction, file_pairs(records@, *custom_env, *env, steam_app_id@, good_config_paths@)));
    out
}

} // verus!
