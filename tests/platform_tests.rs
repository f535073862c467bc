use config_workaround::expand::PlaceholderMap;
use config_workaround::identity::IdentityError;
use config_workaround::mapping::load_matching;
use config_workaround::platform::{linux, windows, InitError};
use config_workaround::sync::{join_path, CopyStep, SyncDirection, SyncReport};

const PROFILE: &str = "\"alice\"\n{\n\t\"SteamID\"\t\t\"76561198000000001\"\n}\n";

#[test]
fn joins_paths() {
    assert_eq!(join_path("a", "b", '/'), "a/b");
    assert_eq!(join_path("a/", "b", '/'), "a/b");
    assert_eq!(join_path("", "b", '/'), "b");
    assert_eq!(join_path("a", "", '/'), "a/");
    assert_eq!(join_path("C:\\x", "y", '\\'), "C:\\x\\y");
    assert_eq!(join_path("C:/x/", "y", '\\'), "C:/x/y");
}

#[test]
fn linux_roots() {
    assert_eq!(linux::good_config_paths_from_home("/home/u"), "/home/u/Documents/game_configs");
    assert_eq!(linux::config_vdf_path("/home/u"), "/home/u/.local/share/Steam/config/config.vdf");
    assert_eq!(linux::print_debug("/p"), "Proton Prefix: /p");
}

#[test]
fn linux_init_needs_prefix() {
    assert_eq!(linux::init("alice", Some(PROFILE), None).err(), Some(InitError::MissingCompatPrefix));
    assert_eq!(
        linux::init("nobody", Some(PROFILE), Some("/c")).err(),
        Some(InitError::Identity(IdentityError::IdentityNotFound))
    );
    let ctx = linux::init("alice", Some(PROFILE), Some("/c")).unwrap();
    assert_eq!(ctx.proton_prefix, "/c");
    assert_eq!(ctx.steam_id, "76561198000000001");
    assert_eq!(ctx.steam_id_3, "39734273");
}

#[test]
fn linux_translates_native_placeholders() {
    assert_eq!(
        linux::localize_template("%APPDATA%/%DOCUMENTS%/%LOCALAPPDATA%/%USERPROFILE%x/%STEAMID%/%SteamID3%", "7", "3"),
        "Application Data/Documents/AppData/Local/x/7/3"
    );
}

#[test]
fn linux_plan_in_both_directions() {
    let l = vec!["100;%DOCUMENTS%/save/%SteamID3%;game.sav".to_string(), "100;%APPDATA%/g;opts.ini".to_string()];
    let recs = load_matching(&l, "100").unwrap();
    let to_game = linux::process_configs(SyncDirection::ToGame, &recs, "76561198000000001", "39734273", "100", "/b", "/c");
    assert_eq!(to_game.len(), 2);
    assert_eq!(to_game[0].from, "/b/100/game.sav");
    assert_eq!(to_game[0].to, "/c/pfx/drive_c/users/steamuser/Documents/save/39734273/game.sav");
    assert_eq!(to_game[1].to, "/c/pfx/drive_c/users/steamuser/Application Data/g/opts.ini");
    let to_backup = linux::process_configs(SyncDirection::ToBackup, &recs, "76561198000000001", "39734273", "100", "/b", "/c");
    assert_eq!(to_backup[0].from, to_game[0].to);
    assert_eq!(to_backup[0].to, to_game[0].from);
}

#[test]
fn windows_registry_paths() {
    assert_eq!(windows::predef_from_str("hkey_current_user"), Some(windows::RegistryRoot::CurrentUser));
    assert_eq!(windows::predef_from_str("HKEY_LOCAL_MACHINE"), Some(windows::RegistryRoot::LocalMachine));
    assert_eq!(windows::predef_from_str("HKEY_NOWHERE"), None);
    assert_eq!(windows::registry_root_named("hkey_users"), None);
    let k = windows::split_registry_path(windows::STEAM_REGKEY_PATH).unwrap();
    assert_eq!(k.root, windows::RegistryRoot::LocalMachine);
    assert_eq!(k.subkey, "SOFTWARE\\WOW6432Node\\Valve\\Steam");
    assert_eq!(windows::split_registry_path("HKEY_USERS").err(), Some(windows::RegistryError::NoSeparator));
    assert_eq!(windows::split_registry_path("HKU\\x").err(), Some(windows::RegistryError::UnknownRoot));
}

#[test]
fn windows_roots() {
    assert_eq!(windows::documents_path(Some("%USERPROFILE%\\Documents"), "H"), "%USERPROFILE%\\Documents");
    assert_eq!(windows::documents_path(None, "C:\\Users\\u"), "C:\\Users\\u\\Documents");
    assert_eq!(windows::get_good_config_paths("D:\\Docs"), "D:\\Docs\\game_configs");
    assert_eq!(windows::steam_path(None), "C:\\Program Files (x86)\\Steam\\");
    assert_eq!(windows::steam_path(Some("E:\\Steam")), "E:\\Steam");
    assert_eq!(windows::config_vdf_path(&windows::steam_path(None)), "C:\\Program Files (x86)\\Steam\\config\\config.vdf");
}

#[test]
fn windows_init_and_plan() {
    let ctx = windows::init("alice", None, Some(PROFILE), "D:\\Docs").unwrap();
    assert_eq!(ctx.steam_id, "76561198000000001");
    assert_eq!(ctx.steam_id_3, "39734273");
    let dbg = windows::print_debug(&ctx.custom_env);
    assert_eq!(dbg, vec!["STEAMID = 76561198000000001", "SteamID3 = 39734273", "DOCUMENTS = D:\\Docs"]);
    assert_eq!(windows::init("alice", Some("1"), Some(PROFILE), "D").err(), Some(IdentityError::InvalidIdentity));
    let l = vec!["5;%DOCUMENTS%\\My Games\\%STEAMID%;a.cfg".to_string()];
    let recs = load_matching(&l, "5").unwrap();
    let env = PlaceholderMap::new();
    let plan = windows::process_configs(SyncDirection::ToBackup, &recs, &ctx.custom_env, &env, "5", "D:\\Docs\\game_configs");
    assert_eq!(plan.len(), 1);
    assert_eq!(plan[0].from, "D:\\Docs\\My Games\\76561198000000001\\a.cfg");
    assert_eq!(plan[0].to, "D:\\Docs\\game_configs\\5\\a.cfg");
}

#[test]
fn id_text_is_kept_as_found() {
    let ctx = windows::init("alice", Some("+76561198000000001"), Some(PROFILE), "D").unwrap();
    assert_eq!(ctx.steam_id, "+76561198000000001");
    assert_eq!(ctx.steam_id_3, "39734273");
    assert_eq!(windows::print_debug(&ctx.custom_env)[0], "STEAMID = +76561198000000001");
    let blob = "\"alice\" { \"SteamID\" \"076561198000000001\" }";
    let lctx = linux::init("alice", Some(blob), Some("/c")).unwrap();
    assert_eq!(lctx.steam_id, "076561198000000001");
    assert_eq!(lctx.steam_id_3, "39734273");
    let plan = linux::process_configs(
        SyncDirection::ToGame,
        &load_matching(&vec!["1;%STEAMID%;f".to_string()], "1").unwrap(),
        &lctx.steam_id,
        &lctx.steam_id_3,
        "1",
        "/b",
        &lctx.proton_prefix,
    );
    assert_eq!(plan[0].to, "/c/pfx/drive_c/users/steamuser/076561198000000001/f");
}

#[test]
fn report_keeps_failures_apart() {
    let mut r = SyncReport::new();
    assert!(!r.has_failures());
    r.record(CopyStep { from: "missing".to_string(), to: "x".to_string() }, false);
    r.record(CopyStep { from: "ok".to_string(), to: "y".to_string() }, true);
    assert!(r.has_failures());
    assert_eq!(r.failed.len(), 1);
    assert_eq!(r.failed[0].from, "missing");
    assert_eq!(r.copied.len(), 1);
    assert_eq!(r.copied[0].to, "y");
}
