use config_workaround::decimal::{decimal_of, parse_u64};
use config_workaround::identity::{
    get_steamid_from_config, identity_from_id, resolve_identity, IdentityError, STEAM_ID_OFFSET,
};

const PROFILE: &str = "\"InstallConfigStore\"\n{\n\t\"Software\"\n\t{\n\t\t\"Valve\"\n\t\t{\n\t\t\t\"Steam\"\n\t\t\t{\n\t\t\t\t\"Accounts\"\n\t\t\t\t{\n\t\t\t\t\t\"alice\"\n\t\t\t\t\t{\n\t\t\t\t\t\t\"SteamID\"\t\t\"76561198000000001\"\n\t\t\t\t\t}\n\t\t\t\t\t\"bob\"\n\t\t\t\t\t{\n\t\t\t\t\t\t\"SteamID\"\t\t\"76561198000000042\"\n\t\t\t\t\t}\n\t\t\t\t}\n\t\t\t}\n\t\t}\n\t}\n}\n";

#[test]
fn finds_each_users_id() {
    assert_eq!(get_steamid_from_config(PROFILE, "alice").as_deref(), Some("76561198000000001"));
    assert_eq!(get_steamid_from_config(PROFILE, "bob").as_deref(), Some("76561198000000042"));
    assert_eq!(get_steamid_from_config(PROFILE, "carol"), None);
}

#[test]
fn resolves_identity_from_profile() {
    let id = resolve_identity("bob", None, Some(PROFILE)).unwrap();
    assert_eq!(id.primary_id, 76561198000000042);
    assert_eq!(id.secondary_id, 76561198000000042 - STEAM_ID_OFFSET);
    assert_eq!(id.secondary_id, 39734314);
}

#[test]
fn override_wins_over_profile() {
    let id = resolve_identity("bob", Some("76561197960265729"), Some(PROFILE)).unwrap();
    assert_eq!(id.primary_id, 76561197960265729);
    assert_eq!(id.secondary_id, 1);
}

#[test]
fn id_below_offset_is_invalid() {
    assert_eq!(identity_from_id("12345").err(), Some(IdentityError::InvalidIdentity));
    assert_eq!(identity_from_id("76561197960265727").err(), Some(IdentityError::InvalidIdentity));
    let at = identity_from_id("76561197960265728").unwrap();
    assert_eq!(at.secondary_id, 0);
    let blob = "\"dave\" { \"SteamID\" \"5\" }";
    assert_eq!(resolve_identity("dave", None, Some(blob)).err(), Some(IdentityError::InvalidIdentity));
}

#[test]
fn missing_identity_is_not_found() {
    assert_eq!(resolve_identity("carol", None, Some(PROFILE)).err(), Some(IdentityError::IdentityNotFound));
    assert_eq!(resolve_identity("carol", None, None).err(), Some(IdentityError::IdentityNotFound));
}

#[test]
fn non_numeric_override_is_invalid() {
    assert_eq!(resolve_identity("x", Some("abc"), None).err(), Some(IdentityError::InvalidIdentity));
    assert_eq!(resolve_identity("x", Some("99999999999999999999"), None).err(), Some(IdentityError::InvalidIdentity));
}

#[test]
fn nested_blocks_before_the_id_are_passed_over() {
    let blob = "\"erin\" { \"Extra\" { \"SteamID\" \"1\" } \"SteamID\" \"76561198000000007\" } \"SteamID\" \"2\"";
    assert_eq!(get_steamid_from_config(blob, "erin").as_deref(), Some("76561198000000007"));
}

#[test]
fn search_stays_inside_the_users_block() {
    let blob = "\"frank\" { \"Name\" \"f\" } \"other\" { \"SteamID\" \"76561198000000009\" }";
    assert_eq!(get_steamid_from_config(blob, "frank"), None);
}

#[test]
fn parses_u64_like_std() {
    assert_eq!(parse_u64("0"), Some(0));
    assert_eq!(parse_u64("+17"), Some(17));
    assert_eq!(parse_u64("18446744073709551615"), Some(u64::MAX));
    assert_eq!(parse_u64("18446744073709551616"), None);
    assert_eq!(parse_u64(""), None);
    assert_eq!(parse_u64("+"), None);
    assert_eq!(parse_u64("-1"), None);
    assert_eq!(parse_u64("12a"), None);
}

#[test]
fn writes_decimal() {
    assert_eq!(decimal_of(0), "0");
    assert_eq!(decimal_of(39734314), "39734314");
    assert_eq!(decimal_of(u64::MAX), "18446744073709551615");
}
