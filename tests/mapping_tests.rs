use config_workaround::mapping::{load_matching, process_raw_config_line, MappingError};

fn lines(v: &[&str]) -> Vec<String> {
    v.iter().map(|s| s.to_string()).collect()
}

#[test]
fn selects_the_runs_records() {
    let l = lines(&["100;%DOCUMENTS%/save;game.sav", "200;x;y"]);
    let recs = load_matching(&l, "100").unwrap();
    assert_eq!(recs.len(), 1);
    assert_eq!(recs[0].app_id, "100");
    assert_eq!(recs[0].path_template, "%DOCUMENTS%/save");
    assert_eq!(recs[0].file_name, "game.sav");
}

#[test]
fn two_field_line_is_fatal() {
    let l = lines(&["100;only_two", "100;a;b"]);
    assert_eq!(load_matching(&l, "100").err(), Some(MappingError::MalformedRecord));
}

#[test]
fn malformed_line_of_another_app_is_ignored() {
    let l = lines(&["200;bad", "100;a;b"]);
    assert_eq!(load_matching(&l, "100").unwrap().len(), 1);
}

#[test]
fn leading_whitespace_and_prefix_matching() {
    let l = lines(&["  \t100;a;b", "1000;c;d", "100x;e;f", "100;g;h"]);
    let recs = load_matching(&l, "100").unwrap();
    assert_eq!(recs.len(), 2);
    assert_eq!(recs[0].app_id, "  \t100");
    assert_eq!(recs[1].path_template, "g");
}

#[test]
fn no_matching_lines() {
    let l = lines(&["200;x;y"]);
    assert!(load_matching(&l, "100").unwrap().is_empty());
    assert!(load_matching(&Vec::new(), "100").unwrap().is_empty());
}

#[test]
fn record_needs_exactly_three_fields() {
    assert!(process_raw_config_line("a;b").is_none());
    assert!(process_raw_config_line("a;b;c;d").is_none());
    assert!(process_raw_config_line("abc").is_none());
    let r = process_raw_config_line(";;").unwrap();
    assert_eq!((r.app_id.as_str(), r.path_template.as_str(), r.file_name.as_str()), ("", "", ""));
}
