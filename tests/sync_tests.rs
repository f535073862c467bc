use std::collections::HashMap;

use config_workaround::mapping::load_matching;
use config_workaround::platform::linux;
use config_workaround::sync::{CopyStep, SyncDirection, SyncReport};

type Disk = HashMap<String, Vec<u8>>;

fn run(disk: &mut Disk, plan: &[CopyStep]) -> SyncReport {
    let mut r = SyncReport::new();
    for s in plan {
        let ok = match disk.get(&s.from).cloned() {
            Some(bytes) => {
                disk.insert(s.to.clone(), bytes);
                true
            }
            None => false,
        };
        r.record(CopyStep { from: s.from.clone(), to: s.to.clone() }, ok);
    }
    r
}

fn plans() -> (Vec<CopyStep>, Vec<CopyStep>) {
    let l = vec!["100;%DOCUMENTS%/save;a.sav".to_string(), "100;%DOCUMENTS%/save;b.sav".to_string()];
    let recs = load_matching(&l, "100").unwrap();
    let restore = linux::process_configs(SyncDirection::ToGame, &recs, "1", "2", "100", "/bk", "/compat");
    let back = linux::process_configs(SyncDirection::ToBackup, &recs, "1", "2", "100", "/bk", "/compat");
    (restore, back)
}

#[test]
fn missing_source_is_reported_and_batch_goes_on() {
    let (restore, _) = plans();
    let mut disk = Disk::new();
    disk.insert("/bk/100/b.sav".to_string(), b"bbb".to_vec());
    let r = run(&mut disk, &restore);
    assert_eq!(r.failed.len(), 1);
    assert_eq!(r.failed[0].from, "/bk/100/a.sav");
    assert_eq!(r.copied.len(), 1);
    assert_eq!(disk["/compat/pfx/drive_c/users/steamuser/Documents/save/b.sav"], b"bbb".to_vec());
}

#[test]
fn restore_then_backup_keeps_bytes() {
    let (restore, back) = plans();
    let mut disk = Disk::new();
    disk.insert("/bk/100/a.sav".to_string(), b"\x00\x01data".to_vec());
    disk.insert("/bk/100/b.sav".to_string(), b"other".to_vec());
    assert!(!run(&mut disk, &restore).has_failures());
    assert!(!run(&mut disk, &back).has_failures());
    assert_eq!(disk["/bk/100/a.sav"], b"\x00\x01data".to_vec());
    assert_eq!(disk["/bk/100/b.sav"], b"other".to_vec());
}

#[test]
fn second_cycle_leaves_backup_unchanged() {
    let (restore, back) = plans();
    let mut disk = Disk::new();
    disk.insert("/bk/100/a.sav".to_string(), b"v1".to_vec());
    disk.insert("/compat/pfx/drive_c/users/steamuser/Documents/save/b.sav".to_string(), b"game".to_vec());
    run(&mut disk, &restore);
    run(&mut disk, &back);
    let first = disk.clone();
    run(&mut disk, &restore);
    run(&mut disk, &back);
    assert_eq!(disk["/bk/100/a.sav"], first["/bk/100/a.sav"]);
    assert_eq!(disk["/bk/100/b.sav"], b"game".to_vec());
    assert_eq!(disk, first);
}
