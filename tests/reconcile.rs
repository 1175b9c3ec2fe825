use addon_catalog::catalog::{AddonInfo, AddonStorage, StoreError};
use addon_catalog::flags::AddonContent;
use addon_catalog::hash::FileHash;
use addon_catalog::scan::{process_file, AddonFileData, ProcessResult};
use addon_catalog::scanner::reconcile;

fn content() -> AddonContent {
    AddonContent {
        is_campaign: false,
        is_map: true,
        is_skin: false,
        is_weapon: false,
        is_boss_infected: false,
        is_common_infected: false,
        is_survivor: false,
        is_sound: false,
        is_music: false,
        is_script: false,
        is_prop: false,
    }
}

fn info(title: &str) -> AddonInfo {
    AddonInfo {
        title: Some(title.to_string()),
        version: Some("1.0".to_string()),
        author: Some("someone".to_string()),
        description: None,
        tagline: None,
        addon_url: None,
        content: content(),
    }
}

fn file(name: &str, bytes: &[u8]) -> AddonFileData {
    AddonFileData {
        filename: name.to_string(),
        info: info("Map Pack"),
        chapter_ids: Some(vec!["c1m1".to_string(), "c1m2".to_string()]),
        hash: FileHash(bytes.to_vec()),
        updated_at: 1_700_000_000,
        created_at: 1_600_000_000,
        file_size: 1234,
    }
}

#[test]
fn new_file_creates_one_record_with_session() {
    let mut store = AddonStorage::new();
    let (res, ws) = process_file(&mut store, &file("a.vpk", &[1, 2, 3]), 77);
    assert_eq!(res, ProcessResult::Added);
    assert_eq!(ws, None);
    assert_eq!(store.records.len(), 1);
    let r = &store.records[0];
    assert_eq!(r.filename.as_deref(), Some("a.vpk"));
    assert_eq!(r.scan_id, Some(77));
    assert_eq!(r.title, "Map Pack");
    assert_eq!(r.version, "1.0");
    assert_eq!(r.flags.0, 2);
    assert_eq!(r.chapter_ids.as_deref(), Some("c1m1,c1m2"));
    assert_eq!(r.file_size, 1234);
}

#[test]
fn rename_updates_existing_record() {
    let mut store = AddonStorage::new();
    process_file(&mut store, &file("a.pkg", &[9, 9]), 1);
    let (res, _) = process_file(&mut store, &file("b.pkg", &[9, 9]), 2);
    assert_eq!(res, ProcessResult::UpdatedByHash);
    assert_eq!(store.records.len(), 1);
    assert_eq!(store.records[0].filename.as_deref(), Some("b.pkg"));
    assert_eq!(store.records[0].scan_id, Some(2));
}

#[test]
fn rescan_of_unchanged_directory_is_a_no_op() {
    let mut store = AddonStorage::new();
    let files = vec![file("a.vpk", &[1]), file("b.vpk", &[2]), file("c.vpk", &[3])];
    reconcile(&mut store, &files, 10);
    assert_eq!(store.records.len(), 3);
    for f in &files {
        let (res, ws) = process_file(&mut store, f, 11);
        assert_eq!(res, ProcessResult::Unchanged);
        assert_eq!(ws, None);
    }
    store.scan_mark_missing(11);
    assert_eq!(store.records.len(), 3);
    for (r, f) in store.records.iter().zip(files.iter()) {
        assert_eq!(r.filename.as_deref(), Some(f.filename.as_str()));
        assert_eq!(r.scan_id, Some(11));
    }
}

#[test]
fn changed_title_is_an_update() {
    let mut store = AddonStorage::new();
    process_file(&mut store, &file("a.vpk", &[5]), 1);
    let mut f = file("a.vpk", &[5]);
    f.info = info("New Title");
    let (res, _) = process_file(&mut store, &f, 2);
    assert_eq!(res, ProcessResult::UpdatedByHash);
    assert_eq!(store.records[0].title, "New Title");
}

#[test]
fn deleted_file_loses_name_but_keeps_record_and_tags() {
    let mut store = AddonStorage::new();
    reconcile(&mut store, &vec![file("a.vpk", &[1]), file("b.vpk", &[2])], 1);
    store.add_tag(FileHash(vec![1]), "favourite".to_string()).unwrap();
    reconcile(&mut store, &vec![file("b.vpk", &[2])], 2);
    assert_eq!(store.records.len(), 2);
    assert_eq!(store.records[0].filename, None);
    assert_eq!(store.records[0].file_hash.0, vec![1]);
    assert_eq!(store.records[1].filename.as_deref(), Some("b.vpk"));
    assert_eq!(store.tags.len(), 1);
    assert_eq!(store.tags[0].tag, "favourite");
}

#[test]
fn duplicate_hash_insert_is_refused() {
    let mut store = AddonStorage::new();
    process_file(&mut store, &file("a.vpk", &[4]), 1);
    let data = addon_catalog::catalog::AddonData {
        filename: "x.vpk".to_string(),
        updated_at: 0,
        created_at: 0,
        file_size: 0,
        flags: addon_catalog::flags::AddonFlags(0),
        title: "x".to_string(),
        author: None,
        version: "1".to_string(),
        tagline: None,
        chapter_ids: None,
        workshop_id: None,
    };
    assert_eq!(store.add_entry(&data, Some(1), FileHash(vec![4])), Err(StoreError::DuplicateHash));
    assert_eq!(store.records.len(), 1);
    assert_eq!(store.add_entry(&data, Some(1), FileHash(vec![5])), Ok(()));
    assert_eq!(store.records.len(), 2);
}

#[test]
fn missing_title_falls_back_to_filename() {
    let mut store = AddonStorage::new();
    let mut f = file("nameless.vpk", &[8]);
    f.info.title = None;
    f.info.version = None;
    process_file(&mut store, &f, 1);
    assert_eq!(store.records[0].title, "nameless.vpk");
    assert_eq!(store.records[0].version, "");
}

#[test]
fn workshop_id_from_filename_is_reported_for_new_records() {
    let mut store = AddonStorage::new();
    let (res, ws) = process_file(&mut store, &file("123456789.vpk", &[7]), 1);
    assert_eq!(res, ProcessResult::Added);
    assert_eq!(ws, Some(123456789));
    assert_eq!(store.records[0].workshop_id, Some(123456789));
    let (_, again) = process_file(&mut store, &file("123456789.vpk", &[7]), 2);
    assert_eq!(again, None);
}

#[test]
fn get_by_filename_and_delete() {
    let mut store = AddonStorage::new();
    reconcile(&mut store, &vec![file("a.vpk", &[1]), file("b.vpk", &[2])], 1);
    assert!(store.get_by_filename("b.vpk").is_some());
    assert!(store.get_by_filename("zzz.vpk").is_none());
    store.delete_filenames(&vec!["a.vpk".to_string()]);
    assert_eq!(store.records.len(), 1);
    assert_eq!(store.records[0].filename.as_deref(), Some("b.vpk"));
}

#[test]
fn tags_add_and_delete() {
    let mut store = AddonStorage::new();
    assert_eq!(store.add_tag(FileHash(vec![1]), "a".to_string()), Ok(()));
    assert_eq!(store.add_tag(FileHash(vec![1]), "a".to_string()), Err(StoreError::DuplicateTag));
    assert_eq!(store.add_tag(FileHash(vec![1]), "b".to_string()), Ok(()));
    store.del_tag(&FileHash(vec![1]), "a");
    assert_eq!(store.tags.len(), 1);
    assert_eq!(store.tags[0].tag, "b");
}
