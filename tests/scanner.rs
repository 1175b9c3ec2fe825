use addon_catalog::catalog::AddonStorage;
use addon_catalog::scan::{AddonFileData, ProcessResult};
use addon_catalog::scanner::{fresh_session_id, AddonScanner, ScanEnd, ScanPhase, ScanRun, ScanSpeed, ScanState};
use addon_catalog::catalog::AddonInfo;
use addon_catalog::flags::AddonContent;
use addon_catalog::hash::FileHash;

fn file(name: &str, bytes: &[u8]) -> AddonFileData {
    AddonFileData {
        filename: name.to_string(),
        info: AddonInfo {
            title: Some("T".to_string()),
            version: Some("2".to_string()),
            author: None,
            description: None,
            tagline: None,
            addon_url: None,
            content: AddonContent {
                is_campaign: false,
                is_map: false,
                is_skin: false,
                is_weapon: true,
                is_boss_infected: false,
                is_common_infected: false,
                is_survivor: true,
                is_sound: false,
                is_music: true,
                is_script: false,
                is_prop: false,
            },
        },
        chapter_ids: None,
        hash: FileHash(bytes.to_vec()),
        updated_at: 0,
        created_at: 0,
        file_size: 1,
    }
}

#[test]
fn second_start_is_rejected_and_idle_abort_is_a_no_op() {
    let mut s = AddonScanner::new();
    assert!(!s.abort());
    assert_eq!(s.phase, ScanPhase::Idle);
    assert!(s.start(3));
    assert!(!s.start(4));
    assert_eq!(s.scan_id, Some(3));
    assert!(s.check_running());
}

#[test]
fn abort_mid_scan_ends_with_aborted_and_keeps_writes() {
    let mut store = AddonStorage::new();
    let mut scanner = AddonScanner::new();
    assert!(scanner.start(42));
    let mut run = ScanRun::new(42, 3, vec![]);
    run.handle_result(&mut store, &Ok(file("a.vpk", &[1])));
    assert!(scanner.abort());
    assert!(!scanner.should_continue());
    let event = scanner.aborted(Some("user".to_string()), false);
    match event {
        ScanState::Aborted { reason, timed_out } => {
            assert_eq!(reason.as_deref(), Some("user"));
            assert!(!timed_out);
        }
        _ => panic!("expected an abort"),
    }
    assert_eq!(scanner.phase, ScanPhase::Idle);
    assert_eq!(store.records.len(), 1);
    assert_eq!(store.records[0].filename.as_deref(), Some("a.vpk"));
}

#[test]
fn timed_out_abort_annotates_reason() {
    let mut scanner = AddonScanner::new();
    scanner.start(1);
    scanner.abort();
    match scanner.aborted(Some("closing".to_string()), true) {
        ScanState::Aborted { reason, timed_out } => {
            assert_eq!(reason.as_deref(), Some("closing (timed out)"));
            assert!(timed_out);
        }
        _ => panic!("expected an abort"),
    }
    scanner.start(2);
    scanner.abort();
    match scanner.aborted(None, true) {
        ScanState::Aborted { reason, timed_out } => {
            assert_eq!(reason, None);
            assert!(timed_out);
        }
        _ => panic!("expected an abort"),
    }
}

#[test]
fn run_counts_outcomes_and_errors() {
    let mut store = AddonStorage::new();
    let mut run = ScanRun::new(9, 4, vec![1111]);
    assert_eq!(run.handle_result(&mut store, &Ok(file("1111.vpk", &[1]))), Some(ProcessResult::Added));
    assert_eq!(run.handle_result(&mut store, &Ok(file("2222.vpk", &[2]))), Some(ProcessResult::Added));
    assert_eq!(run.handle_result(&mut store, &Ok(file("renamed.vpk", &[2]))), Some(ProcessResult::UpdatedByHash));
    assert_eq!(run.handle_result(&mut store, &Err("bad package".to_string())), None);
    assert_eq!(run.counter.total, 4);
    assert_eq!(run.counter.added, 2);
    assert_eq!(run.counter.updated, 1);
    assert_eq!(run.counter.errors, 1);
    assert_eq!(run.workshop_ids, vec![2222]);
    let p = run.progress();
    assert_eq!((p.items, p.processed), (4, 4));
    assert_eq!(store.records[0].flags.0, 4 | 32 | 64);
    assert_eq!(run.workshop_queue(&vec![3333, 1111, 2222]), vec![2222, 3333]);
    run.finish(&mut store, vec![], &vec![3333]);
    match run.summary(12) {
        ScanState::Complete { time, total, added, updated, failed } => {
            assert_eq!((time, total, added, updated, failed), (12, 4, 2, 1, 1))
        }
        _ => panic!("expected a summary"),
    }
}

#[test]
fn thread_counts_per_speed() {
    assert_eq!(ScanSpeed::Maximum.threads_for(8), 8);
    assert_eq!(ScanSpeed::Normal.threads_for(7), 4);
    assert_eq!(ScanSpeed::Normal.threads_for(1), 1);
    assert_eq!(ScanSpeed::Background.threads_for(64), 1);
    assert_eq!(ScanSpeed::Maximum.threads_for(1000), 255);
    assert!(ScanSpeed::Normal.threads() >= 1);
    assert_eq!(ScanSpeed::default(), ScanSpeed::Normal);
}

#[test]
fn session_start_draws_an_id_once() {
    let store = AddonStorage::new();
    let mut s = AddonScanner::new();
    let id = s.start_session(&store).expect("idle scanner starts");
    assert_eq!(s.scan_id, Some(id));
    assert_eq!(s.start_session(&store), None);
    assert_eq!(s.scan_id, Some(id));
    assert!(s.abort());
    s.aborted(None, false);
    assert!(s.start_session(&store).is_some());
}

#[test]
fn fresh_session_id_avoids_stamped_ids() {
    let mut store = AddonStorage::new();
    addon_catalog::scanner::reconcile(&mut store, &vec![file("a.vpk", &[1])], 0);
    addon_catalog::scanner::reconcile(&mut store, &vec![file("b.vpk", &[2])], 1);
    assert_eq!(store.records[0].scan_id, Some(0));
    assert_eq!(store.records[1].scan_id, Some(1));
    assert_eq!(fresh_session_id(&store, 0), 2);
    assert_eq!(fresh_session_id(&store, 77), 77);
}

#[test]
fn unchanged_files_count_as_updated_and_counts_add_up() {
    let mut store = AddonStorage::new();
    let mut run = ScanRun::new(1, 2, vec![]);
    run.handle_result(&mut store, &Ok(file("a.vpk", &[1])));
    let mut again = ScanRun::new(2, 2, vec![]);
    assert_eq!(again.handle_result(&mut store, &Ok(file("a.vpk", &[1]))), Some(ProcessResult::Unchanged));
    again.handle_result(&mut store, &Err("unreadable".to_string()));
    match again.summary(0) {
        ScanState::Complete { total, added, updated, failed, .. } => {
            assert_eq!((total, added, updated, failed), (2, 0, 1, 1));
            assert_eq!(added + updated + failed, total);
        }
        _ => panic!("expected a summary"),
    }
}

#[test]
fn ended_reports_one_terminal_event() {
    let mut s = AddonScanner::new();
    assert!(s.ended(ScanEnd::Stopped).is_none());
    s.start(1);
    let run = ScanRun::new(1, 0, vec![]);
    match s.ended(ScanEnd::Completed(run.summary(5))) {
        Some(ScanState::Complete { time, .. }) => assert_eq!(time, 5),
        _ => panic!("expected a summary"),
    }
    assert_eq!(s.phase, ScanPhase::Idle);
    s.start(2);
    s.abort();
    let run = ScanRun::new(2, 0, vec![]);
    match s.ended(ScanEnd::Completed(run.summary(5))) {
        Some(ScanState::Aborted { reason, timed_out }) => assert_eq!((reason, timed_out), (None, false)),
        _ => panic!("an abort was asked for"),
    }
    s.start(3);
    match s.ended(ScanEnd::Failed("disk".to_string())) {
        Some(ScanState::Aborted { reason, .. }) => assert_eq!(reason.as_deref(), Some("disk")),
        _ => panic!("expected an abort"),
    }
    assert!(!s.check_running());
}
