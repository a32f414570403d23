use std::path::Path;
use teststrip::session::{
    advance_step, begin_step, commit_step, countdown_step, countdown_tick, export_watch_target, finalize_current_record,
    mark_exported, new_session, rejection_slot, replace_pick, sizes_are_stable, timer_is_current,
    SessionState, StepRecord, StepStart, TimerAction,
};
use teststrip::settings::{ChallengeDef, Settings};

fn blank_session(export_dir: String, archive_root: String) -> SessionState {
    SessionState {
        export_dir,
        archive_root,
        picks: Vec::new(),
        current_idx: 0,
        session_id: 1,
        step_generation: 0,
        expected_jpg: String::new(),
        seconds_per_photo: 60,
        records: Vec::new(),
        started_at_label: "2026-01-01_12-00-00".to_string(),
    }
}

fn path_text(p: &Path) -> String {
    p.to_string_lossy().into_owned()
}

fn on_disk(p: &str) -> bool {
    Path::new(p).exists()
}

#[test]
fn finalize_current_record_uses_forced_outcome() {
    let temp = tempfile::tempdir().unwrap();
    let mut session = blank_session(path_text(temp.path()), path_text(temp.path()));
    session.records.push(StepRecord {
        raw_path: path_text(&temp.path().join("raw.CR2")),
        challenge: "test".to_string(),
        expected_jpg: path_text(&temp.path().join("missing.jpg")),
        outcome: None,
    });

    let found = on_disk(&session.records.last().unwrap().expected_jpg);
    finalize_current_record(&mut session, Some("skipped"), found);
    assert_eq!(session.records.last().unwrap().outcome.as_deref(), Some("skipped"));
}

#[test]
fn finalize_current_record_auto_detects_exported_when_file_exists() {
    let temp = tempfile::tempdir().unwrap();
    let jpg_file = tempfile::Builder::new()
        .prefix("out")
        .suffix(".jpg")
        .tempfile_in(temp.path())
        .unwrap();
    let jpg_path = jpg_file.path().to_path_buf();

    let mut session = blank_session(path_text(temp.path()), path_text(temp.path()));
    session.records.push(StepRecord {
        raw_path: path_text(&temp.path().join("raw.CR2")),
        challenge: "test".to_string(),
        expected_jpg: path_text(&jpg_path),
        outcome: None,
    });

    let found = on_disk(&session.records.last().unwrap().expected_jpg);
    finalize_current_record(&mut session, None, found);
    assert_eq!(session.records.last().unwrap().outcome.as_deref(), Some("exported"));
}

#[test]
fn finalize_current_record_auto_detects_abandoned_when_no_export() {
    let temp = tempfile::tempdir().unwrap();
    let mut session = blank_session(path_text(temp.path()), path_text(temp.path()));
    session.records.push(StepRecord {
        raw_path: path_text(&temp.path().join("raw.CR2")),
        challenge: "test".to_string(),
        expected_jpg: path_text(&temp.path().join("never-exported.jpg")),
        outcome: None,
    });

    let found = on_disk(&session.records.last().unwrap().expected_jpg);
    finalize_current_record(&mut session, None, found);
    assert_eq!(session.records.last().unwrap().outcome.as_deref(), Some("abandoned"));
}

#[test]
fn finalize_current_record_does_not_overwrite_existing_outcome() {
    let temp = tempfile::tempdir().unwrap();
    let mut session = blank_session(path_text(temp.path()), path_text(temp.path()));
    session.records.push(StepRecord {
        raw_path: path_text(&temp.path().join("raw.CR2")),
        challenge: "test".to_string(),
        expected_jpg: path_text(&temp.path().join("never-exported.jpg")),
        outcome: Some("skipped".to_string()),
    });

    let found = on_disk(&session.records.last().unwrap().expected_jpg);
    finalize_current_record(&mut session, Some("exported"), found);
    assert_eq!(session.records.last().unwrap().outcome.as_deref(), Some("skipped"));
}

#[test]
fn finalize_without_records_changes_nothing() {
    let mut session = blank_session("e".into(), "a".into());
    finalize_current_record(&mut session, Some("skipped"), true);
    assert!(session.records.is_empty());
}

#[test]
fn finalize_only_touches_the_last_record() {
    let mut session = blank_session("e".into(), "a".into());
    for name in ["one", "two"] {
        session.records.push(StepRecord {
            raw_path: format!("{name}.CR2"),
            challenge: "c".into(),
            expected_jpg: format!("e/{name}.jpg"),
            outcome: None,
        });
    }
    finalize_current_record(&mut session, None, true);
    assert_eq!(session.records[0].outcome, None);
    assert_eq!(session.records[1].outcome.as_deref(), Some("exported"));
    finalize_current_record(&mut session, Some("skipped"), false);
    assert_eq!(session.records[1].outcome.as_deref(), Some("exported"));
}

fn one_challenge_settings() -> Settings {
    Settings {
        photos_per_session: 2,
        seconds_per_photo: 90,
        challenges: vec![ChallengeDef { id: "a".into(), text: "Go black and white".into(), enabled: true, custom: false }],
        last_archive_root: None,
        last_export_root: None,
    }
}

fn two_pick_session() -> SessionState {
    new_session(
        "out".into(),
        "raw".into(),
        vec!["raw/x/IMG_1.CR2".into(), "raw/y/IMG_2.CR2".into()],
        2,
        7,
        90,
        "2026-01-01_09-00-00".into(),
    )
    .unwrap()
}

#[test]
fn new_session_needs_enough_picks() {
    assert!(new_session("o".into(), "r".into(), vec!["a.CR2".into()], 2, 1, 60, "t".into()).is_none());
    let s = two_pick_session();
    assert_eq!(s.current_idx, 0);
    assert_eq!(s.step_generation, 0);
    assert_eq!(s.session_id, 7);
    assert_eq!(s.expected_jpg, "");
    assert!(s.records.is_empty());
    assert_eq!(s.picks.len(), 2);
}

#[test]
fn steps_run_through_the_session_then_finish() {
    let settings = one_challenge_settings();
    let mut s = two_pick_session();

    match begin_step(&mut s, 7, &settings) {
        StepStart::Started { payload, generation } => {
            assert_eq!(payload.step_index, 1);
            assert_eq!(payload.total_steps, 2);
            assert_eq!(payload.raw_path, "raw/x/IMG_1.CR2");
            assert_eq!(payload.expected_jpg, "IMG_1.jpg");
            assert_eq!(payload.seconds_remaining, 90);
            assert_eq!(payload.challenge, "Go black and white");
            assert_eq!(generation, 1);
        }
        _ => panic!("step should start"),
    }
    assert_eq!(Path::new(&s.expected_jpg), Path::new("out/IMG_1.jpg"));
    assert_eq!(s.records.len(), 1);
    assert_eq!(s.records[0].outcome, None);
    assert_eq!(s.current_idx, 0);
    commit_step(&mut s);
    assert_eq!(s.current_idx, 1);

    assert!(matches!(begin_step(&mut s, 6, &settings), StepStart::Stale));
    assert_eq!(s.records.len(), 1);

    let id = {
        let mut holder = Some(s);
        let id = advance_step(&mut holder, true, false);
        s = holder.unwrap();
        id
    };
    assert_eq!(id, 7);
    assert_eq!(s.records[0].outcome.as_deref(), Some("skipped"));

    match begin_step(&mut s, 7, &settings) {
        StepStart::Started { payload, generation } => {
            assert_eq!(payload.step_index, 2);
            assert_eq!(generation, 2);
        }
        _ => panic!("second step should start"),
    }
    commit_step(&mut s);
    assert!(matches!(begin_step(&mut s, 7, &settings), StepStart::Finished));
    assert_eq!(s.step_generation, 2);
}

#[test]
fn advance_without_session_returns_zero() {
    let mut none: Option<SessionState> = None;
    assert_eq!(advance_step(&mut none, false, true), 0);
    assert!(none.is_none());
}

#[test]
fn advance_without_skip_uses_disk() {
    let mut s = two_pick_session();
    s.records.push(StepRecord { raw_path: "r".into(), challenge: "c".into(), expected_jpg: "e".into(), outcome: None });
    let mut holder = Some(s);
    advance_step(&mut holder, false, true);
    assert_eq!(holder.unwrap().records[0].outcome.as_deref(), Some("exported"));
}

#[test]
fn reject_replaces_current_photo_and_keeps_length() {
    let settings = one_challenge_settings();
    let mut s = two_pick_session();
    assert_eq!(rejection_slot(&s), Err("No active photo to reject.".to_string()));
    if let StepStart::Started { .. } = begin_step(&mut s, 7, &settings) {
        commit_step(&mut s);
    }
    let slot = rejection_slot(&s).unwrap();
    assert_eq!(slot, 0);

    let mut unchanged = s.clone();
    assert_eq!(
        replace_pick(&mut unchanged, slot, None),
        Err("No replacement photo available in the archive.".to_string())
    );
    assert_eq!(unchanged.current_idx, 1);
    assert_eq!(unchanged.records.len(), 1);

    assert_eq!(replace_pick(&mut s, slot, Some("raw/z/IMG_9.CR2".into())), Ok(7));
    assert_eq!(s.picks, vec!["raw/z/IMG_9.CR2".to_string(), "raw/y/IMG_2.CR2".to_string()]);
    assert_eq!(s.current_idx, 0);
    assert!(s.records.is_empty());

    let old_generation = s.step_generation;
    match begin_step(&mut s, 7, &settings) {
        StepStart::Started { payload, generation } => {
            assert_eq!(payload.raw_path, "raw/z/IMG_9.CR2");
            assert_eq!(payload.step_index, 1);
            assert_eq!(generation, old_generation + 1);
        }
        _ => panic!("the step should restart"),
    }
}

#[test]
fn timer_is_current_only_for_latest_generation() {
    let settings = one_challenge_settings();
    let mut s = two_pick_session();
    let _ = begin_step(&mut s, 7, &settings);
    let holder = Some(s.clone());
    assert!(timer_is_current(&holder, 7, 1));
    assert!(!timer_is_current(&holder, 7, 0));
    assert!(!timer_is_current(&holder, 8, 1));
    assert!(!timer_is_current(&None, 7, 1));
    commit_step(&mut s);
    let _ = begin_step(&mut s, 7, &settings);
    let holder = Some(s);
    assert!(!timer_is_current(&holder, 7, 1));
    assert!(timer_is_current(&holder, 7, 2));
}

#[test]
fn watcher_targets_expected_jpg_of_running_session() {
    let settings = one_challenge_settings();
    let mut s = two_pick_session();
    assert_eq!(export_watch_target(&Some(s.clone()), 7), None);
    let _ = begin_step(&mut s, 7, &settings);
    commit_step(&mut s);
    let holder = Some(s);
    let (expected, idx) = export_watch_target(&holder, 7).unwrap();
    assert_eq!(Path::new(&expected), Path::new("out/IMG_1.jpg"));
    assert_eq!(idx, 1);
    assert_eq!(export_watch_target(&holder, 3), None);
    assert_eq!(export_watch_target(&None, 7), None);
}

#[test]
fn mark_exported_ends_step_of_matching_session_only() {
    let settings = one_challenge_settings();
    let mut s = two_pick_session();
    let _ = begin_step(&mut s, 7, &settings);
    let mut other = Some(s.clone());
    mark_exported(&mut other, 8);
    assert_eq!(other.unwrap().records[0].outcome, None);
    let mut holder = Some(s);
    mark_exported(&mut holder, 7);
    assert_eq!(holder.as_ref().unwrap().records[0].outcome.as_deref(), Some("exported"));
    let mut nothing: Option<SessionState> = None;
    mark_exported(&mut nothing, 7);
    assert!(nothing.is_none());
}

#[test]
fn file_is_stable_when_size_unchanged_and_nonzero() {
    assert!(sizes_are_stable(10, 10));
    assert!(!sizes_are_stable(0, 0));
    assert!(!sizes_are_stable(10, 12));
}

#[test]
fn countdown_ticks_down_then_expires() {
    let settings = one_challenge_settings();
    let mut s = two_pick_session();
    let _ = begin_step(&mut s, 7, &settings);
    let holder = Some(s);
    let mut shown = Vec::new();
    let mut remaining = 3u64;
    loop {
        match countdown_step(&holder, 7, 1, remaining) {
            TimerAction::Tick(left) => {
                shown.push(left);
                remaining = left - 1;
            }
            TimerAction::Expire => {
                shown.push(0);
                break;
            }
            TimerAction::Stop => panic!("the countdown is current"),
        }
    }
    assert_eq!(shown, vec![3, 2, 1, 0]);
}

#[test]
fn countdown_stops_for_an_older_step_or_no_session() {
    let settings = one_challenge_settings();
    let mut s = two_pick_session();
    let _ = begin_step(&mut s, 7, &settings);
    let holder = Some(s);
    assert!(matches!(countdown_step(&holder, 7, 0, 5), TimerAction::Stop));
    assert!(matches!(countdown_step(&holder, 8, 1, 5), TimerAction::Stop));
    assert!(matches!(countdown_step(&None, 7, 1, 0), TimerAction::Stop));
    assert!(matches!(countdown_step(&holder, 7, 1, 0), TimerAction::Expire));
    assert!(matches!(countdown_tick(9), TimerAction::Tick(9)));
    assert!(matches!(countdown_tick(0), TimerAction::Expire));
}

#[test]
fn replace_pick_without_replacement_fails_before_indexing() {
    let mut s = two_pick_session();
    s.current_idx = 5;
    let r = replace_pick(&mut s, 4, None);
    assert_eq!(r, Err("No replacement photo available in the archive.".to_string()));
    assert_eq!(s.current_idx, 5);
    assert_eq!(s.picks.len(), 2);
}
