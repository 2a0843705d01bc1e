use ecg::decode::{
    pump_all, DecodeAction, DecodeError, DecodeStatus, FramePump, LocationTable, SourceLocation,
};

use DecodeStatus::{Frame, Malformed, NeedMoreData};

#[test]
fn corrupt_frame_between_two_valid_ones_is_skipped() {
    let actions = pump_all(true, &vec![Frame, Malformed, Frame, NeedMoreData]);
    assert_eq!(
        actions,
        vec![
            DecodeAction::Forward,
            DecodeAction::Skip,
            DecodeAction::Forward,
            DecodeAction::Wait
        ]
    );
    let forwarded = actions.iter().filter(|a| **a == DecodeAction::Forward).count();
    assert_eq!(forwarded, 2);
}

#[test]
fn corrupt_frame_is_fatal_without_resynchronisation() {
    let actions = pump_all(false, &vec![Frame, Malformed, Frame, NeedMoreData]);
    assert_eq!(
        actions,
        vec![
            DecodeAction::Forward,
            DecodeAction::Abort,
            DecodeAction::Abort,
            DecodeAction::Abort
        ]
    );
}

#[test]
fn pump_reports_the_fatal_error() {
    let mut p = FramePump::new(false);
    assert_eq!(p.error(), None);
    assert_eq!(p.on_status(Frame), DecodeAction::Forward);
    assert_eq!(p.on_status(Malformed), DecodeAction::Abort);
    assert_eq!(p.error(), Some(DecodeError::MalformedFrame));
    assert_eq!(p.on_status(Frame), DecodeAction::Abort);
}

#[test]
fn running_dry_waits_for_more_bytes() {
    let mut p = FramePump::new(true);
    assert_eq!(p.on_status(NeedMoreData), DecodeAction::Wait);
    assert_eq!(p.on_status(Frame), DecodeAction::Forward);
    assert_eq!(p.error(), None);
}

#[test]
fn empty_result_run_gives_no_actions() {
    assert!(pump_all(true, &vec![]).is_empty());
}

fn loc(file: &str, line: u64) -> SourceLocation {
    SourceLocation { file: file.to_string(), line, module: String::from("app") }
}

#[test]
fn location_lookup_finds_known_indices_only() {
    let mut t = LocationTable::new();
    t.insert(3, loc("src/main.rs", 10));
    t.insert(7, loc("src/lib.rs", 20));
    assert_eq!(t.lookup(3).unwrap().line, 10);
    assert_eq!(t.lookup(7).unwrap().file, "src/lib.rs");
    assert!(t.lookup(5).is_none());
    t.insert(3, loc("src/other.rs", 99));
    assert_eq!(t.lookup(3).unwrap().line, 99);
    assert_eq!(t.lookup(3).unwrap().module, "app");
}
