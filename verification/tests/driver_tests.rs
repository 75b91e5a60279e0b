use svu::driver::{probe_action, ProbeAction, SKIP_EXIT_CODE};

#[test]
fn exit_zero_marks_good() {
    assert_eq!(probe_action(Some(0)), ProbeAction::MarkGood);
}

#[test]
fn the_sentinel_marks_skip() {
    assert_eq!(SKIP_EXIT_CODE, 125);
    assert_eq!(probe_action(Some(125)), ProbeAction::MarkSkip);
}

#[test]
fn small_nonzero_codes_mark_bad() {
    assert_eq!(probe_action(Some(1)), ProbeAction::MarkBad);
    assert_eq!(probe_action(Some(124)), ProbeAction::MarkBad);
    assert_eq!(probe_action(Some(126)), ProbeAction::MarkBad);
    assert_eq!(probe_action(Some(127)), ProbeAction::MarkBad);
}

#[test]
fn large_codes_and_missing_status_abort() {
    assert_eq!(probe_action(Some(128)), ProbeAction::Abort);
    assert_eq!(probe_action(Some(255)), ProbeAction::Abort);
    assert_eq!(probe_action(None), ProbeAction::Abort);
}
