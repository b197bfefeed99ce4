use mimirdlp::process::{
    collect, kill_target, poll, taskkill_args, RunError, Waited, Watch, POLL_MILLIS,
};

#[test]
fn a_tool_is_watched_until_it_ends_or_is_late() {
    assert_eq!(poll(Waited::Ended, 100, 10), Watch::Collect);
    assert_eq!(poll(Waited::Running, 10, 10), Watch::Sleep(POLL_MILLIS));
    assert_eq!(poll(Waited::Running, 11, 10), Watch::Kill(RunError::TimedOut));
    assert_eq!(
        poll(Waited::Failed("lost".into()), 0, 10),
        Watch::Kill(RunError::Wait("lost".into()))
    );
}

#[test]
fn output_that_is_not_utf8_is_kept_rather_than_dropped() {
    let out = collect(true, Some(b"Jos\xe9\n".to_vec()), Some(b"err\n".to_vec()));
    assert!(out.success);
    assert_eq!(out.stdout, "Jos\u{fffd}\n");
    assert_eq!(out.stderr, "err\n");
}

#[test]
fn a_reader_that_failed_has_nothing_to_add() {
    let out = collect(false, Some("Jos\u{e9}".as_bytes().to_vec()), None);
    assert!(!out.success);
    assert_eq!(out.stdout, "Jos\u{e9}");
    assert_eq!(out.stderr, "");
}

#[test]
fn a_whole_process_group_is_addressed() {
    assert_eq!(kill_target(1234), Some(-1234));
    assert_eq!(kill_target(i32::MAX as u32), Some(-i32::MAX));
    assert_eq!(kill_target(i32::MAX as u32 + 1), None);
    assert_eq!(taskkill_args(77), ["/PID", "77", "/T", "/F"]);
}
