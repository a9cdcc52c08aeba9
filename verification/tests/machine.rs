use gripdl::machine::{apply_command, DownloadCommand};
use gripdl::record::new_record;
use gripdl::status::DownloadStatus;

fn fresh_record() -> gripdl::record::DownloadInfo {
    new_record(
        String::from("http://host/file.bin"),
        String::from("/downloads"),
        None,
        None,
        None,
        1000,
    )
}

#[test]
fn pause_takes_effect_only_while_downloading() {
    assert_eq!(
        apply_command(DownloadStatus::Downloading, DownloadCommand::Pause),
        DownloadStatus::Paused
    );
    assert_eq!(
        apply_command(DownloadStatus::Pending, DownloadCommand::Pause),
        DownloadStatus::Pending
    );
    assert_eq!(
        apply_command(DownloadStatus::Paused, DownloadCommand::Pause),
        DownloadStatus::Paused
    );
}

#[test]
fn resume_takes_effect_only_while_paused() {
    assert_eq!(
        apply_command(DownloadStatus::Paused, DownloadCommand::Resume),
        DownloadStatus::Downloading
    );
    assert_eq!(
        apply_command(DownloadStatus::Downloading, DownloadCommand::Resume),
        DownloadStatus::Downloading
    );
}

#[test]
fn cancel_ends_any_live_state() {
    assert_eq!(
        apply_command(DownloadStatus::Downloading, DownloadCommand::Cancel),
        DownloadStatus::Cancelled
    );
    assert_eq!(
        apply_command(DownloadStatus::Paused, DownloadCommand::Cancel),
        DownloadStatus::Cancelled
    );
    assert_eq!(
        apply_command(DownloadStatus::Pending, DownloadCommand::Cancel),
        DownloadStatus::Cancelled
    );
}

#[test]
fn terminal_states_are_sticky() {
    for terminal in [
        DownloadStatus::Completed,
        DownloadStatus::Failed(String::from("boom")),
        DownloadStatus::Cancelled,
    ] {
        for cmd in [DownloadCommand::Pause, DownloadCommand::Resume, DownloadCommand::Cancel] {
            assert_eq!(apply_command(terminal.clone(), cmd), terminal);
        }
    }
}

#[test]
fn pause_resume_sequence_ends_downloading() {
    let mut s = DownloadStatus::Downloading;
    for cmd in [
        DownloadCommand::Pause,
        DownloadCommand::Resume,
        DownloadCommand::Pause,
        DownloadCommand::Pause,
        DownloadCommand::Resume,
    ] {
        s = apply_command(s, cmd);
    }
    assert_eq!(s, DownloadStatus::Downloading);
}

#[test]
fn record_walks_to_completed() {
    let mut rec = fresh_record();
    assert!(matches!(rec.status, DownloadStatus::Pending));
    rec.mark_downloading(Some(8 * 1024 * 1024), 1001);
    assert!(matches!(rec.status, DownloadStatus::Downloading));
    assert_eq!(rec.total_size, Some(8 * 1024 * 1024));
    assert_eq!(rec.updated_at, 1001);
    rec.set_progress(2 * 1024 * 1024, 1002);
    assert_eq!(rec.downloaded_size, 2 * 1024 * 1024);
    let ok = rec.try_complete(8 * 1024 * 1024, 1003);
    assert!(ok);
    assert!(matches!(rec.status, DownloadStatus::Completed));
    assert_eq!(rec.downloaded_size, 8 * 1024 * 1024);
    assert_eq!(rec.total_size, Some(rec.downloaded_size));
}

#[test]
fn truncated_body_does_not_complete() {
    let mut rec = fresh_record();
    rec.mark_downloading(Some(100), 1001);
    let ok = rec.try_complete(50, 1002);
    assert!(!ok);
    assert!(matches!(rec.status, DownloadStatus::Downloading));
    assert_eq!(rec.updated_at, 1001);
}

#[test]
fn unknown_size_completes_with_actual_bytes() {
    let mut rec = fresh_record();
    rec.mark_downloading(None, 1001);
    let ok = rec.try_complete(123_456, 1002);
    assert!(ok);
    assert!(matches!(rec.status, DownloadStatus::Completed));
    assert_eq!(rec.total_size, None);
    assert_eq!(rec.downloaded_size, 123_456);
}

#[test]
fn failure_keeps_its_reason() {
    let mut rec = fresh_record();
    rec.mark_downloading(Some(10), 1001);
    rec.mark_failed(String::from("connection reset"), 1002);
    assert_eq!(rec.status, DownloadStatus::Failed(String::from("connection reset")));
    assert_eq!(rec.updated_at, 1002);
}

#[test]
fn observe_command_updates_the_record() {
    let mut rec = fresh_record();
    rec.mark_downloading(None, 1001);
    rec.observe_command(DownloadCommand::Pause, 1002);
    assert!(matches!(rec.status, DownloadStatus::Paused));
    assert_eq!(rec.updated_at, 1002);
    rec.observe_command(DownloadCommand::Resume, 1003);
    assert!(matches!(rec.status, DownloadStatus::Downloading));
    rec.observe_command(DownloadCommand::Cancel, 1004);
    assert!(matches!(rec.status, DownloadStatus::Cancelled));
    rec.observe_command(DownloadCommand::Resume, 1005);
    assert!(matches!(rec.status, DownloadStatus::Cancelled));
}

#[test]
fn beginning_a_run_restarts_from_zero() {
    let mut rec = fresh_record();
    rec.mark_downloading(Some(100), 1001);
    rec.set_progress(60, 1002);
    assert_eq!(rec.downloaded_size, 60);
    rec.mark_downloading(Some(80), 1003);
    assert_eq!(rec.downloaded_size, 0);
    assert_eq!(rec.total_size, Some(80));
}

#[test]
fn progress_never_decreases_while_active() {
    let mut rec = fresh_record();
    rec.mark_downloading(Some(10 * 1024 * 1024), 1001);
    let mut last = rec.downloaded_size;
    for step in [1u64, 2, 2, 5, 9].iter().map(|m| m * 1024 * 1024) {
        rec.set_progress(step, 1002);
        assert!(rec.downloaded_size >= last);
        assert_eq!(rec.downloaded_size, step);
        last = rec.downloaded_size;
    }
}
