use pipe_gui::demux::StreamBuffer;
use pipe_gui::progress::classify_line;
use pipe_gui::status::{ActionStatus, StatusBuffer};

#[test]
fn two_progress_events_leave_one_line() {
    let mut buf = StatusBuffer::new();
    buf.push_plain("connecting".to_string());
    buf.push_plain("authenticated".to_string());
    buf.set_progress("10%");
    buf.set_progress("42%");
    assert_eq!(
        buf.snapshot(),
        vec![
            "connecting".to_string(),
            "authenticated".to_string(),
            "[PROGRESS] 42%".to_string(),
        ]
    );
}

#[test]
fn interleaved_lines_keep_plain_order_and_progress_last() {
    let mut buf = StatusBuffer::new();
    buf.push_plain("alpha".to_string());
    buf.set_progress("10%");
    buf.push_plain("beta".to_string());
    buf.set_progress("20%");
    assert_eq!(
        buf.snapshot(),
        vec!["alpha".to_string(), "beta".to_string(), "[PROGRESS] 20%".to_string()]
    );
    buf.push_plain("gamma".to_string());
    buf.set_progress("99%");
    assert_eq!(
        buf.snapshot(),
        vec![
            "alpha".to_string(),
            "beta".to_string(),
            "gamma".to_string(),
            "[PROGRESS] 99%".to_string(),
        ]
    );
}

#[test]
fn classified_stream_updates_buffer() {
    let mut status = ActionStatus::new();
    for line in ["starting", "5%", "50%", "done soon"] {
        let ev = classify_line(line);
        status.update(&ev);
    }
    assert_eq!(
        status.buf.snapshot(),
        vec![
            "starting".to_string(),
            "[PROGRESS] 50%".to_string(),
            "done soon".to_string(),
        ]
    );
    assert!(!status.completed);
}

#[test]
fn nonzero_exit_resolves_flag_with_stderr_text() {
    let mut status = ActionStatus::new();
    status.update(&classify_line("uploading"));
    status.update(&classify_line("42%"));
    status.resolve_failure("\u{274c} Process failed: ", "permission denied by server");
    assert!(status.completed);
    let snapshot = status.buf.snapshot();
    let last = snapshot.last().expect("status must not be empty");
    assert!(last.contains("permission denied by server"));
}

#[test]
fn spawn_error_still_resolves() {
    let mut status = ActionStatus::new();
    status.resolve_spawn_error("No such file or directory");
    assert!(status.completed);
    let snapshot = status.buf.snapshot();
    assert_eq!(snapshot.len(), 1);
    assert!(snapshot[0].contains("No such file or directory"));
}

#[test]
fn independent_actions_do_not_block_each_other() {
    // A slow action: its stream has produced only an unterminated
    // fragment, and its status stays open.
    let mut slow_stream = StreamBuffer::new();
    let mut slow_status = ActionStatus::new();
    let produced = slow_stream.feed(b"still upl");
    assert!(produced.is_empty());

    // A second, independent action completes in the meantime.
    let mut fast_status = ActionStatus::new();
    fast_status.update(&classify_line("done"));
    fast_status.resolve_success("\u{2705} Process completed successfully!".to_string());
    assert!(fast_status.completed);
    assert_eq!(fast_status.buf.snapshot().len(), 2);

    // The slow action's store is untouched by the fast one: polling it
    // still answers, and it is still incomplete.
    assert!(!slow_status.completed);
    assert!(slow_status.buf.snapshot().is_empty());

    // The slow stream later finishes on its own.
    let more = slow_stream.feed(b"oading\n");
    assert_eq!(more, vec![b"still uploading".to_vec()]);
    slow_status.update(&classify_line("still uploading"));
    slow_status.resolve_success("\u{2705} Process completed successfully!".to_string());
    assert!(slow_status.completed);
}

#[test]
fn ratio_line_stored_verbatim_behind_marker() {
    let mut status = ActionStatus::new();
    status.update(&classify_line("42.0MiB / 100.0MiB (42%, 10s)"));
    assert_eq!(
        status.buf.snapshot(),
        vec!["[PROGRESS] 42.0MiB / 100.0MiB (42%, 10s)".to_string()]
    );
}
