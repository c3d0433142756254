use pipe_gui::progress::{classify_line, extract_progress_info, LineClass};

#[test]
fn ratio_line_extracts_itself() {
    let line = "42.0MiB / 100.0MiB (42%, 10s)";
    assert_eq!(extract_progress_info(line), Some(line.to_string()));
}

#[test]
fn ratio_embedded_in_noise() {
    let got = extract_progress_info("uploading 42.0MiB / 100.0MiB (42%, 10s) now");
    assert_eq!(got, Some("42.0MiB / 100.0MiB (42%, 10s)".to_string()));
}

#[test]
fn ratio_with_marker_prefix() {
    let got = extract_progress_info("[PROGRESS] 1.5GiB / 2.0GiB (75%, 3s)");
    assert_eq!(got, Some("1.5GiB / 2.0GiB (75%, 3s)".to_string()));
}

#[test]
fn ratio_with_bare_bytes_unit() {
    let got = extract_progress_info("512B / 1024B (50%, 1s)");
    assert_eq!(got, Some("512B / 1024B (50%, 1s)".to_string()));
}

#[test]
fn bare_percent() {
    assert_eq!(extract_progress_info("Downloading 42% done"), Some("42%".to_string()));
    assert_eq!(extract_progress_info("100%"), Some("100%".to_string()));
}

#[test]
fn long_digit_run_percent_matches_suffix() {
    assert_eq!(extract_progress_info("12345%"), Some("345%".to_string()));
}

#[test]
fn no_progress_in_plain_line() {
    assert_eq!(extract_progress_info("Connecting to server..."), None);
    assert_eq!(extract_progress_info("42 of 100"), None);
}

#[test]
fn ratio_beats_percent() {
    let got = extract_progress_info("7% then 1.0MiB / 2.0MiB (50%, 2s)");
    assert_eq!(got, Some("1.0MiB / 2.0MiB (50%, 2s)".to_string()));
}

#[test]
fn classify_marker_line_verbatim() {
    match classify_line("  PROGRESS: connecting to node  ") {
        LineClass::Progress { value } => assert_eq!(value, "connecting to node"),
        LineClass::Plain { .. } => panic!("marker line not recognised"),
    }
}

#[test]
fn classify_plain_line_kept_verbatim() {
    match classify_line("  ordinary log line ") {
        LineClass::Plain { line } => assert_eq!(line, "  ordinary log line "),
        LineClass::Progress { .. } => panic!("plain line taken for progress"),
    }
}

#[test]
fn classify_ratio_is_progress() {
    match classify_line("42.0MiB / 100.0MiB (42%, 10s)") {
        LineClass::Progress { value } => {
            assert_eq!(value, "42.0MiB / 100.0MiB (42%, 10s)")
        },
        LineClass::Plain { .. } => panic!("ratio line not recognised"),
    }
}
