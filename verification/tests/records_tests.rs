use pipe_gui::format::{format_file_size, format_size};
use pipe_gui::records::{
    classify_record_status, matching_indices, parse_record_line, parse_upload_records,
    record_matches_search, refresh_due, remote_name_exists, reversed_indices, short_hash,
    split_for_highlight, StatusKind,
};

fn record_line(remote: &str, size: u64, ts: &str) -> String {
    format!(
        "{{\"local_path\": \"/l/{r}\", \"remote_path\": \"{r}\", \"status\": \"Success\", \
         \"message\": \"uploaded\", \"blake3_hash\": \"abcd1234abcd1234abcd1234\", \
         \"file_size\": {s}, \"timestamp\": \"{t}\"}}",
        r = remote,
        s = size,
        t = ts,
    )
}

#[test]
fn single_line_parses() {
    let line = record_line("a.txt", 1024, "2024-01-15T10:30:00Z");
    let rec = parse_record_line(&line).expect("line must parse");
    assert_eq!(rec.local_path, "/l/a.txt");
    assert_eq!(rec.remote_path, "a.txt");
    assert_eq!(rec.status, "Success");
    assert_eq!(rec.message, "uploaded");
    assert_eq!(rec.blake3_hash, "abcd1234abcd1234abcd1234");
    assert_eq!(rec.file_size, 1024);
    assert_eq!(rec.timestamp_secs, 1705314600);
    assert_eq!(rec.timestamp_nanos, 0);
}

#[test]
fn missing_field_does_not_parse() {
    assert!(parse_record_line("{\"remote_path\": \"x\"}").is_none());
    assert!(parse_record_line("garbage").is_none());
}

#[test]
fn log_parses_newest_first_and_skips_bad_lines() {
    let content = format!(
        "{}\n\nnot json\n{}\n{}\n",
        record_line("old.txt", 10, "2023-05-01T00:00:00Z"),
        record_line("newest.txt", 30, "2024-06-01T12:00:00Z"),
        record_line("middle.txt", 20, "2024-01-15T10:30:00Z"),
    );
    let recs = parse_upload_records(&content);
    assert_eq!(recs.len(), 3);
    assert_eq!(recs[0].remote_path, "newest.txt");
    assert_eq!(recs[1].remote_path, "middle.txt");
    assert_eq!(recs[2].remote_path, "old.txt");
}

#[test]
fn subsecond_timestamps_order() {
    let content = format!(
        "{}\n{}\n",
        record_line("early.txt", 1, "2024-01-01T00:00:00.100Z"),
        record_line("late.txt", 2, "2024-01-01T00:00:00.900Z"),
    );
    let recs = parse_upload_records(&content);
    assert_eq!(recs[0].remote_path, "late.txt");
    assert_eq!(recs[1].remote_path, "early.txt");
}

#[test]
fn search_matches_fields_case_insensitively() {
    let line = record_line("Video.MP4", 5, "2024-01-01T00:00:00Z");
    let rec = parse_record_line(&line).unwrap();
    assert!(record_matches_search(&rec, "video"));
    assert!(record_matches_search(&rec, "UPLOADED"));
    assert!(record_matches_search(&rec, "abcd1234"));
    assert!(!record_matches_search(&rec, "missing"));
}

#[test]
fn hash_search_is_exact() {
    let line = record_line("a", 5, "2024-01-01T00:00:00Z");
    let rec = parse_record_line(&line).unwrap();
    // The hash field matches only with the exact case.
    assert!(!record_matches_search(&rec, "ABCD1234ABCD1234ABCD1234"));
    assert!(record_matches_search(&rec, "abcd1234abcd1234abcd1234"));
}

#[test]
fn remote_existence() {
    let content = format!("{}\n", record_line("here.txt", 1, "2024-01-01T00:00:00Z"));
    let recs = parse_upload_records(&content);
    assert!(remote_name_exists(&recs, "here.txt"));
    assert!(!remote_name_exists(&recs, "gone.txt"));
}

#[test]
fn hash_shortening() {
    assert_eq!(short_hash("0123456789abcdef"), "0123456789abcdef");
    assert_eq!(short_hash("0123456789abcdef0"), "01234567...9abcdef0");
    assert_eq!(short_hash(""), "");
}

#[test]
fn highlight_split() {
    assert_eq!(
        split_for_highlight("My Video.mp4", "video"),
        Some(("My ".to_string(), "Video".to_string(), ".mp4".to_string()))
    );
    assert_eq!(split_for_highlight("My Video.mp4", "zzz"), None);
}

#[test]
fn status_classification() {
    assert!(matches!(classify_record_status("Upload Success"), StatusKind::Succeeded));
    assert!(matches!(classify_record_status("FAILED: timeout"), StatusKind::Failed));
    assert!(matches!(classify_record_status("network error"), StatusKind::Failed));
    assert!(matches!(classify_record_status("in flight"), StatusKind::Pending));
}

#[test]
fn refresh_policy() {
    assert!(refresh_due(11, false));
    assert!(!refresh_due(10, false));
    assert!(refresh_due(0, true));
}

#[test]
fn sizes_format_with_one_decimal() {
    assert_eq!(format_size(0), "0 B");
    assert_eq!(format_size(500), "500 B");
    assert_eq!(format_size(1023), "1023 B");
    assert_eq!(format_size(1024), "1.0 KB");
    assert_eq!(format_size(1536), "1.5 KB");
    assert_eq!(format_size(1126), "1.1 KB");
    assert_eq!(format_size(1048576), "1.0 MB");
    assert_eq!(format_size(1073741824), "1.0 GB");
    assert_eq!(format_size(1099511627776), "1.0 TB");
    assert_eq!(format_file_size(2621440), "2.5 MB");
}

#[test]
fn search_indices_and_order_toggle() {
    let content = format!(
        "{}\n{}\n{}\n",
        record_line("notes.txt", 1, "2024-03-01T00:00:00Z"),
        record_line("video.mp4", 2, "2024-02-01T00:00:00Z"),
        record_line("video.bak", 3, "2024-01-01T00:00:00Z"),
    );
    let recs = parse_upload_records(&content);
    // Newest first: notes, video.mp4, video.bak.
    let hits = matching_indices(&recs, "video");
    assert_eq!(hits, vec![1, 2]);
    assert_eq!(reversed_indices(&hits), vec![2, 1]);
}
