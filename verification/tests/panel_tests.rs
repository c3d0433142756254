use pipe_gui::encdec::{
    can_process, derive_output_filename, encdec_line_style, encdec_poll, EncDecLineStyle,
    LocalEncDecState,
};
use pipe_gui::launcher::ActionRequest;
use pipe_gui::panels::{
    begin_upload_status, default_api_endpoint, display_status_line, link_button_enabled,
    make_create_link_request, prefill_save_as, transfer_blocked, PipeGuiApp, StatusLineView,
    UploadDownloadState, UploadPanelState,
};
use pipe_gui::records::parse_upload_records;

#[test]
fn output_filename_derivation() {
    assert_eq!(derive_output_filename("report.pdf", 0), "report.pdf.enc");
    assert_eq!(derive_output_filename("report.pdf.enc", 1), "report.pdf");
    assert_eq!(derive_output_filename("x.enc.enc", 1), "x");
    assert_eq!(derive_output_filename("plain.bin", 1), "decrypted_plain.bin");
}

#[test]
fn encdec_gating_needs_all_fields() {
    let mut st = LocalEncDecState::default();
    assert!(!can_process(&st));
    st.input_path = "in".to_string();
    st.output_folder = "out".to_string();
    st.output_filename = "f".to_string();
    st.password = "pw".to_string();
    assert!(can_process(&st));
    st.is_processing = true;
    assert!(!can_process(&st));
}

#[test]
fn encdec_polling_reads_closing_marks() {
    let running = vec!["Processing...".to_string()];
    assert_eq!(encdec_poll(&running), (false, false));
    let ok = vec!["\u{2705} Process completed successfully!".to_string()];
    assert_eq!(encdec_poll(&ok), (true, true));
    let bad = vec!["\u{274c} Process failed: wrong password".to_string()];
    assert_eq!(encdec_poll(&bad), (true, false));
}

#[test]
fn encdec_line_styles() {
    assert!(matches!(encdec_line_style("\u{2705} done"), EncDecLineStyle::Success));
    assert!(matches!(encdec_line_style("\u{274c} bad"), EncDecLineStyle::Failure));
    assert!(matches!(encdec_line_style("working"), EncDecLineStyle::Plain));
}

#[test]
fn transfer_gating() {
    // An encrypting upload without a password is blocked.
    assert!(transfer_blocked(0, true, false, "   ", false));
    assert!(!transfer_blocked(0, true, false, "pw", false));
    // A plain download needs no password.
    assert!(!transfer_blocked(1, false, false, "", false));
    // A decrypting download does.
    assert!(transfer_blocked(1, false, true, "", false));
    // A live run blocks everything.
    assert!(transfer_blocked(1, false, false, "pw", true));
}

#[test]
fn save_as_prefill_on_mode_switch() {
    assert!(prefill_save_as(0, 1, "", "video.mp4"));
    assert!(!prefill_save_as(1, 1, "", "video.mp4"));
    assert!(!prefill_save_as(0, 1, "kept", "video.mp4"));
    assert!(!prefill_save_as(0, 1, "", ""));
}

#[test]
fn upload_status_header() {
    let st = begin_upload_status("/l/a.bin", "a.bin");
    assert_eq!(
        st.buf.snapshot(),
        vec![
            "Uploading".to_string(),
            "Local file: /l/a.bin".to_string(),
            "Remote file: a.bin".to_string(),
        ]
    );
    assert!(!st.completed);
}

#[test]
fn status_line_display_classes() {
    match display_status_line("[PROGRESS] 42.0MiB / 100.0MiB (42%, 10s)") {
        StatusLineView::Progress { value } => {
            assert_eq!(value, "42.0MiB / 100.0MiB (42%, 10s)")
        },
        _ => panic!("marker line must display as progress"),
    }
    assert!(matches!(display_status_line("Upload completed"), StatusLineView::Success));
    assert!(matches!(display_status_line("request FAILED"), StatusLineView::Error));
    assert!(matches!(display_status_line("connecting"), StatusLineView::Plain));
}

#[test]
fn create_link_request_trims_fields() {
    let req = make_create_link_request(" video.mp4 ", " My Title ", "  ");
    match req {
        ActionRequest::CreatePublicLink { remote_filename, title, description } => {
            assert_eq!(remote_filename, "video.mp4");
            assert_eq!(title, "My Title");
            assert_eq!(description, "");
        },
        _ => panic!("wrong request kind"),
    }
}

#[test]
fn link_button_needs_known_remote_name() {
    let content = "{\"local_path\": \"/l/a\", \"remote_path\": \"a.txt\", \"status\": \"ok\", \
                   \"message\": \"\", \"blake3_hash\": \"h\", \"file_size\": 1, \
                   \"timestamp\": \"2024-01-01T00:00:00Z\"}\n";
    let recs = parse_upload_records(content);
    assert!(link_button_enabled(false, " a.txt ", &recs));
    assert!(!link_button_enabled(false, "b.txt", &recs));
    assert!(!link_button_enabled(true, "a.txt", &recs));
    assert!(!link_button_enabled(false, "  ", &recs));
}

#[test]
fn app_defaults() {
    let app = PipeGuiApp::default();
    assert_eq!(app.selected_panel, 0);
    assert_eq!(app.api_endpoint, default_api_endpoint());
    assert_eq!(app.api_endpoint, "https://us-west-00-firestarter.pipenetwork.com");
    let ud = UploadDownloadState::default();
    assert_eq!(ud.mode, 0);
    let up = UploadPanelState::default();
    assert_eq!(up.selected_tier, 0);
    assert!(!up.status_upload.completed);
}
