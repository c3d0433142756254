use pipe_gui::launcher::{build_args, pipe_mint, tier_name, ActionRequest};

const API: &str = "https://us-west-00-firestarter.pipenetwork.com";

#[test]
fn upload_args_with_encryption() {
    let req = ActionRequest::UploadFile {
        local_path: "/home/u/video.mp4".to_string(),
        remote_name: "video.mp4".to_string(),
        tier: 2,
        encrypt: true,
        password: "secret".to_string(),
    };
    assert_eq!(
        build_args(&req, API),
        vec![
            "upload-file",
            "/home/u/video.mp4",
            "video.mp4",
            "--tier",
            "premium",
            "--encrypt",
            "--password",
            "secret",
            "--api",
            API,
            "--gui-style",
        ]
    );
}

#[test]
fn upload_args_plain() {
    let req = ActionRequest::UploadFile {
        local_path: "a".to_string(),
        remote_name: "b".to_string(),
        tier: 0,
        encrypt: false,
        password: String::new(),
    };
    assert_eq!(
        build_args(&req, API),
        vec!["upload-file", "a", "b", "--tier", "normal", "--api", API, "--gui-style"]
    );
}

#[test]
fn download_args_with_decrypt_and_legacy() {
    let req = ActionRequest::DownloadFile {
        remote_name: "video.mp4".to_string(),
        save_path: "/dl/video.mp4".to_string(),
        decrypt: true,
        password: "pw".to_string(),
        legacy: true,
    };
    assert_eq!(
        build_args(&req, API),
        vec![
            "download-file",
            "video.mp4",
            "/dl/video.mp4",
            "--decrypt",
            "--password",
            "pw",
            "--legacy",
            "--api",
            API,
            "--gui-style",
        ]
    );
}

#[test]
fn create_link_args_skip_empty_title_and_description() {
    let req = ActionRequest::CreatePublicLink {
        remote_filename: "video.mp4".to_string(),
        title: String::new(),
        description: "a demo".to_string(),
    };
    assert_eq!(
        build_args(&req, API),
        vec!["create-public-link", "video.mp4", "--description", "a demo", "--api", API]
    );
}

#[test]
fn login_and_new_user_args() {
    let req = ActionRequest::Login { username: "alice".to_string(), password: "pw".to_string() };
    assert_eq!(
        build_args(&req, API),
        vec!["login", "alice", "--api", API, "--password", "pw"]
    );
    let req = ActionRequest::NewUser { username: "bob".to_string(), password: "pw2".to_string() };
    assert_eq!(
        build_args(&req, API),
        vec!["new-user", "bob", "--api", API, "--password", "pw2"]
    );
}

#[test]
fn local_crypto_args_have_no_endpoint() {
    let req = ActionRequest::EncryptLocal {
        input_path: "in.bin".to_string(),
        output_path: "out.enc".to_string(),
        password: "pw".to_string(),
    };
    assert_eq!(
        build_args(&req, API),
        vec!["encrypt-local", "in.bin", "out.enc", "--password", "pw"]
    );
    let req = ActionRequest::DecryptLocal {
        input_path: "out.enc".to_string(),
        output_path: "in.bin".to_string(),
        password: "pw".to_string(),
    };
    assert_eq!(
        build_args(&req, API),
        vec!["decrypt-local", "out.enc", "in.bin", "--password", "pw"]
    );
}

#[test]
fn wallet_args() {
    assert_eq!(build_args(&ActionRequest::CheckSol, API), vec!["check-sol", "--api", API]);
    assert_eq!(build_args(&ActionRequest::CheckToken, API), vec!["check-token", "--api", API]);
    let req = ActionRequest::TokenUsage { period: "30d".to_string() };
    assert_eq!(build_args(&req, API), vec!["token-usage", "-p", "30d", "--api", API]);
    let req = ActionRequest::SwapSolForPipe { amount: "1.5".to_string() };
    assert_eq!(build_args(&req, API), vec!["swap-sol-for-pipe", "1.5", "--api", API]);
    let req = ActionRequest::WithdrawSol {
        amount: "0.2".to_string(),
        to_pubkey: "PK".to_string(),
    };
    assert_eq!(build_args(&req, API), vec!["withdraw-sol", "0.2", "PK", "--api", API]);
    let req = ActionRequest::WithdrawPipe {
        amount: "3".to_string(),
        to_pubkey: "PK".to_string(),
    };
    assert_eq!(
        build_args(&req, API),
        vec!["withdraw-custom-token", pipe_mint(), "3", "PK", "--api", API]
    );
    assert_eq!(build_args(&ActionRequest::GetTierPricing, API), vec!["get-tier-pricing"]);
}

#[test]
fn tier_names_in_order() {
    assert_eq!(
        (0..5).map(tier_name).collect::<Vec<_>>(),
        vec!["normal", "priority", "premium", "ultra", "enterprise"]
    );
}
