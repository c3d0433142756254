use pipe_gui::creds::{
    can_create_user, can_login, import_finished, import_prompt_needed, login_message,
    login_succeeded, new_user_message, user_created, validate_json_credentials, LoginState,
};

#[test]
fn valid_credentials_pass() {
    let json = "{\"user_id\": \"u-1\", \"user_app_key\": \"k-1\"}";
    assert!(validate_json_credentials(json));
}

#[test]
fn extra_fields_are_harmless() {
    let json = "{\"user_id\": \"u\", \"user_app_key\": \"k\", \"other\": 3}";
    assert!(validate_json_credentials(json));
}

#[test]
fn empty_identity_field_fails() {
    assert!(!validate_json_credentials("{\"user_id\": \"\", \"user_app_key\": \"k\"}"));
    assert!(!validate_json_credentials("{\"user_id\": \"u\", \"user_app_key\": \"\"}"));
}

#[test]
fn missing_field_fails() {
    assert!(!validate_json_credentials("{\"user_id\": \"u\"}"));
    assert!(!validate_json_credentials("{}"));
}

#[test]
fn non_string_field_fails() {
    assert!(!validate_json_credentials("{\"user_id\": 7, \"user_app_key\": \"k\"}"));
}

#[test]
fn malformed_json_fails() {
    assert!(!validate_json_credentials("not json at all"));
    assert!(!validate_json_credentials("[\"user_id\", \"user_app_key\"]"));
}

#[test]
fn login_messages_by_outcome() {
    assert_eq!(
        login_message(true, "", "/home/u/.pipe-cli.json", false, true, true),
        "\u{2705} Login successful! Valid credentials file created."
    );
    assert_eq!(
        login_message(true, "", "/home/u/.pipe-cli.json", true, true, true),
        "\u{2705} Login successful! Credentials updated."
    );
    let incomplete = login_message(true, "", "/p", true, true, false);
    assert!(incomplete.contains("credentials are incomplete"));
    let missing = login_message(true, "", "/home/u/.pipe-cli.json", false, false, false);
    assert!(missing.contains("Login succeeded, but no credentials file"));
    assert!(missing.contains("No pipe CLI configuration found at: /home/u/.pipe-cli.json"));
    assert!(missing.contains("You cannot use features without valid credentials"));
    assert_eq!(
        login_message(false, "bad password", "/p", false, false, false),
        "\u{274c} Login failed: bad password"
    );
}

#[test]
fn new_user_messages() {
    assert_eq!(
        new_user_message(true, ""),
        "\u{2705} User created successfully! You can now login."
    );
    assert_eq!(
        new_user_message(false, "name taken"),
        "\u{274c} Failed to create user: name taken"
    );
}

#[test]
fn status_text_probes() {
    assert!(login_succeeded("\u{2705} Login successful! Credentials updated."));
    assert!(!login_succeeded("\u{274c} Login failed: nope"));
    assert!(import_prompt_needed("No pipe CLI configuration found at: /p"));
    assert!(!import_prompt_needed("\u{2705} Login successful!"));
    assert!(import_finished("\u{2705} Credentials saved successfully!"));
    assert!(!import_finished("working"));
    assert!(user_created("\u{2705} User created successfully! You can now login."));
}

#[test]
fn login_gating() {
    let mut st = LoginState::default();
    assert!(!can_login(&st));
    st.username = "alice".to_string();
    st.password = "pw".to_string();
    assert!(can_login(&st));
    st.is_loading = true;
    assert!(!can_login(&st));
}

#[test]
fn create_user_gating_needs_matching_passwords() {
    let mut st = LoginState::default();
    st.new_user_username = "bob".to_string();
    st.new_user_password = "one".to_string();
    st.new_user_confirm_password = "two".to_string();
    assert!(!can_create_user(&st));
    st.new_user_confirm_password = "one".to_string();
    assert!(can_create_user(&st));
}
