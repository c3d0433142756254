//! Credential-file validation and the login workflow's decisions.
//!
//! The tool keeps its credentials in a small JSON object; an action may
//! run only when that object carries the two non-empty string identity
//! fields.  Reading and writing the file is outside work; this module
//! owns what counts as valid and which message each login outcome earns.

use vstd::prelude::*;
use vstd::string::*;

use crate::text;

verus! {

/// The string value of field `key` in the JSON object that `text`
/// parses to, when `text` is a JSON object whose `key` is a string.
pub uninterp spec fn json_str_field(text: Seq<char>, key: Seq<char>) -> Option<Seq<char>>;

/// Relies on serde_json: `from_str::<Value>` parses the text, `Value::get`
/// looks the key up in an object, and `Value::as_str` hands the value out
/// exactly when it is a string.  The composition depends on the two
/// arguments alone.
#[verifier::external_body]
pub(crate) fn json_text_field(text: &str, key: &str) -> (r: Option<String>)
    ensures
        r.deep_view() == json_str_field(text@, key@),
{
    match serde_json::from_str::<serde_json::Value>(text) {
        Ok(v) => v.get(key).and_then(|f| f.as_str()).map(|s| s.to_string()),
        Err(_) => None,
    }
}

/// Field `key` is present as a non-empty string.
pub open spec fn has_nonempty_field(content: Seq<char>, key: Seq<char>) -> bool {
    match json_str_field(content, key) {
        Some(v) => v.len() > 0,
        None => false,
    }
}

/// A credentials text is valid when both identity fields are non-empty
/// strings.
pub open spec fn spec_valid_credentials(content: Seq<char>) -> bool {
    has_nonempty_field(content, "user_id"@) && has_nonempty_field(content, "user_app_key"@)
}

/// Whether a credentials text gates the core actions open.
pub fn validate_json_credentials(json_content: &str) -> (r: bool)
    ensures
        r == spec_valid_credentials(json_content@),
{
    let user_id_ok = match json_text_field(json_content, "user_id") {
        Some(v) => !v.as_str().is_empty(),
        None => false,
    };
    let app_key_ok = match json_text_field(json_content, "user_app_key") {
        Some(v) => !v.as_str().is_empty(),
        None => false,
    };
    user_id_ok && app_key_ok
}

/// State of the login panel.
pub struct LoginState {
    pub show_password: bool,
    pub username: String,
    pub password: String,
    pub status: String,
    pub is_loading: bool,
    pub logged_in: bool,
    pub has_valid_credentials: bool,
    pub show_import_options: bool,
    pub json_text: String,
    pub show_new_user_form: bool,
    pub new_user_username: String,
    pub new_user_password: String,
    pub new_user_confirm_password: String,
}

impl Default for LoginState {
    /// Everything empty, nothing loading, nobody logged in.
    fn default() -> (r: LoginState)
        ensures
            r.username@ == Seq::<char>::empty(),
            r.password@ == Seq::<char>::empty(),
            r.status@ == Seq::<char>::empty(),
            r.json_text@ == Seq::<char>::empty(),
            r.new_user_username@ == Seq::<char>::empty(),
            r.new_user_password@ == Seq::<char>::empty(),
            r.new_user_confirm_password@ == Seq::<char>::empty(),
            !r.show_password && !r.is_loading && !r.logged_in,
            !r.has_valid_credentials && !r.show_import_options && !r.show_new_user_form,
    {
        LoginState {
            show_password: false,
            username: String::new(),
            password: String::new(),
            status: String::new(),
            is_loading: false,
            logged_in: false,
            has_valid_credentials: false,
            show_import_options: false,
            json_text: String::new(),
            show_new_user_form: false,
            new_user_username: String::new(),
            new_user_password: String::new(),
            new_user_confirm_password: String::new(),
        }
    }
}

/// The login button is live only with both fields filled and no call in
/// flight.
pub fn can_login(state: &LoginState) -> (r: bool)
    ensures
        r == (!state.is_loading && state.username@.len() > 0 && state.password@.len() > 0),
{
    !state.is_loading && !state.username.as_str().is_empty() && !state.password.as_str().is_empty()
}

/// The create-user button is live only with all three fields filled, the
/// two passwords equal, and no call in flight.
pub fn can_create_user(state: &LoginState) -> (r: bool)
    ensures
        r == (!state.is_loading && state.new_user_username@.len() > 0
            && state.new_user_password@.len() > 0 && state.new_user_confirm_password@.len() > 0
            && state.new_user_password@ == state.new_user_confirm_password@),
{
    !state.is_loading && !state.new_user_username.as_str().is_empty()
        && !state.new_user_password.as_str().is_empty()
        && !state.new_user_confirm_password.as_str().is_empty()
        && state.new_user_password == state.new_user_confirm_password
}

/// Message shown after a login attempt, by what the attempt left behind:
/// the exit state, the captured stderr, the credentials path shown to the
/// user, and whether the credentials file existed before, exists now, and
/// is valid now.
pub open spec fn spec_login_message(
    exit_ok: bool,
    stderr: Seq<char>,
    config_path: Seq<char>,
    existed_before: bool,
    exists_now: bool,
    valid_now: bool,
) -> Seq<char> {
    if !exit_ok {
        "\u{274c} Login failed: "@ + stderr
    } else if valid_now && exists_now {
        if existed_before {
            "\u{2705} Login successful! Credentials updated."@
        } else {
            "\u{2705} Login successful! Valid credentials file created."@
        }
    } else if exists_now {
        "\u{26a0} Login succeeded but credentials are incomplete. You may need legacy credentials (user_id and user_app_key)."@
    } else {
        "Login succeeded, but no credentials file.\nNo pipe CLI configuration found at: "@
            + config_path + "\n\u{274c} You cannot use features without valid credentials."@
    }
}

/// Build the login outcome message.
pub fn login_message(
    exit_ok: bool,
    stderr: &str,
    config_path: &str,
    existed_before: bool,
    exists_now: bool,
    valid_now: bool,
) -> (r: String)
    ensures
        r@ == spec_login_message(
            exit_ok,
            stderr@,
            config_path@,
            existed_before,
            exists_now,
            valid_now,
        ),
{
    if !exit_ok {
        let mut m = String::from_str("\u{274c} Login failed: ");
        m.append(stderr);
        m
    } else if valid_now && exists_now {
        if existed_before {
            String::from_str("\u{2705} Login successful! Credentials updated.")
        } else {
            String::from_str("\u{2705} Login successful! Valid credentials file created.")
        }
    } else if exists_now {
        String::from_str(
            "\u{26a0} Login succeeded but credentials are incomplete. You may need legacy credentials (user_id and user_app_key).",
        )
    } else {
        let mut m = String::from_str(
            "Login succeeded, but no credentials file.\nNo pipe CLI configuration found at: ",
        );
        m.append(config_path);
        m.append("\n\u{274c} You cannot use features without valid credentials.");
        m
    }
}

/// Message shown after a create-user attempt.
pub open spec fn spec_new_user_message(exit_ok: bool, stderr: Seq<char>) -> Seq<char> {
    if exit_ok {
        "\u{2705} User created successfully! You can now login."@
    } else {
        "\u{274c} Failed to create user: "@ + stderr
    }
}

pub fn new_user_message(exit_ok: bool, stderr: &str) -> (r: String)
    ensures
        r@ == spec_new_user_message(exit_ok, stderr@),
{
    if exit_ok {
        String::from_str("\u{2705} User created successfully! You can now login.")
    } else {
        let mut m = String::from_str("\u{274c} Failed to create user: ");
        m.append(stderr);
        m
    }
}

/// The status text signals a completed login.
pub fn login_succeeded(status: &str) -> (r: bool)
    ensures
        r == text::contains_seq(status@, "\u{2705} Login successful!"@),
{
    let v = text::chars_of(status);
    let p = text::chars_of("\u{2705} Login successful!");
    text::contains_exec(&v, &p)
}

/// The status text asks for the credential import options.
pub fn import_prompt_needed(status: &str) -> (r: bool)
    ensures
        r == (text::contains_seq(status@, "Login succeeded, but no credentials file"@)
            || text::contains_seq(
            status@,
            "\u{26a0} Login succeeded but no credentials file was created."@,
        ) || text::contains_seq(status@, "You cannot use features without valid credentials"@)
            || text::contains_seq(status@, "No pipe CLI configuration found"@)),
{
    let v = text::chars_of(status);
    let p1 = text::chars_of("Login succeeded, but no credentials file");
    let p2 = text::chars_of("\u{26a0} Login succeeded but no credentials file was created.");
    let p3 = text::chars_of("You cannot use features without valid credentials");
    let p4 = text::chars_of("No pipe CLI configuration found");
    text::contains_exec(&v, &p1) || text::contains_exec(&v, &p2) || text::contains_exec(&v, &p3)
        || text::contains_exec(&v, &p4)
}

/// The status text signals a finished credential import.
pub fn import_finished(status: &str) -> (r: bool)
    ensures
        r == (text::contains_seq(status@, "\u{2705} Credentials imported successfully!"@)
            || text::contains_seq(status@, "\u{2705} Credentials saved successfully!"@)),
{
    let v = text::chars_of(status);
    let p1 = text::chars_of("\u{2705} Credentials imported successfully!");
    let p2 = text::chars_of("\u{2705} Credentials saved successfully!");
    text::contains_exec(&v, &p1) || text::contains_exec(&v, &p2)
}

/// The status text signals a created user.
pub fn user_created(status: &str) -> (r: bool)
    ensures
        r == text::contains_seq(status@, "\u{2705} User created successfully!"@),
{
    let v = text::chars_of(status);
    let p = text::chars_of("\u{2705} User created successfully!");
    text::contains_exec(&v, &p)
}

} // verus!
