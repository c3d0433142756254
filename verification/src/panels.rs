//! The transfer and link panels' state, and the application shell's
//! state, with the decisions each panel makes before and after a run.

use vstd::prelude::*;
use vstd::string::*;

use crate::creds::LoginState;
use crate::encdec::LocalEncDecState;
use crate::extract::GeneratedLinks;
use crate::launcher::ActionRequest;
use crate::records::{ListUploadsState, UploadRecord};
use crate::status::{ActionStatus, StatusBuffer};
use crate::text;
use crate::wallet::WalletPanelState;

verus! {

/// Shared fields of the upload/download panel.
pub struct UploadDownloadState {
    pub local_path: String,
    pub remote_name: String,
    /// 0 uploads, 1 downloads.
    pub mode: usize,
    pub legacy: bool,
    pub save_as: String,
}

impl Default for UploadDownloadState {
    fn default() -> (r: UploadDownloadState)
        ensures
            r.local_path@ == Seq::<char>::empty(),
            r.remote_name@ == Seq::<char>::empty(),
            r.save_as@ == Seq::<char>::empty(),
            r.mode == 0,
            !r.legacy,
    {
        UploadDownloadState {
            local_path: String::new(),
            remote_name: String::new(),
            mode: 0,
            legacy: false,
            save_as: String::new(),
        }
    }
}

/// State of the upload/download panel.
pub struct UploadPanelState {
    pub tier_pricing_output: Option<String>,
    pub show_tier_popup: bool,
    pub selected_tier: usize,
    pub status_upload: ActionStatus,
    pub status_download: ActionStatus,
    pub encrypt: bool,
    pub decrypt: bool,
    pub password: String,
    pub is_processing: bool,
}

impl Default for UploadPanelState {
    fn default() -> (r: UploadPanelState)
        ensures
            r.tier_pricing_output is None,
            !r.show_tier_popup,
            r.selected_tier == 0,
            r.status_upload.buf@ == Seq::<Seq<char>>::empty(),
            !r.status_upload.completed,
            r.status_download.buf@ == Seq::<Seq<char>>::empty(),
            !r.status_download.completed,
            !r.encrypt && !r.decrypt && !r.is_processing,
            r.password@ == Seq::<char>::empty(),
    {
        UploadPanelState {
            tier_pricing_output: None,
            show_tier_popup: false,
            selected_tier: 0,
            status_upload: ActionStatus::new(),
            status_download: ActionStatus::new(),
            encrypt: false,
            decrypt: false,
            password: String::new(),
            is_processing: false,
        }
    }
}

/// State of the create-link panel.
pub struct CreateLinkState {
    pub remote_filename: String,
    pub title: String,
    pub description: String,
    pub status: StatusBuffer,
    pub is_processing: bool,
    pub generated_links: Option<GeneratedLinks>,
    pub copy_feedback: String,
}

impl Default for CreateLinkState {
    fn default() -> (r: CreateLinkState)
        ensures
            r.remote_filename@ == Seq::<char>::empty(),
            r.title@ == Seq::<char>::empty(),
            r.description@ == Seq::<char>::empty(),
            r.status@ == Seq::<Seq<char>>::empty(),
            !r.is_processing,
            r.generated_links is None,
            r.copy_feedback@ == Seq::<char>::empty(),
    {
        CreateLinkState {
            remote_filename: String::new(),
            title: String::new(),
            description: String::new(),
            status: StatusBuffer::new(),
            is_processing: false,
            generated_links: None,
            copy_feedback: String::new(),
        }
    }
}

/// The whole application's state, one panel each.
pub struct PipeGuiApp {
    pub selected_panel: usize,
    pub upload_panel: UploadPanelState,
    pub upload_download: UploadDownloadState,
    pub localencdec_state: LocalEncDecState,
    pub wallet_panel: WalletPanelState,
    pub link_state: CreateLinkState,
    pub api_endpoint: String,
    pub login_state: LoginState,
    pub list_uploads_state: ListUploadsState,
}

impl Default for PipeGuiApp {
    fn default() -> (r: PipeGuiApp)
        ensures
            r.selected_panel == 0,
            r.api_endpoint@ == "https://us-west-00-firestarter.pipenetwork.com"@,
    {
        PipeGuiApp {
            selected_panel: 0,
            upload_panel: UploadPanelState::default(),
            upload_download: UploadDownloadState::default(),
            localencdec_state: LocalEncDecState::default(),
            wallet_panel: WalletPanelState::default(),
            link_state: CreateLinkState::default(),
            api_endpoint: default_api_endpoint().to_owned(),
            login_state: LoginState::default(),
            list_uploads_state: ListUploadsState::default(),
        }
    }
}

/// The endpoint used until the user names another.
pub fn default_api_endpoint() -> (r: &'static str)
    ensures
        r@ == "https://us-west-00-firestarter.pipenetwork.com"@,
{
    "https://us-west-00-firestarter.pipenetwork.com"
}

/// The transfer button is blocked while a run is live or a required
/// password is blank: encrypting uploads and decrypting downloads need
/// one.
pub fn transfer_blocked(
    mode: usize,
    encrypt: bool,
    decrypt: bool,
    password: &str,
    is_processing: bool,
) -> (r: bool)
    ensures
        r == (is_processing || (((mode == 0 && encrypt) || (mode == 1 && decrypt))
            && text::trimmed(password@).len() == 0)),
{
    let pv = text::chars_of(password);
    let (lo, hi) = text::trim_bounds(&pv);
    let password_required = (mode == 0 && encrypt) || (mode == 1 && decrypt);
    is_processing || (password_required && lo == hi)
}

/// Switching into download mode prefills the save-as field with the
/// remote name when it is still empty.
pub fn prefill_save_as(
    old_mode: usize,
    new_mode: usize,
    save_as: &str,
    remote_name: &str,
) -> (r: bool)
    ensures
        r == (old_mode != new_mode && new_mode == 1 && save_as@.len() == 0 && remote_name@.len()
            > 0),
{
    old_mode != new_mode && new_mode == 1 && save_as.is_empty() && !remote_name.is_empty()
}

/// The opening status of an upload: what goes where.
pub fn begin_upload_status(local_path: &str, remote_name: &str) -> (r: ActionStatus)
    ensures
        !r.completed,
        r.buf@ == seq![
            "Uploading"@,
            "Local file: "@ + local_path@,
            "Remote file: "@ + remote_name@,
        ],
{
    let mut st = ActionStatus::new();
    let mut l2 = String::from_str("Local file: ");
    l2.append(local_path);
    let mut l3 = String::from_str("Remote file: ");
    l3.append(remote_name);
    st.buf.push_plain(String::from_str("Uploading"));
    st.buf.push_plain(l2);
    st.buf.push_plain(l3);
    proof {
        assert(st.buf@ =~= seq![
            "Uploading"@,
            "Local file: "@ + local_path@,
            "Remote file: "@ + remote_name@,
        ]);
    }
    st
}

/// How one status line is shown in the transfer panel.
pub enum StatusLineView {
    /// A live progress line; `value` is the text behind the marker.
    Progress { value: String },
    /// A line reporting success or completion.
    Success,
    /// A line reporting a failure or an error.
    Error,
    /// Any other log line.
    Plain,
}

impl StatusLineView {
    /// What the view says of the line it was made from.
    pub open spec fn wf(&self, l: Seq<char>) -> bool {
        match self {
            StatusLineView::Progress { value } => text::starts_with(l, "[PROGRESS]"@) && value@
                == text::trimmed(l.skip(10)),
            StatusLineView::Success => !text::starts_with(l, "[PROGRESS]"@) && (text::contains_ci(
                l,
                "success"@,
            ) || text::contains_ci(l, "completed"@)),
            StatusLineView::Error => !text::starts_with(l, "[PROGRESS]"@) && !text::contains_ci(
                l,
                "success"@,
            ) && !text::contains_ci(l, "completed"@) && (text::contains_ci(l, "failed"@)
                || text::contains_ci(l, "error"@)),
            StatusLineView::Plain => !text::starts_with(l, "[PROGRESS]"@) && !text::contains_ci(
                l,
                "success"@,
            ) && !text::contains_ci(l, "completed"@) && !text::contains_ci(l, "failed"@)
                && !text::contains_ci(l, "error"@),
        }
    }
}

/// Classify one status line for display: the progress marker wins, then
/// success words, then failure words.
pub fn display_status_line(line: &str) -> (r: StatusLineView)
    ensures
        r.wf(line@),
{
    let lv = text::chars_of(line);
    let marker = text::chars_of("[PROGRESS]");
    if text::starts_with_exec(&lv, &marker) {
        proof {
            reveal_strlit("[PROGRESS]");
        }
        let rest = line.substring_char(10, lv.len());
        let rv = text::chars_of(rest);
        let value = text::trim_str(rest, &rv);
        proof {
            assert(rest@ =~= line@.skip(10));
        }
        return StatusLineView::Progress { value };
    }
    let succ = text::chars_of("success");
    let comp = text::chars_of("completed");
    if text::contains_ci_exec(&lv, &succ) || text::contains_ci_exec(&lv, &comp) {
        return StatusLineView::Success;
    }
    let fail = text::chars_of("failed");
    let err = text::chars_of("error");
    if text::contains_ci_exec(&lv, &fail) || text::contains_ci_exec(&lv, &err) {
        return StatusLineView::Error;
    }
    StatusLineView::Plain
}

/// The link-creation request a click sends: the three fields, trimmed.
pub fn make_create_link_request(
    remote_filename: &str,
    title: &str,
    description: &str,
) -> (r: ActionRequest)
    ensures
        r matches ActionRequest::CreatePublicLink { remote_filename: rf, title: t, description: d }
            && rf@ == text::trimmed(remote_filename@) && t@ == text::trimmed(title@) && d@
            == text::trimmed(description@),
{
    let rv = text::chars_of(remote_filename);
    let tv = text::chars_of(title);
    let dv = text::chars_of(description);
    ActionRequest::CreatePublicLink {
        remote_filename: text::trim_str(remote_filename, &rv),
        title: text::trim_str(title, &tv),
        description: text::trim_str(description, &dv),
    }
}

/// The create-link button is live only with a known, non-blank remote
/// name and no run in flight.
pub fn link_button_enabled(
    is_processing: bool,
    remote_filename: &str,
    records: &Vec<UploadRecord>,
) -> (r: bool)
    ensures
        r == (!is_processing && text::trimmed(remote_filename@).len() > 0 && exists|i: int|
            0 <= i < crate::records::abs_seq(records@).len() && (
            #[trigger] crate::records::abs_seq(records@)[i]).remote_path == text::trimmed(
                remote_filename@,
            )),
{
    let rv = text::chars_of(remote_filename);
    let trimmed_name = text::trim_str(remote_filename, &rv);
    !is_processing && !trimmed_name.as_str().is_empty() && crate::records::remote_name_exists(
        records,
        trimmed_name.as_str(),
    )
}

} // verus!
