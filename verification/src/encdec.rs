//! The local encrypt/decrypt panel: its state and its decisions.
//!
//! The output file name is derived from the input's: encrypting appends
//! `.enc`; decrypting strips every trailing `.enc`, or prefixes
//! `decrypted_` when there is none to strip.  The panel runs only with
//! all four fields filled, and polls its status text for the closing
//! mark the worker leaves.

use vstd::prelude::*;
use vstd::string::*;

use crate::status::ActionStatus;
use crate::text;

verus! {

/// State of the encrypt/decrypt panel.
pub struct LocalEncDecState {
    pub input_path: String,
    pub output_folder: String,
    pub password: String,
    pub output_filename: String,
    pub status_raw: ActionStatus,
    pub mode: usize,
    pub is_processing: bool,
    pub last_output: Option<String>,
    pub process_success: bool,
}

impl Default for LocalEncDecState {
    /// Empty fields, encrypt mode, nothing running.
    fn default() -> (r: LocalEncDecState)
        ensures
            r.input_path@ == Seq::<char>::empty(),
            r.output_folder@ == Seq::<char>::empty(),
            r.password@ == Seq::<char>::empty(),
            r.output_filename@ == Seq::<char>::empty(),
            r.status_raw.buf@ == Seq::<Seq<char>>::empty(),
            !r.status_raw.completed,
            r.mode == 0,
            !r.is_processing,
            r.last_output is None,
            !r.process_success,
    {
        LocalEncDecState {
            input_path: String::new(),
            output_folder: String::new(),
            password: String::new(),
            output_filename: String::new(),
            status_raw: ActionStatus::new(),
            mode: 0,
            is_processing: false,
            last_output: None,
            process_success: false,
        }
    }
}

/// `s` with every copy of `p` removed from its end.
pub open spec fn strip_all_suffix(s: Seq<char>, p: Seq<char>) -> Seq<char>
    decreases s.len(),
{
    if p.len() > 0 && text::ends_with(s, p) {
        strip_all_suffix(s.take(s.len() - p.len()), p)
    } else {
        s
    }
}

/// The output file name the panel proposes for an input file name:
/// `.enc` appended when encrypting; when decrypting, every trailing
/// `.enc` stripped, or `decrypted_` prefixed when there is none.
pub open spec fn spec_output_filename(input_filename: Seq<char>, mode: int) -> Seq<char> {
    if mode == 0 {
        input_filename + ".enc"@
    } else if text::ends_with(input_filename, ".enc"@) {
        strip_all_suffix(input_filename, ".enc"@)
    } else {
        "decrypted_"@ + input_filename
    }
}

/// Length kept after stripping every trailing `.enc` from `v`.
fn strip_enc_len(v: &Vec<char>, suffix: &Vec<char>) -> (end: usize)
    requires
        suffix@ == ".enc"@,
    ensures
        end <= v@.len(),
        v@.take(end as int) == strip_all_suffix(v@, ".enc"@),
{
    let ghost p = ".enc"@;
    proof {
        reveal_strlit(".enc");
    }
    let mut end = v.len();
    proof {
        assert(v@.take(v@.len() as int) =~= v@);
    }
    while end >= 4 && text::match_at_exec(v, suffix, end - 4)
        invariant
            suffix@ == p,
            p.len() == 4,
            end <= v@.len(),
            strip_all_suffix(v@, p) == strip_all_suffix(v@.take(end as int), p),
        decreases end,
    {
        proof {
            let cur = v@.take(end as int);
            assert(text::ends_with(cur, p)) by {
                assert(cur.subrange(end - 4, end as int) =~= v@.subrange(end - 4, end as int));
            }
            assert(cur.take(cur.len() - 4) =~= v@.take(end - 4));
        }
        end = end - 4;
    }
    proof {
        let cur = v@.take(end as int);
        assert(!text::ends_with(cur, p)) by {
            if text::ends_with(cur, p) {
                assert(v@.subrange(end - 4, end as int) =~= cur.subrange(end - 4, end as int));
            }
        }
    }
    end
}

/// Propose the output file name for an input file name.
pub fn derive_output_filename(input_filename: &str, mode: usize) -> (r: String)
    ensures
        r@ == spec_output_filename(input_filename@, mode as int),
{
    if mode == 0 {
        let mut s = input_filename.to_owned();
        s.append(".enc");
        s
    } else {
        let v = text::chars_of(input_filename);
        let suffix = text::chars_of(".enc");
        if text::ends_with_exec(&v, &suffix) {
            let end = strip_enc_len(&v, &suffix);
            let kept = input_filename.substring_char(0, end);
            proof {
                assert(input_filename@.subrange(0, end as int) =~= input_filename@.take(
                    end as int,
                ));
            }
            kept.to_owned()
        } else {
            let mut s = String::from_str("decrypted_");
            s.append(input_filename);
            s
        }
    }
}

/// The run button is live only with every field filled and nothing
/// running.
pub fn can_process(state: &LocalEncDecState) -> (r: bool)
    ensures
        r == (!state.is_processing && state.input_path@.len() > 0 && state.output_folder@.len() > 0
            && state.output_filename@.len() > 0 && state.password@.len() > 0),
{
    !state.is_processing && !state.input_path.as_str().is_empty()
        && !state.output_folder.as_str().is_empty() && !state.output_filename.as_str().is_empty()
        && !state.password.as_str().is_empty()
}

/// The opening status of one run: what is being processed and where the
/// result will land.
pub fn begin_encdec_status(input_path: &str, output_path: &str) -> (r: ActionStatus)
    ensures
        !r.completed,
        r.buf@ == seq![
            "Processing..."@,
            "Input file: "@ + input_path@,
            "Output file: "@ + output_path@,
        ],
{
    let mut st = ActionStatus::new();
    let mut l2 = String::from_str("Input file: ");
    l2.append(input_path);
    let mut l3 = String::from_str("Output file: ");
    l3.append(output_path);
    st.buf.push_plain(String::from_str("Processing..."));
    st.buf.push_plain(l2);
    st.buf.push_plain(l3);
    proof {
        assert(st.buf@ =~= seq![
            "Processing..."@,
            "Input file: "@ + input_path@,
            "Output file: "@ + output_path@,
        ]);
    }
    st
}

/// Whether some line of a status snapshot contains the given text.
pub fn any_line_contains(lines: &Vec<String>, needle: &str) -> (r: bool)
    ensures
        r == exists|i: int|
            0 <= i < lines.deep_view().len() && text::contains_seq(
                #[trigger] lines.deep_view()[i],
                needle@,
            ),
{
    let nv = text::chars_of(needle);
    let n = lines.len();
    let mut i: usize = 0;
    while i < n
        invariant
            n == lines@.len(),
            nv@ == needle@,
            i <= n,
            forall|j: int|
                0 <= j < i ==> !text::contains_seq(#[trigger] lines.deep_view()[j], needle@),
        decreases n - i,
    {
        let lv = text::chars_of(lines[i].as_str());
        if text::contains_exec(&lv, &nv) {
            proof {
                assert(text::contains_seq(lines.deep_view()[i as int], needle@));
            }
            return true;
        }
        i = i + 1;
    }
    false
}

/// How the polling tick reads a run's status: whether the run has left
/// its closing line or a failure mark, and whether a success mark is
/// present.
pub fn encdec_poll(snapshot: &Vec<String>) -> (r: (bool, bool))
    ensures
        r.0 == ((exists|i: int|
            0 <= i < snapshot.deep_view().len() && text::contains_seq(
                #[trigger] snapshot.deep_view()[i],
                "\u{2705} Process completed successfully!"@,
            )) || (exists|i: int|
            0 <= i < snapshot.deep_view().len() && text::contains_seq(
                #[trigger] snapshot.deep_view()[i],
                "\u{274c}"@,
            ))),
        r.1 == exists|i: int|
            0 <= i < snapshot.deep_view().len() && text::contains_seq(
                #[trigger] snapshot.deep_view()[i],
                "\u{2705}"@,
            ),
{
    let completed = any_line_contains(snapshot, "\u{2705} Process completed successfully!");
    let failed = any_line_contains(snapshot, "\u{274c}");
    let success = any_line_contains(snapshot, "\u{2705}");
    (completed || failed, success)
}

/// Styling of one encrypt/decrypt status line: the success mark wins,
/// then the failure mark.
pub enum EncDecLineStyle {
    Success,
    Failure,
    Plain,
}

pub fn encdec_line_style(line: &str) -> (r: EncDecLineStyle)
    ensures
        r == (if text::contains_seq(line@, "\u{2705}"@) {
            EncDecLineStyle::Success
        } else if text::contains_seq(line@, "\u{274c}"@) {
            EncDecLineStyle::Failure
        } else {
            EncDecLineStyle::Plain
        }),
{
    let lv = text::chars_of(line);
    let ok = text::chars_of("\u{2705}");
    let bad = text::chars_of("\u{274c}");
    if text::contains_exec(&lv, &ok) {
        EncDecLineStyle::Success
    } else if text::contains_exec(&lv, &bad) {
        EncDecLineStyle::Failure
    } else {
        EncDecLineStyle::Plain
    }
}

} // verus!
