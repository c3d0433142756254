//! The wallet panel's state and the parsing of the tool's wallet output.
//!
//! The tool prints one value per line behind a fixed prefix (`Pubkey:`,
//! `SOL:`, `UI:`, `Mint:`); the last occurrence wins and a missing value
//! falls back to a default.  The usage report is the tool's output with
//! housekeeping lines dropped, grouped into titled sections for display.

use vstd::prelude::*;
use vstd::string::*;

use crate::extract::first_match;
use crate::text;

verus! {

/// State of the wallet panel.
pub struct WalletPanelState {
    pub sol_address: String,
    pub sol_balance: String,
    pub pipe_balance: String,
    pub pipe_mint: String,
    pub usage_report: String,
    pub selected_period: String,
    pub is_loading: bool,
    pub first_open: bool,
    pub swap_sol_amount: String,
    pub withdraw_sol_amount: String,
    pub withdraw_sol_pubkey: String,
    pub withdraw_pipe_amount: String,
    pub withdraw_pipe_pubkey: String,
    pub last_action_status: String,
    pub withdraw_mode: WithdrawMode,
}

/// Which transfer the swap-and-withdraw controls drive.
#[derive(PartialEq, Eq, Clone, Copy)]
pub enum WithdrawMode {
    SwapSolForPipe,
    WithdrawSol,
    WithdrawPipe,
}

impl Default for WithdrawMode {
    fn default() -> (r: WithdrawMode)
        ensures
            r == WithdrawMode::SwapSolForPipe,
    {
        WithdrawMode::SwapSolForPipe
    }
}

impl Default for WalletPanelState {
    /// Everything empty and nothing loaded yet.
    fn default() -> (r: WalletPanelState)
        ensures
            r.sol_address@ == Seq::<char>::empty(),
            r.sol_balance@ == Seq::<char>::empty(),
            r.pipe_balance@ == Seq::<char>::empty(),
            r.pipe_mint@ == Seq::<char>::empty(),
            r.usage_report@ == Seq::<char>::empty(),
            r.selected_period@ == Seq::<char>::empty(),
            r.last_action_status@ == Seq::<char>::empty(),
            r.swap_sol_amount@ == Seq::<char>::empty(),
            r.withdraw_sol_amount@ == Seq::<char>::empty(),
            r.withdraw_sol_pubkey@ == Seq::<char>::empty(),
            r.withdraw_pipe_amount@ == Seq::<char>::empty(),
            r.withdraw_pipe_pubkey@ == Seq::<char>::empty(),
            !r.is_loading && !r.first_open,
            r.withdraw_mode == WithdrawMode::SwapSolForPipe,
    {
        WalletPanelState {
            sol_address: String::new(),
            sol_balance: String::new(),
            pipe_balance: String::new(),
            pipe_mint: String::new(),
            usage_report: String::new(),
            selected_period: String::new(),
            is_loading: false,
            first_open: false,
            swap_sol_amount: String::new(),
            withdraw_sol_amount: String::new(),
            withdraw_sol_pubkey: String::new(),
            withdraw_pipe_amount: String::new(),
            withdraw_pipe_pubkey: String::new(),
            last_action_status: String::new(),
            withdraw_mode: WithdrawMode::SwapSolForPipe,
        }
    }
}

/// A character an amount field keeps: an ASCII digit or the decimal
/// point.
pub open spec fn is_numeric_char(c: char) -> bool {
    text::is_digit(c) || c == '.'
}

/// The numeric characters of a text, in order.
pub open spec fn numeric_filtered(s: Seq<char>) -> Seq<char>
    decreases s.len(),
{
    if s.len() == 0 {
        Seq::empty()
    } else {
        numeric_filtered(s.drop_last()) + if is_numeric_char(s.last()) {
            seq![s.last()]
        } else {
            Seq::empty()
        }
    }
}

/// One numeric character as text.
fn numeric_char_str(c: char) -> (r: &'static str)
    requires
        is_numeric_char(c),
    ensures
        r@ == seq![c],
{
    proof {
        reveal_strlit("0");
        reveal_strlit("1");
        reveal_strlit("2");
        reveal_strlit("3");
        reveal_strlit("4");
        reveal_strlit("5");
        reveal_strlit("6");
        reveal_strlit("7");
        reveal_strlit("8");
        reveal_strlit("9");
        reveal_strlit(".");
    }
    if c == '0' {
        "0"
    } else if c == '1' {
        "1"
    } else if c == '2' {
        "2"
    } else if c == '3' {
        "3"
    } else if c == '4' {
        "4"
    } else if c == '5' {
        "5"
    } else if c == '6' {
        "6"
    } else if c == '7' {
        "7"
    } else if c == '8' {
        "8"
    } else if c == '9' {
        "9"
    } else {
        proof {
            assert((c as u32) == 46) by {
                assert(!text::is_digit(c));
            }
            assert(c == '.');
        }
        "."
    }
}

/// Keep only digits and the decimal point in an amount field.
pub fn filter_numeric(input: &mut String)
    ensures
        final(input)@ == numeric_filtered(old(input)@),
{
    let v = text::chars_of(input.as_str());
    let mut out = String::new();
    let n = v.len();
    let mut i: usize = 0;
    proof {
        assert(v@.take(0) =~= Seq::<char>::empty());
    }
    while i < n
        invariant
            n == v@.len(),
            v@ == old(input)@,
            i <= n,
            out@ == numeric_filtered(v@.take(i as int)),
        decreases n - i,
    {
        let c = v[i];
        if text::digit_char(c) || c == '.' {
            out.append(numeric_char_str(c));
        }
        proof {
            assert(v@.take(i + 1).drop_last() =~= v@.take(i as int));
            assert(v@.take(i + 1).last() == v@[i as int]);
            if is_numeric_char(v@[i as int]) {
                assert(out@ =~= numeric_filtered(v@.take(i as int)) + seq![v@[i as int]]);
            } else {
                assert(out@ =~= numeric_filtered(v@.take(i as int)));
            }
        }
        i = i + 1;
    }
    proof {
        assert(v@.take(n as int) =~= v@);
    }
    *input = out;
}

/// The value the output lines carry behind a prefix: the trimmed
/// remainder of the last line starting with `key`, or the default.
pub open spec fn prefixed_value_of(
    lines: Seq<Seq<char>>,
    key: Seq<char>,
    dflt: Seq<char>,
) -> Seq<char>
    decreases lines.len(),
{
    if lines.len() == 0 {
        dflt
    } else if text::starts_with(lines.last(), key) {
        text::trimmed(lines.last().skip(key.len() as int))
    } else {
        prefixed_value_of(lines.drop_last(), key, dflt)
    }
}

/// Scan output lines for the last `key`-prefixed value.
pub fn prefixed_value(lines: &Vec<String>, key: &str, dflt: &str) -> (r: String)
    ensures
        r@ == prefixed_value_of(lines.deep_view(), key@, dflt@),
{
    let ghost all = lines.deep_view();
    let kv = text::chars_of(key);
    let mut r = dflt.to_owned();
    let n = lines.len();
    let mut i: usize = 0;
    proof {
        assert(all.take(0) =~= Seq::<Seq<char>>::empty());
    }
    while i < n
        invariant
            n == lines@.len(),
            all == lines.deep_view(),
            kv@ == key@,
            i <= n,
            r@ == prefixed_value_of(all.take(i as int), key@, dflt@),
        decreases n - i,
    {
        let line = &lines[i];
        let lv = text::chars_of(line.as_str());
        if text::starts_with_exec(&lv, &kv) {
            let rest_lo = kv.len();
            let rest: Vec<char> = sub_chars(&lv, rest_lo, lv.len());
            let (a, b) = text::trim_bounds(&rest);
            let piece = line.as_str().substring_char(rest_lo + a, rest_lo + b);
            r = piece.to_owned();
            proof {
                assert(rest@ =~= all[i as int].skip(key@.len() as int));
                assert(line@.subrange(rest_lo + a, rest_lo + b) =~= rest@.subrange(
                    a as int,
                    b as int,
                ));
            }
        }
        proof {
            assert(all.take(i + 1).drop_last() =~= all.take(i as int));
            assert(all.take(i + 1).last() == all[i as int]);
        }
        i = i + 1;
    }
    proof {
        assert(all.take(n as int) =~= all);
    }
    r
}

/// Copy of `v[from..to]`.
fn sub_chars(v: &Vec<char>, from: usize, to: usize) -> (r: Vec<char>)
    requires
        from <= to <= v@.len(),
    ensures
        r@ == v@.subrange(from as int, to as int),
{
    let mut r: Vec<char> = Vec::new();
    let mut i = from;
    proof {
        assert(r@ =~= v@.subrange(from as int, from as int));
    }
    while i < to
        invariant
            from <= i <= to <= v@.len(),
            r@ == v@.subrange(from as int, i as int),
        decreases to - i,
    {
        r.push(v[i]);
        proof {
            assert(r@ =~= v@.subrange(from as int, i + 1));
        }
        i = i + 1;
    }
    r
}

/// The wallet identity and balance in a `check-sol` output: the values
/// behind `Pubkey:` and `SOL:`, defaulting to a dash.
pub fn parse_sol_output(output: &str) -> (r: (String, String))
    ensures
        r.0@ == prefixed_value_of(
            crate::records::spec_lines(output@),
            "Pubkey:"@,
            "-"@,
        ),
        r.1@ == prefixed_value_of(crate::records::spec_lines(output@), "SOL:"@, "-"@),
{
    let lines = crate::records::split_text_lines(output);
    let address = prefixed_value(&lines, "Pubkey:", "-");
    let sol = prefixed_value(&lines, "SOL:", "-");
    (address, sol)
}

/// The token balance and mint in a `check-token` output: the values
/// behind `UI:` and `Mint:`, the mint defaulting to the well-known one.
pub fn parse_token_output(output: &str) -> (r: (String, String))
    ensures
        r.0@ == prefixed_value_of(crate::records::spec_lines(output@), "UI:"@, "-"@),
        r.1@ == prefixed_value_of(
            crate::records::spec_lines(output@),
            "Mint:"@,
            crate::launcher::spec_pipe_mint(),
        ),
{
    let lines = crate::records::split_text_lines(output);
    let balance = prefixed_value(&lines, "UI:", "-");
    let mint = prefixed_value(&lines, "Mint:", crate::launcher::pipe_mint());
    (balance, mint)
}

/// A usage-report line worth keeping: non-blank and not one of the
/// tool's housekeeping notices.
pub open spec fn usage_keep(l: Seq<char>) -> bool {
    text::trimmed(l).len() > 0 && !text::contains_seq(l, "Token expired"@) && !text::contains_seq(
        l,
        "Credentials saved"@,
    ) && !text::contains_seq(l, "Token refreshed"@) && !text::contains_seq(
        l,
        "Token Usage Report"@,
    )
}

/// The kept usage lines, in order.
pub open spec fn kept_usage_lines(ls: Seq<Seq<char>>) -> Seq<Seq<char>>
    decreases ls.len(),
{
    if ls.len() == 0 {
        Seq::empty()
    } else {
        kept_usage_lines(ls.drop_last()) + if usage_keep(ls.last()) {
            seq![ls.last()]
        } else {
            Seq::empty()
        }
    }
}

/// Lines joined with a line feed between them.
pub open spec fn joined_lines(ls: Seq<Seq<char>>) -> Seq<char>
    decreases ls.len(),
{
    if ls.len() == 0 {
        Seq::empty()
    } else if ls.len() == 1 {
        ls[0]
    } else {
        joined_lines(ls.drop_last()) + "\n"@ + ls.last()
    }
}

/// The usage report as shown: the kept lines of the tool's output,
/// joined.
pub fn filter_usage_report(output: &str) -> (r: String)
    ensures
        r@ == joined_lines(kept_usage_lines(crate::records::spec_lines(output@))),
{
    let lines = crate::records::split_text_lines(output);
    let ghost all = lines.deep_view();
    let mut kept: Vec<String> = Vec::new();
    let n = lines.len();
    let mut i: usize = 0;
    proof {
        assert(all.take(0) =~= Seq::<Seq<char>>::empty());
        assert(kept.deep_view() =~= kept_usage_lines(all.take(0)));
    }
    while i < n
        invariant
            n == lines@.len(),
            all == lines.deep_view(),
            i <= n,
            kept.deep_view() == kept_usage_lines(all.take(i as int)),
        decreases n - i,
    {
        let ghost pre = kept.deep_view();
        let line = &lines[i];
        let lv = text::chars_of(line.as_str());
        let (lo, hi) = text::trim_bounds(&lv);
        let p1 = text::chars_of("Token expired");
        let p2 = text::chars_of("Credentials saved");
        let p3 = text::chars_of("Token refreshed");
        let p4 = text::chars_of("Token Usage Report");
        if lo < hi && !text::contains_exec(&lv, &p1) && !text::contains_exec(&lv, &p2)
            && !text::contains_exec(&lv, &p3) && !text::contains_exec(&lv, &p4) {
            kept.push(line.clone());
            proof {
                assert(kept.deep_view() =~~= pre.push(line@));
            }
        }
        proof {
            assert(text::trimmed(all[i as int]).len() == hi - lo);
            assert(all.take(i + 1).drop_last() =~= all.take(i as int));
            assert(all.take(i + 1).last() == all[i as int]);
            assert(kept.deep_view() =~= kept_usage_lines(all.take(i + 1)));
        }
        i = i + 1;
    }
    proof {
        assert(all.take(n as int) =~= all);
    }
    let ghost ks = kept.deep_view();
    let mut out = String::new();
    let m = kept.len();
    let mut j: usize = 0;
    proof {
        assert(ks.take(0) =~= Seq::<Seq<char>>::empty());
    }
    while j < m
        invariant
            m == kept@.len(),
            ks == kept.deep_view(),
            j <= m,
            out@ == joined_lines(ks.take(j as int)),
        decreases m - j,
    {
        if j > 0 {
            out.append("\n");
        }
        out.append(kept[j].as_str());
        proof {
            assert(ks.take(j + 1).drop_last() =~= ks.take(j as int));
            assert(ks.take(j + 1).last() == ks[j as int]);
            if j == 0 {
                assert(out@ =~= ks[0]);
            }
        }
        j = j + 1;
    }
    proof {
        assert(ks.take(m as int) =~= ks);
    }
    out
}

/// Section of the usage report a line belongs to.
#[derive(Clone, Copy)]
pub enum UsageSectionKind {
    /// Lines before the first heading.
    Untitled,
    Storage,
    Bandwidth,
    Total,
}

/// One displayed card of the usage report.
pub struct UsageSection {
    pub kind: UsageSectionKind,
    pub lines: Vec<String>,
}

/// The abstract value of a section.
pub struct UsageSectionAbs {
    pub kind: UsageSectionKind,
    pub lines: Seq<Seq<char>>,
}

impl UsageSection {
    pub open spec fn abs(self) -> UsageSectionAbs {
        UsageSectionAbs { kind: self.kind, lines: self.lines.deep_view() }
    }
}

pub open spec fn sections_abs(v: Seq<UsageSection>) -> Seq<UsageSectionAbs> {
    v.map_values(|s: UsageSection| s.abs())
}

/// The heading a line carries, if any; storage wins over bandwidth,
/// bandwidth over the total.
pub open spec fn spec_heading_of(l: Seq<char>) -> Option<UsageSectionKind> {
    if text::contains_seq(l, "Storage (Uploads):"@) {
        Some(UsageSectionKind::Storage)
    } else if text::contains_seq(l, "Bandwidth (Downloads):"@) {
        Some(UsageSectionKind::Bandwidth)
    } else if text::contains_seq(l, "Total:"@) {
        Some(UsageSectionKind::Total)
    } else {
        None
    }
}

/// Grouping state while the report is read: the open section and the
/// cards already closed.
pub struct SectionState {
    pub kind: UsageSectionKind,
    pub cur: Seq<Seq<char>>,
    pub out: Seq<UsageSectionAbs>,
}

impl SectionState {
    pub open spec fn init() -> SectionState {
        SectionState { kind: UsageSectionKind::Untitled, cur: Seq::empty(), out: Seq::empty() }
    }
}

/// One report line applied to the grouping state: a heading closes a
/// non-empty open section and opens its own; a non-blank line joins the
/// open section; a blank line is dropped.
pub open spec fn section_step(st: SectionState, l: Seq<char>) -> SectionState {
    match spec_heading_of(l) {
        Some(k) => {
            let out = if st.cur.len() > 0 {
                st.out.push(UsageSectionAbs { kind: st.kind, lines: st.cur })
            } else {
                st.out
            };
            SectionState { kind: k, cur: Seq::empty(), out }
        },
        None => {
            if text::trimmed(l).len() > 0 {
                SectionState { kind: st.kind, cur: st.cur.push(l), out: st.out }
            } else {
                st
            }
        },
    }
}

pub open spec fn section_run(st: SectionState, ls: Seq<Seq<char>>) -> SectionState
    decreases ls.len(),
{
    if ls.len() == 0 {
        st
    } else {
        section_run(section_step(st, ls[0]), ls.drop_first())
    }
}

/// The cards of a usage report: the grouping fold, with a last
/// non-empty open section closed at the end.
pub open spec fn spec_usage_sections(ls: Seq<Seq<char>>) -> Seq<UsageSectionAbs> {
    let st = section_run(SectionState::init(), ls);
    if st.cur.len() > 0 {
        st.out.push(UsageSectionAbs { kind: st.kind, lines: st.cur })
    } else {
        st.out
    }
}

/// Unrolling `section_run` one line from the end.
proof fn lemma_section_run_step(st: SectionState, ls: Seq<Seq<char>>)
    requires
        ls.len() > 0,
    ensures
        section_run(st, ls) == section_step(section_run(st, ls.drop_last()), ls.last()),
    decreases ls.len(),
{
    reveal_with_fuel(section_run, 2);
    if ls.len() == 1 {
        assert(ls.drop_last() =~= Seq::<Seq<char>>::empty());
        assert(ls.drop_first() =~= Seq::<Seq<char>>::empty());
    } else {
        lemma_section_run_step(section_step(st, ls[0]), ls.drop_first());
        assert(ls.drop_first().drop_last() =~= ls.drop_last().drop_first());
        assert(ls.drop_first().last() == ls.last());
        assert(ls.drop_last()[0] == ls[0]);
        assert(section_run(st, ls.drop_last()) == section_run(
            section_step(st, ls[0]),
            ls.drop_last().drop_first(),
        ));
        assert(section_run(st, ls) == section_run(section_step(st, ls[0]), ls.drop_first()));
    }
}

fn heading_of(line: &str, lv: &Vec<char>) -> (r: Option<UsageSectionKind>)
    requires
        lv@ == line@,
    ensures
        r == spec_heading_of(line@),
{
    let storage = text::chars_of("Storage (Uploads):");
    let bandwidth = text::chars_of("Bandwidth (Downloads):");
    let total = text::chars_of("Total:");
    if text::contains_exec(lv, &storage) {
        Some(UsageSectionKind::Storage)
    } else if text::contains_exec(lv, &bandwidth) {
        Some(UsageSectionKind::Bandwidth)
    } else if text::contains_exec(lv, &total) {
        Some(UsageSectionKind::Total)
    } else {
        None
    }
}

/// Group a usage report's text into its displayed cards.
pub fn usage_sections(report: &str) -> (r: Vec<UsageSection>)
    ensures
        sections_abs(r@) == spec_usage_sections(crate::records::spec_lines(report@)),
{
    let lines = crate::records::split_text_lines(report);
    let ghost all = lines.deep_view();
    let mut kind = UsageSectionKind::Untitled;
    let mut cur: Vec<String> = Vec::new();
    let mut out: Vec<UsageSection> = Vec::new();
    let n = lines.len();
    let mut i: usize = 0;
    proof {
        assert(all.take(0) =~= Seq::<Seq<char>>::empty());
        assert(cur.deep_view() =~= Seq::<Seq<char>>::empty());
        assert(sections_abs(out@) =~= Seq::<UsageSectionAbs>::empty());
        assert(section_run(SectionState::init(), all.take(0)) == (SectionState {
            kind,
            cur: cur.deep_view(),
            out: sections_abs(out@),
        }));
    }
    while i < n
        invariant
            n == lines@.len(),
            all == lines.deep_view(),
            i <= n,
            section_run(SectionState::init(), all.take(i as int)) == (SectionState {
                kind,
                cur: cur.deep_view(),
                out: sections_abs(out@),
            }),
        decreases n - i,
    {
        let ghost pre = SectionState { kind, cur: cur.deep_view(), out: sections_abs(out@) };
        let line = &lines[i];
        let lv = text::chars_of(line.as_str());
        match heading_of(line.as_str(), &lv) {
            Some(k) => {
                if cur.len() > 0 {
                    let ghost out_pre = sections_abs(out@);
                    let flushed = cur;
                    cur = Vec::new();
                    out.push(UsageSection { kind, lines: flushed });
                    proof {
                        assert(sections_abs(out@) =~~= out_pre.push(
                            UsageSectionAbs { kind: pre.kind, lines: pre.cur },
                        ));
                    }
                }
                kind = k;
                proof {
                    assert(cur.deep_view() =~= Seq::<Seq<char>>::empty());
                }
            },
            None => {
                let (lo, hi) = text::trim_bounds(&lv);
                if lo < hi {
                    let ghost cur_pre = cur.deep_view();
                    cur.push(line.clone());
                    proof {
                        assert(cur.deep_view() =~~= cur_pre.push(line@));
                    }
                }
                proof {
                    assert(text::trimmed(all[i as int]).len() == hi - lo);
                }
            },
        }
        proof {
            assert(all.take(i + 1).drop_last() =~= all.take(i as int));
            assert(all.take(i + 1).last() == all[i as int]);
            lemma_section_run_step(SectionState::init(), all.take(i + 1));
            assert(section_run(SectionState::init(), all.take(i + 1)) =~~= (SectionState {
                kind,
                cur: cur.deep_view(),
                out: sections_abs(out@),
            }));
        }
        i = i + 1;
    }
    proof {
        assert(all.take(n as int) =~= all);
    }
    if cur.len() > 0 {
        let ghost out_pre = sections_abs(out@);
        let ghost cur_pre = cur.deep_view();
        let ghost k = kind;
        out.push(UsageSection { kind, lines: cur });
        proof {
            assert(sections_abs(out@) =~~= out_pre.push(
                UsageSectionAbs { kind: k, lines: cur_pre },
            ));
        }
    }
    out
}

/// Styling class of one usage-report line.
pub enum UsageLineStyle {
    /// Names the token; `before` is the text up to its first mention.
    Token { before: String },
    /// Names a data amount; `before` is the text up to the first `GB`.
    Data { before: String },
    /// A burn notice.
    Burned,
    /// A treasury notice.
    Treasury,
    /// Anything else.
    Plain,
}

impl UsageLineStyle {
    /// What the class says of the line it was made from.
    pub open spec fn wf(&self, l: Seq<char>) -> bool {
        match self {
            UsageLineStyle::Token { before } => match first_match(l, "PIPE"@, 0) {
                Some(i) => before@ == l.take(i),
                None => false,
            },
            UsageLineStyle::Data { before } => !text::contains_seq(l, "PIPE"@) && match first_match(
                l,
                "GB"@,
                0,
            ) {
                Some(i) => before@ == l.take(i),
                None => false,
            },
            UsageLineStyle::Burned => !text::contains_seq(l, "PIPE"@) && !text::contains_seq(
                l,
                "GB"@,
            ) && text::contains_seq(l, "Burned:"@),
            UsageLineStyle::Treasury => !text::contains_seq(l, "PIPE"@) && !text::contains_seq(
                l,
                "GB"@,
            ) && !text::contains_seq(l, "Burned:"@) && text::contains_seq(l, "Treasury:"@),
            UsageLineStyle::Plain => !text::contains_seq(l, "PIPE"@) && !text::contains_seq(
                l,
                "GB"@,
            ) && !text::contains_seq(l, "Burned:"@) && !text::contains_seq(l, "Treasury:"@),
        }
    }
}

/// Classify one usage-report line for display: a token mention wins,
/// then a data amount, then burn and treasury notices.
pub fn classify_usage_line(line: &str) -> (r: UsageLineStyle)
    ensures
        r.wf(line@),
{
    let lv = text::chars_of(line);
    let pipe = text::chars_of("PIPE");
    let gb = text::chars_of("GB");
    let burned = text::chars_of("Burned:");
    let treasury = text::chars_of("Treasury:");
    match text::find_from(&lv, &pipe, 0) {
        Some(i) => {
            let before = line.substring_char(0, i);
            proof {
                crate::extract::lemma_first_match_found(lv@, "PIPE"@, 0, i as int);
                assert(line@.subrange(0, i as int) =~= line@.take(i as int));
            }
            return UsageLineStyle::Token { before: before.to_owned() };
        },
        None => {
            proof {
                crate::extract::lemma_first_match_none(lv@, "PIPE"@, 0);
            }
        },
    }
    match text::find_from(&lv, &gb, 0) {
        Some(i) => {
            let before = line.substring_char(0, i);
            proof {
                crate::extract::lemma_first_match_found(lv@, "GB"@, 0, i as int);
                assert(line@.subrange(0, i as int) =~= line@.take(i as int));
            }
            return UsageLineStyle::Data { before: before.to_owned() };
        },
        None => {
            proof {
                crate::extract::lemma_first_match_none(lv@, "GB"@, 0);
            }
        },
    }
    if text::contains_exec(&lv, &burned) {
        return UsageLineStyle::Burned;
    }
    if text::contains_exec(&lv, &treasury) {
        return UsageLineStyle::Treasury;
    }
    UsageLineStyle::Plain
}

} // verus!
