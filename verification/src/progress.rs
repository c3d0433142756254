//! Recognition of transient progress lines.
//!
//! A complete output line encodes progress in one of three forms, tried in
//! this order after stripping a recognised marker prefix from the trimmed
//! line:
//!
//!  1. a byte-count ratio `<n><unit> / <n><unit> (<p>%, <t>s)` with unit
//!     one of `B`, `KiB`, `MiB`, `GiB`;
//!  2. a bare percentage of at most three digits, `<n>%`;
//!  3. a line whose trimmed text starts with `PROGRESS:`, whose remainder
//!     is used verbatim.
//!
//! The grammar is given as deterministic spec functions over `Seq<char>`
//! (leftmost match, greedy digit runs, with the one digit-splitting case a
//! backtracking matcher would accept inside the parentheses); the scanner
//! is proved to return exactly what the grammar denotes.

use vstd::prelude::*;
use vstd::string::*;

use crate::status::StatusEvent;
use crate::text;

verus! {

/// First index at or past `i` that is not an ASCII digit.
pub open spec fn skip_digits(s: Seq<char>, i: int) -> int
    decreases s.len() - i,
    when 0 <= i <= s.len()
{
    if 0 <= i < s.len() && text::is_digit(s[i]) {
        skip_digits(s, i + 1)
    } else {
        i
    }
}

/// First index at or past `i` that is not ASCII whitespace.
pub open spec fn skip_spaces(s: Seq<char>, i: int) -> int
    decreases s.len() - i,
    when 0 <= i <= s.len()
{
    if 0 <= i < s.len() && text::is_space(s[i]) {
        skip_spaces(s, i + 1)
    } else {
        i
    }
}

/// End of a number `digits ( '.' digits )?` starting at `i`, if one starts
/// there.
pub open spec fn num_end(s: Seq<char>, i: int) -> Option<int> {
    let j = skip_digits(s, i);
    if j == i {
        None
    } else if j < s.len() && s[j] == '.' && j + 1 < s.len() && text::is_digit(s[j + 1]) {
        Some(skip_digits(s, j + 1))
    } else {
        Some(j)
    }
}

/// End of a size unit (`KiB`, `MiB`, `GiB` or bare `B`) starting at `i`.
pub open spec fn unit_end(s: Seq<char>, i: int) -> Option<int> {
    if text::match_at(s, "KiB"@, i) || text::match_at(s, "MiB"@, i) || text::match_at(
        s,
        "GiB"@,
        i,
    ) {
        Some(i + 3)
    } else if 0 <= i < s.len() && s[i] == 'B' {
        Some(i + 1)
    } else {
        None
    }
}

/// End of the parenthesised tail `digits '%'? ','? spaces digits 's'? ')'`
/// with `p` just past the opening parenthesis.  When no separator at all
/// follows the first digit run, a run of two or more digits may donate its
/// last digit to the second number, as a backtracking matcher would.
pub open spec fn paren_end(s: Seq<char>, p: int) -> Option<int> {
    let d1 = skip_digits(s, p);
    if !(0 <= p) || d1 == p {
        None
    } else {
        let q1 = if d1 < s.len() && s[d1] == '%' {
            d1 + 1
        } else {
            d1
        };
        let q2 = if q1 < s.len() && s[q1] == ',' {
            q1 + 1
        } else {
            q1
        };
        let q3 = skip_spaces(s, q2);
        let d2 = skip_digits(s, q3);
        if d2 > q3 || (q3 == d1 && d1 - p >= 2) {
            let e = if d2 > q3 {
                d2
            } else {
                d1
            };
            let e1 = if e < s.len() && s[e] == 's' {
                e + 1
            } else {
                e
            };
            if e1 < s.len() && s[e1] == ')' {
                Some(e1 + 1)
            } else {
                None
            }
        } else {
            None
        }
    }
}

/// End of a full ratio pattern starting at `i`, if one starts there.
pub open spec fn ratio_end(s: Seq<char>, i: int) -> Option<int> {
    match num_end(s, i) {
        None => None,
        Some(j1) => match unit_end(s, skip_spaces(s, j1)) {
            None => None,
            Some(j3) => {
                let j4 = skip_spaces(s, j3);
                if !(j4 < s.len() && s[j4] == '/') {
                    None
                } else {
                    match num_end(s, skip_spaces(s, j4 + 1)) {
                        None => None,
                        Some(j6) => match unit_end(s, skip_spaces(s, j6)) {
                            None => None,
                            Some(j8) => {
                                let j9 = skip_spaces(s, j8);
                                if j9 < s.len() && s[j9] == '(' {
                                    paren_end(s, j9 + 1)
                                } else {
                                    None
                                }
                            },
                        },
                    }
                }
            },
        },
    }
}

/// End of a bare percentage (one to three digits then `%`) starting at `i`.
pub open spec fn percent_end(s: Seq<char>, i: int) -> Option<int> {
    let r = skip_digits(s, i);
    if !(0 <= i) || r == i {
        None
    } else if r - i <= 3 && r < s.len() && s[r] == '%' {
        Some(r + 1)
    } else {
        None
    }
}

/// Leftmost ratio match at or past `i`: its start and end.
pub open spec fn ratio_search(s: Seq<char>, i: int) -> Option<(int, int)>
    decreases s.len() - i,
    when 0 <= i <= s.len()
{
    if i >= s.len() {
        None
    } else {
        match ratio_end(s, i) {
            Some(e) => Some((i, e)),
            None => ratio_search(s, i + 1),
        }
    }
}

/// Leftmost percentage match at or past `i`: its start and end.
pub open spec fn percent_search(s: Seq<char>, i: int) -> Option<(int, int)>
    decreases s.len() - i,
    when 0 <= i <= s.len()
{
    if i >= s.len() {
        None
    } else {
        match percent_end(s, i) {
            Some(e) => Some((i, e)),
            None => percent_search(s, i + 1),
        }
    }
}

/// The trimmed line with one leading recognised marker removed.
pub open spec fn strip_progress_prefix(t: Seq<char>) -> Seq<char> {
    if text::starts_with(t, "PROGRESS:"@) {
        t.subrange("PROGRESS:"@.len() as int, t.len() as int)
    } else if text::starts_with(t, "[PROGRESS]"@) {
        t.subrange("[PROGRESS]"@.len() as int, t.len() as int)
    } else {
        t
    }
}

/// What the progress scanner denotes on a whole line: the leftmost ratio
/// match if any, else the leftmost percentage match, out of the trimmed
/// line with a recognised marker prefix stripped.
pub open spec fn spec_extract_progress(line: Seq<char>) -> Option<Seq<char>> {
    let t = strip_progress_prefix(text::trimmed(line));
    match ratio_search(t, 0) {
        Some(m) => Some(t.subrange(m.0, m.1)),
        None => match percent_search(t, 0) {
            Some(m) => Some(t.subrange(m.0, m.1)),
            None => None,
        },
    }
}

/// `s` with every leading copy of `p` removed.
pub open spec fn strip_all_prefix(s: Seq<char>, p: Seq<char>) -> Seq<char>
    decreases s.len(),
{
    if p.len() > 0 && text::starts_with(s, p) {
        strip_all_prefix(s.subrange(p.len() as int, s.len() as int), p)
    } else {
        s
    }
}

/// How one complete line acts on the status buffer.
pub open spec fn spec_classify(line: Seq<char>) -> StatusEvent {
    match spec_extract_progress(line) {
        Some(v) => StatusEvent::Progress { value: v },
        None => {
            let t = text::trimmed(line);
            if text::starts_with(t, "PROGRESS:"@) {
                StatusEvent::Progress { value: text::trimmed(strip_all_prefix(t, "PROGRESS:"@)) }
            } else {
                StatusEvent::Plain { line: line }
            }
        },
    }
}

/// The text a byte line decodes to, invalid sequences replaced.
pub uninterp spec fn decoded(bytes: Seq<u8>) -> Seq<char>;

/// Relies on String::from_utf8_lossy: invalid sequences become the
/// replacement character, ASCII bytes stand for themselves, and the
/// result depends on the bytes alone.
#[verifier::external_body]
fn lossy_decode(bytes: &Vec<u8>) -> (r: String)
    ensures
        r@ == decoded(bytes@),
        (forall|i: int| 0 <= i < bytes@.len() ==> bytes@[i] < 128) ==> r@ == bytes@.map_values(
            |b: u8| b as char,
        ),
{
    String::from_utf8_lossy(bytes).into_owned()
}

/// A classified line, ready to be applied to a status buffer.
pub enum LineClass {
    Progress { value: String },
    Plain { line: String },
}

impl LineClass {
    /// The abstract status event this classification stands for.
    pub open spec fn abs(&self) -> StatusEvent {
        match self {
            LineClass::Progress { value } => StatusEvent::Progress { value: value@ },
            LineClass::Plain { line } => StatusEvent::Plain { line: line@ },
        }
    }
}

fn skip_digits_exec(v: &Vec<char>, i: usize) -> (r: usize)
    requires
        i <= v@.len(),
    ensures
        r == skip_digits(v@, i as int),
        i <= r <= v@.len(),
{
    let n = v.len();
    let mut j = i;
    while j < n && digit_at(v, j)
        invariant
            n == v@.len(),
            i <= j <= n,
            skip_digits(v@, i as int) == skip_digits(v@, j as int),
        decreases n - j,
    {
        j = j + 1;
    }
    j
}

fn digit_at(v: &Vec<char>, j: usize) -> (r: bool)
    requires
        j < v@.len(),
    ensures
        r == text::is_digit(v@[j as int]),
{
    text::digit_char(v[j])
}

fn space_at(v: &Vec<char>, j: usize) -> (r: bool)
    requires
        j < v@.len(),
    ensures
        r == text::is_space(v@[j as int]),
{
    text::space_char(v[j])
}

fn skip_spaces_exec(v: &Vec<char>, i: usize) -> (r: usize)
    requires
        i <= v@.len(),
    ensures
        r == skip_spaces(v@, i as int),
        i <= r <= v@.len(),
{
    let n = v.len();
    let mut j = i;
    while j < n && space_at(v, j)
        invariant
            n == v@.len(),
            i <= j <= n,
            skip_spaces(v@, i as int) == skip_spaces(v@, j as int),
        decreases n - j,
    {
        j = j + 1;
    }
    j
}

fn num_end_exec(v: &Vec<char>, i: usize) -> (r: Option<usize>)
    requires
        i <= v@.len(),
    ensures
        match r {
            Some(e) => num_end(v@, i as int) == Some(e as int) && i < e <= v@.len(),
            None => num_end(v@, i as int) is None,
        },
{
    let n = v.len();
    let j = skip_digits_exec(v, i);
    if j == i {
        None
    } else if j < n && v[j] == '.' && j + 1 < n && digit_at(v, j + 1) {
        Some(skip_digits_exec(v, j + 1))
    } else {
        Some(j)
    }
}

fn unit_end_exec(v: &Vec<char>, i: usize) -> (r: Option<usize>)
    requires
        i <= v@.len(),
    ensures
        match r {
            Some(e) => unit_end(v@, i as int) == Some(e as int) && i < e <= v@.len(),
            None => unit_end(v@, i as int) is None,
        },
{
    proof {
        reveal_strlit("KiB");
        reveal_strlit("MiB");
        reveal_strlit("GiB");
    }
    let n = v.len();
    let kib = text::chars_of("KiB");
    let mib = text::chars_of("MiB");
    let gib = text::chars_of("GiB");
    if text::match_at_exec(v, &kib, i) || text::match_at_exec(v, &mib, i) || text::match_at_exec(
        v,
        &gib,
        i,
    ) {
        proof {
            assert(i + 3 <= n);
        }
        Some(i + 3)
    } else if i < v.len() && v[i] == 'B' {
        Some(i + 1)
    } else {
        None
    }
}

fn paren_end_exec(v: &Vec<char>, p: usize) -> (r: Option<usize>)
    requires
        p <= v@.len(),
    ensures
        match r {
            Some(e) => paren_end(v@, p as int) == Some(e as int) && p < e <= v@.len(),
            None => paren_end(v@, p as int) is None,
        },
{
    let n = v.len();
    let d1 = skip_digits_exec(v, p);
    if d1 == p {
        return None;
    }
    let q1 = if d1 < n && v[d1] == '%' {
        d1 + 1
    } else {
        d1
    };
    let q2 = if q1 < n && v[q1] == ',' {
        q1 + 1
    } else {
        q1
    };
    let q3 = skip_spaces_exec(v, q2);
    let d2 = skip_digits_exec(v, q3);
    if d2 > q3 || (q3 == d1 && d1 - p >= 2) {
        let e = if d2 > q3 {
            d2
        } else {
            d1
        };
        let e1 = if e < n && v[e] == 's' {
            e + 1
        } else {
            e
        };
        if e1 < n && v[e1] == ')' {
            Some(e1 + 1)
        } else {
            None
        }
    } else {
        None
    }
}

fn ratio_end_exec(v: &Vec<char>, i: usize) -> (r: Option<usize>)
    requires
        i <= v@.len(),
    ensures
        match r {
            Some(e) => ratio_end(v@, i as int) == Some(e as int) && i < e <= v@.len(),
            None => ratio_end(v@, i as int) is None,
        },
{
    let n = v.len();
    let j1 = match num_end_exec(v, i) {
        None => {
            return None;
        },
        Some(j) => j,
    };
    let j2 = skip_spaces_exec(v, j1);
    let j3 = match unit_end_exec(v, j2) {
        None => {
            return None;
        },
        Some(j) => j,
    };
    let j4 = skip_spaces_exec(v, j3);
    if !(j4 < n && v[j4] == '/') {
        return None;
    }
    let j5 = skip_spaces_exec(v, j4 + 1);
    let j6 = match num_end_exec(v, j5) {
        None => {
            return None;
        },
        Some(j) => j,
    };
    let j7 = skip_spaces_exec(v, j6);
    let j8 = match unit_end_exec(v, j7) {
        None => {
            return None;
        },
        Some(j) => j,
    };
    let j9 = skip_spaces_exec(v, j8);
    if j9 < n && v[j9] == '(' {
        paren_end_exec(v, j9 + 1)
    } else {
        None
    }
}

fn percent_end_exec(v: &Vec<char>, i: usize) -> (r: Option<usize>)
    requires
        i <= v@.len(),
    ensures
        match r {
            Some(e) => percent_end(v@, i as int) == Some(e as int) && i < e <= v@.len(),
            None => percent_end(v@, i as int) is None,
        },
{
    let n = v.len();
    let r = skip_digits_exec(v, i);
    if r == i {
        None
    } else if r - i <= 3 && r < n && v[r] == '%' {
        Some(r + 1)
    } else {
        None
    }
}

/// Skipping positions with no match does not change the leftmost match.
proof fn lemma_ratio_search_advance(s: Seq<char>, j: int, i: int)
    requires
        0 <= j <= i <= s.len(),
        forall|k: int| j <= k < i ==> ratio_end(s, k) is None,
    ensures
        ratio_search(s, j) == ratio_search(s, i),
    decreases i - j,
{
    if j < i {
        lemma_ratio_search_advance(s, j + 1, i);
    }
}

proof fn lemma_percent_search_advance(s: Seq<char>, j: int, i: int)
    requires
        0 <= j <= i <= s.len(),
        forall|k: int| j <= k < i ==> percent_end(s, k) is None,
    ensures
        percent_search(s, j) == percent_search(s, i),
    decreases i - j,
{
    if j < i {
        lemma_percent_search_advance(s, j + 1, i);
    }
}

fn ratio_search_exec(v: &Vec<char>) -> (r: Option<(usize, usize)>)
    ensures
        match r {
            Some(m) => ratio_search(v@, 0) == Some((m.0 as int, m.1 as int)) && m.0 < m.1
                <= v@.len(),
            None => ratio_search(v@, 0) is None,
        },
{
    let n = v.len();
    let mut i: usize = 0;
    while i < n
        invariant
            n == v@.len(),
            i <= n,
            forall|k: int| 0 <= k < i ==> ratio_end(v@, k) is None,
        decreases n - i,
    {
        match ratio_end_exec(v, i) {
            Some(e) => {
                proof {
                    lemma_ratio_search_advance(v@, 0, i as int);
                }
                return Some((i, e));
            },
            None => {
            },
        }
        i = i + 1;
    }
    proof {
        lemma_ratio_search_advance(v@, 0, n as int);
    }
    None
}

fn percent_search_exec(v: &Vec<char>) -> (r: Option<(usize, usize)>)
    ensures
        match r {
            Some(m) => percent_search(v@, 0) == Some((m.0 as int, m.1 as int)) && m.0 < m.1
                <= v@.len(),
            None => percent_search(v@, 0) is None,
        },
{
    let n = v.len();
    let mut i: usize = 0;
    while i < n
        invariant
            n == v@.len(),
            i <= n,
            forall|k: int| 0 <= k < i ==> percent_end(v@, k) is None,
        decreases n - i,
    {
        match percent_end_exec(v, i) {
            Some(e) => {
                proof {
                    lemma_percent_search_advance(v@, 0, i as int);
                }
                return Some((i, e));
            },
            None => {
            },
        }
        i = i + 1;
    }
    proof {
        lemma_percent_search_advance(v@, 0, n as int);
    }
    None
}

/// Copy of `v[from..to]`.
fn sub_vec(v: &Vec<char>, from: usize, to: usize) -> (r: Vec<char>)
    requires
        from <= to <= v@.len(),
    ensures
        r@ == v@.subrange(from as int, to as int),
{
    let mut r: Vec<char> = Vec::new();
    let mut i = from;
    proof {
        assert(r@ =~= v@.subrange(from as int, from as int));
    }
    while i < to
        invariant
            from <= i <= to <= v@.len(),
            r@ == v@.subrange(from as int, i as int),
        decreases to - i,
    {
        r.push(v[i]);
        proof {
            assert(r@ =~= v@.subrange(from as int, i + 1));
        }
        i = i + 1;
    }
    r
}

/// The progress figure a line carries, if it carries one in form 1 or 2.
pub fn extract_progress_info(line: &str) -> (r: Option<String>)
    ensures
        r.deep_view() == spec_extract_progress(line@),
{
    let lv = text::chars_of(line);
    let (lo, hi) = text::trim_bounds(&lv);
    let pref_colon = text::chars_of("PROGRESS:");
    let pref_mark = text::chars_of("[PROGRESS]");
    let t0 = sub_vec(&lv, lo, hi);
    let off: usize = if text::starts_with_exec(&t0, &pref_colon) {
        pref_colon.len()
    } else if text::starts_with_exec(&t0, &pref_mark) {
        pref_mark.len()
    } else {
        0
    };
    let t = sub_vec(&t0, off, t0.len());
    proof {
        assert(t@ == strip_progress_prefix(text::trimmed(line@)));
    }
    let base = lo + off;
    proof {
        assert(forall|a: int, b: int|
            0 <= a <= b <= t@.len() ==> t@.subrange(a, b) =~= line@.subrange(
                base + a,
                base + b,
            ));
    }
    match ratio_search_exec(&t) {
        Some(m) => {
            let piece = line.substring_char(base + m.0, base + m.1);
            Some(piece.to_owned())
        },
        None => {
            match percent_search_exec(&t) {
                Some(m) => {
                    let piece = line.substring_char(base + m.0, base + m.1);
                    Some(piece.to_owned())
                },
                None => None,
            }
        },
    }
}

/// Offset of the text left after removing every leading `PROGRESS:`.
fn strip_repeated_colon(t: &Vec<char>, pref: &Vec<char>) -> (off: usize)
    requires
        pref@ == "PROGRESS:"@,
    ensures
        off <= t@.len(),
        t@.subrange(off as int, t@.len() as int) == strip_all_prefix(t@, "PROGRESS:"@),
{
    let ghost p = "PROGRESS:"@;
    proof {
        reveal_strlit("PROGRESS:");
    }
    let n = t.len();
    let mut off: usize = 0;
    proof {
        assert(t@.subrange(0, t@.len() as int) =~= t@);
    }
    while text::match_at_exec(t, pref, off)
        invariant
            n == t@.len(),
            pref@ == p,
            p.len() == 9,
            off <= n,
            strip_all_prefix(t@, p) == strip_all_prefix(
                t@.subrange(off as int, t@.len() as int),
                p,
            ),
        decreases n - off,
    {
        proof {
            let cur = t@.subrange(off as int, t@.len() as int);
            assert(text::starts_with(cur, p)) by {
                assert(cur.subrange(0, p.len() as int) =~= t@.subrange(
                    off as int,
                    off + p.len() as int,
                ));
            }
            assert(cur.subrange(p.len() as int, cur.len() as int) =~= t@.subrange(
                off + p.len() as int,
                t@.len() as int,
            ));
        }
        off = off + pref.len();
    }
    proof {
        let cur = t@.subrange(off as int, t@.len() as int);
        assert(!text::starts_with(cur, p)) by {
            if text::starts_with(cur, p) {
                assert(t@.subrange(off as int, off + p.len() as int) =~= cur.subrange(
                    0,
                    p.len() as int,
                ));
            }
        }
    }
    off
}

/// Classify one complete line: a progress event in one of the three
/// recognised forms, or a plain log line kept verbatim.
pub fn classify_line(line: &str) -> (r: LineClass)
    ensures
        r.abs() == spec_classify(line@),
{
    match extract_progress_info(line) {
        Some(value) => LineClass::Progress { value },
        None => {
            let lv = text::chars_of(line);
            let (lo, hi) = text::trim_bounds(&lv);
            let t = sub_vec(&lv, lo, hi);
            let pref_colon = text::chars_of("PROGRESS:");
            if text::starts_with_exec(&t, &pref_colon) {
                let off = strip_repeated_colon(&t, &pref_colon);
                let rest = sub_vec(&t, off, t.len());
                let (a, b) = text::trim_bounds(&rest);
                let value = line.substring_char(lo + off + a, lo + off + b);
                proof {
                    assert(line@.subrange(lo + off + a, lo + off + b) =~= rest@.subrange(
                        a as int,
                        b as int,
                    ));
                }
                LineClass::Progress { value: value.to_owned() }
            } else {
                LineClass::Plain { line: line.to_owned() }
            }
        },
    }
}

/// Decode one raw output line and classify it: what the demultiplexer
/// hands out becomes the text kept for the extractor and the event fed
/// to the status buffer.
pub fn classify_output_line(line: &Vec<u8>) -> (r: (String, LineClass))
    ensures
        r.0@ == decoded(line@),
        r.1.abs() == spec_classify(decoded(line@)),
{
    let text = lossy_decode(line);
    let class = classify_line(text.as_str());
    (text, class)
}

} // verus!
