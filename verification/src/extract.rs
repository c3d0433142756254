//! Mining the final child-process output for links and a content hash.
//!
//! Runs once per action, over the captured output lines.  A trimmed line
//! that starts with the URL scheme and carries the public-download path
//! marker is the direct link (without a preview parameter) or the
//! social-preview link (with one); the last matching line wins.  A content
//! hash is read from a `hash=` token, cut at the first whitespace,
//! ampersand, quote or bracket, with trailing punctuation stripped.  When
//! the pair of links is absent, the first line that names the product's
//! host and has a whitespace-delimited URL yields a single loose link.
//! Finding nothing is not an error.

use vstd::prelude::*;
use vstd::string::*;

use crate::text;

verus! {

/// A trimmed line that is a public-download link line at all.
pub open spec fn is_link_line(t: Seq<char>) -> bool {
    text::starts_with(t, "https://"@) && text::contains_seq(t, "publicDownload"@)
}

/// A trimmed line giving the direct (no preview) link.
pub open spec fn is_direct_line(t: Seq<char>) -> bool {
    is_link_line(t) && !text::contains_seq(t, "preview=true"@)
}

/// A trimmed line giving the social-preview link.
pub open spec fn is_social_line(t: Seq<char>) -> bool {
    is_link_line(t) && text::contains_seq(t, "preview=true"@)
}

/// Characters that terminate a hash token.
pub open spec fn is_hash_stop(c: char) -> bool {
    text::is_space(c) || c == '&' || c == '`' || c == '"' || c == '\'' || c == ')' || c == ']'
}

/// Trailing punctuation stripped from a hash token.
pub open spec fn is_hash_trail(c: char) -> bool {
    c == '`' || c == '"' || c == '\'' || c == ')' || c == ']' || c == '\n' || c == '\r'
}

/// First index at or past `i` holding a stop character, or the length.
pub open spec fn first_stop(s: Seq<char>, i: int) -> int
    decreases s.len() - i,
    when 0 <= i <= s.len()
{
    if i < s.len() && !is_hash_stop(s[i]) {
        first_stop(s, i + 1)
    } else {
        i
    }
}

/// `s` with every trailing punctuation character removed.
pub open spec fn strip_trail(s: Seq<char>) -> Seq<char>
    decreases s.len(),
{
    if s.len() > 0 && is_hash_trail(s.last()) {
        strip_trail(s.drop_last())
    } else {
        s
    }
}

/// First index at or past `i` where `p` occurs, if any.
pub open spec fn first_match(s: Seq<char>, p: Seq<char>, i: int) -> Option<int>
    decreases s.len() - i,
    when 0 <= i <= s.len()
{
    if text::match_at(s, p, i) {
        Some(i)
    } else if i < s.len() {
        first_match(s, p, i + 1)
    } else {
        None
    }
}

/// The hash token a trimmed line carries, if any: the text after the
/// first `hash=`, cut at the first stop character, trailing punctuation
/// stripped — provided the line holds the full `publicDownload?hash=`
/// marker and the token is non-empty.
pub open spec fn hash_of_line(t: Seq<char>) -> Option<Seq<char>> {
    if !text::contains_seq(t, "publicDownload?hash="@) {
        None
    } else {
        match first_match(t, "hash="@, 0) {
            None => None,
            Some(hs) => {
                let part = t.subrange(hs + "hash="@.len() as int, t.len() as int);
                let tok = strip_trail(part.subrange(0, first_stop(part, 0)));
                if tok.len() > 0 {
                    Some(tok)
                } else {
                    None
                }
            },
        }
    }
}

/// Running accumulation over the output lines; the last match of each
/// kind wins.
pub struct ScanAcc {
    pub direct: Option<Seq<char>>,
    pub social: Option<Seq<char>>,
    pub hash: Option<Seq<char>>,
}

impl ScanAcc {
    pub open spec fn init() -> ScanAcc {
        ScanAcc { direct: None, social: None, hash: None }
    }
}

/// Effect of one output line on the accumulator.
pub open spec fn scan_line(acc: ScanAcc, l: Seq<char>) -> ScanAcc {
    let t = text::trimmed(l);
    let d = if is_direct_line(t) {
        Some(t)
    } else {
        acc.direct
    };
    let s = if is_social_line(t) {
        Some(t)
    } else {
        acc.social
    };
    let h = match hash_of_line(t) {
        Some(tok) => Some(tok),
        None => acc.hash,
    };
    ScanAcc { direct: d, social: s, hash: h }
}

/// Effect of all output lines, in order.
pub open spec fn scan_lines(acc: ScanAcc, ls: Seq<Seq<char>>) -> ScanAcc
    decreases ls.len(),
{
    if ls.len() == 0 {
        acc
    } else {
        scan_lines(scan_line(acc, ls[0]), ls.drop_first())
    }
}

/// The loose link an untrimmed line yields for the fallback: from the
/// first `https://` up to the first whitespace after it, provided the
/// line also names the product's host.  A line with no whitespace after
/// the scheme yields nothing.
pub open spec fn fallback_of_line(l: Seq<char>) -> Option<Seq<char>> {
    if text::contains_seq(l, "https://"@) && text::contains_seq(l, "pipenetwork.com"@) {
        match first_match(l, "https://"@, 0) {
            None => None,
            Some(st) => {
                let url = l.subrange(st, l.len() as int);
                let e = first_ws(url, 0);
                if e < url.len() {
                    Some(url.subrange(0, e))
                } else {
                    None
                }
            },
        }
    } else {
        None
    }
}

/// First index at or past `i` holding whitespace, or the length.
pub open spec fn first_ws(s: Seq<char>, i: int) -> int
    decreases s.len() - i,
    when 0 <= i <= s.len()
{
    if i < s.len() && !text::is_space(s[i]) {
        first_ws(s, i + 1)
    } else {
        i
    }
}

/// The first line's loose link, scanning from line `i`.
pub open spec fn first_fallback(ls: Seq<Seq<char>>, i: int) -> Option<Seq<char>>
    decreases ls.len() - i,
    when 0 <= i <= ls.len()
{
    if i >= ls.len() {
        None
    } else {
        match fallback_of_line(ls[i]) {
            Some(link) => Some(link),
            None => first_fallback(ls, i + 1),
        }
    }
}

/// What the extractor denotes on the whole output.
pub enum SpecOutcome {
    Found { direct: Seq<char>, social: Seq<char>, hash: Seq<char> },
    Loose { link: Seq<char>, hash: Seq<char> },
    Absent,
}

pub open spec fn spec_extract_links(ls: Seq<Seq<char>>) -> SpecOutcome {
    let acc = scan_lines(ScanAcc::init(), ls);
    let hash = match acc.hash {
        Some(h) => h,
        None => Seq::empty(),
    };
    match acc.direct {
        Some(d) => match acc.social {
            Some(s) => SpecOutcome::Found { direct: d, social: s, hash },
            None => match first_fallback(ls, 0) {
                Some(link) => SpecOutcome::Loose { link, hash },
                None => SpecOutcome::Absent,
            },
        },
        None => match first_fallback(ls, 0) {
            Some(link) => SpecOutcome::Loose { link, hash },
            None => SpecOutcome::Absent,
        },
    }
}

/// The structured result of a successful link-creation action.
#[derive(Debug, Clone)]
pub struct GeneratedLinks {
    pub direct_link: String,
    pub social_media_link: String,
    pub download_hash: String,
}

/// The extractor's verdict on one action's output.
pub enum ExtractOutcome {
    /// Both links were present.
    Found { links: GeneratedLinks },
    /// Only the host-based fallback matched; both link fields carry it.
    Loose { links: GeneratedLinks },
    /// No marker matched; the raw output stays visible as status text.
    Absent,
}

impl ExtractOutcome {
    /// The abstract outcome this value stands for.
    pub open spec fn abs(&self) -> SpecOutcome {
        match self {
            ExtractOutcome::Found { links } => SpecOutcome::Found {
                direct: links.direct_link@,
                social: links.social_media_link@,
                hash: links.download_hash@,
            },
            ExtractOutcome::Loose { links } => SpecOutcome::Loose {
                link: links.direct_link@,
                hash: links.download_hash@,
            },
            ExtractOutcome::Absent => SpecOutcome::Absent,
        }
    }

    /// The loose outcome duplicates its link into both fields.
    pub open spec fn wf(&self) -> bool {
        match self {
            ExtractOutcome::Loose { links } => links.direct_link@ == links.social_media_link@,
            _ => true,
        }
    }
}

fn first_stop_exec(v: &Vec<char>, i: usize) -> (r: usize)
    requires
        i <= v@.len(),
    ensures
        r == first_stop(v@, i as int),
        i <= r <= v@.len(),
{
    let n = v.len();
    let mut j = i;
    while j < n && !stop_at(v, j)
        invariant
            n == v@.len(),
            i <= j <= n,
            first_stop(v@, i as int) == first_stop(v@, j as int),
        decreases n - j,
    {
        j = j + 1;
    }
    j
}

fn stop_at(v: &Vec<char>, j: usize) -> (r: bool)
    requires
        j < v@.len(),
    ensures
        r == is_hash_stop(v@[j as int]),
{
    let c = v[j];
    text::space_char(c) || c == '&' || c == '`' || c == '"' || c == '\'' || c == ')' || c == ']'
}

fn trail_at(v: &Vec<char>, j: usize) -> (r: bool)
    requires
        j < v@.len(),
    ensures
        r == is_hash_trail(v@[j as int]),
{
    let c = v[j];
    c == '`' || c == '"' || c == '\'' || c == ')' || c == ']' || c == '\n' || c == '\r'
}

fn first_ws_exec(v: &Vec<char>, i: usize) -> (r: usize)
    requires
        i <= v@.len(),
    ensures
        r == first_ws(v@, i as int),
        i <= r <= v@.len(),
{
    let n = v.len();
    let mut j = i;
    while j < n && !text::space_char(v[j])
        invariant
            n == v@.len(),
            i <= j <= n,
            first_ws(v@, i as int) == first_ws(v@, j as int),
        decreases n - j,
    {
        j = j + 1;
    }
    j
}

/// Length kept after stripping trailing punctuation from `v[..end]`.
fn strip_trail_len(v: &Vec<char>, end: usize) -> (r: usize)
    requires
        end <= v@.len(),
    ensures
        r <= end,
        strip_trail(v@.take(end as int)) == v@.take(r as int),
{
    let mut e = end;
    while e > 0 && trail_at(v, e - 1)
        invariant
            e <= end <= v@.len(),
            strip_trail(v@.take(end as int)) == strip_trail(v@.take(e as int)),
        decreases e,
    {
        proof {
            assert(v@.take(e as int).drop_last() =~= v@.take(e - 1));
            assert(v@.take(e as int).last() == v@[e - 1]);
        }
        e = e - 1;
    }
    proof {
        if e > 0 {
            assert(v@.take(e as int).last() == v@[e - 1]);
        } else {
            assert(v@.take(0) =~= Seq::<char>::empty());
        }
    }
    e
}

/// Copy of `v[from..to]`.
fn slice_of(v: &Vec<char>, from: usize, to: usize) -> (r: Vec<char>)
    requires
        from <= to <= v@.len(),
    ensures
        r@ == v@.subrange(from as int, to as int),
{
    let mut r: Vec<char> = Vec::new();
    let mut i = from;
    proof {
        assert(r@ =~= v@.subrange(from as int, from as int));
    }
    while i < to
        invariant
            from <= i <= to <= v@.len(),
            r@ == v@.subrange(from as int, i as int),
        decreases to - i,
    {
        r.push(v[i]);
        proof {
            assert(r@ =~= v@.subrange(from as int, i + 1));
        }
        i = i + 1;
    }
    r
}

/// The hash token of one line, as [`hash_of_line`] denotes it.
fn hash_of_line_exec(line: &str, lv: &Vec<char>, lo: usize, hi: usize) -> (r: Option<String>)
    requires
        lv@ == line@,
        lo <= hi <= lv@.len(),
        lv@.subrange(lo as int, hi as int) == text::trimmed(lv@),
    ensures
        r.deep_view() == hash_of_line(text::trimmed(line@)),
{
    let t = slice_of(lv, lo, hi);
    let marker = text::chars_of("publicDownload?hash=");
    let needle = text::chars_of("hash=");
    proof {
        reveal_strlit("hash=");
    }
    if !text::contains_exec(&t, &marker) {
        return None;
    }
    let hs = match text::find_from(&t, &needle, 0) {
        Some(i) => i,
        None => {
            proof {
                assert(first_match(t@, "hash="@, 0) is None) by {
                    lemma_first_match_none(t@, "hash="@, 0);
                }
            }
            return None;
        },
    };
    proof {
        lemma_first_match_found(t@, "hash="@, 0, hs as int);
    }
    let part = slice_of(&t, hs + 5, t.len());
    let stop = first_stop_exec(&part, 0);
    let keep = strip_trail_len(&part, stop);
    proof {
        assert(part@.take(stop as int) =~= part@.subrange(0, first_stop(part@, 0)));
        assert(part@ =~= t@.subrange(hs + "hash="@.len() as int, t@.len() as int));
    }
    if keep == 0 {
        proof {
            assert(part@.take(0) =~= Seq::<char>::empty());
        }
        return None;
    }
    let token = line.substring_char(lo + hs + 5, lo + hs + 5 + keep);
    proof {
        assert(line@.subrange(lo + hs + 5, lo + hs + 5 + keep) =~= part@.take(keep as int));
    }
    Some(token.to_owned())
}

/// A found `find_from` result is the `first_match`.
pub proof fn lemma_first_match_found(s: Seq<char>, p: Seq<char>, i: int, m: int)
    requires
        0 <= i <= m <= s.len(),
        text::match_at(s, p, m),
        forall|j: int| i <= j < m ==> !text::match_at(s, p, j),
    ensures
        first_match(s, p, i) == Some(m),
    decreases m - i,
{
    if i < m {
        lemma_first_match_found(s, p, i + 1, m);
    }
}

/// No match anywhere means `first_match` is `None`.
pub proof fn lemma_first_match_none(s: Seq<char>, p: Seq<char>, i: int)
    requires
        0 <= i <= s.len(),
        forall|j: int| i <= j ==> !text::match_at(s, p, j),
    ensures
        first_match(s, p, i) is None,
    decreases s.len() - i,
{
    if i < s.len() {
        lemma_first_match_none(s, p, i + 1);
    }
}

/// The loose link of one untrimmed line, as [`fallback_of_line`] denotes
/// it.
fn fallback_of_line_exec(line: &str) -> (r: Option<String>)
    ensures
        r.deep_view() == fallback_of_line(line@),
{
    let lv = text::chars_of(line);
    let scheme = text::chars_of("https://");
    let host = text::chars_of("pipenetwork.com");
    if !(text::contains_exec(&lv, &scheme) && text::contains_exec(&lv, &host)) {
        return None;
    }
    let st = match text::find_from(&lv, &scheme, 0) {
        Some(i) => i,
        None => {
            proof {
                lemma_first_match_none(lv@, "https://"@, 0);
            }
            return None;
        },
    };
    proof {
        lemma_first_match_found(lv@, "https://"@, 0, st as int);
    }
    let e = first_ws_from(&lv, st);
    proof {
        let url = lv@.subrange(st as int, lv@.len() as int);
        lemma_first_ws_shift(lv@, st as int, url);
    }
    if e < lv.len() {
        let link = line.substring_char(st, e);
        proof {
            let url = lv@.subrange(st as int, lv@.len() as int);
            assert(line@.subrange(st as int, e as int) =~= url.subrange(0, e - st));
        }
        Some(link.to_owned())
    } else {
        None
    }
}

/// `first_ws` over a suffix, phrased on the whole vector.
fn first_ws_from(v: &Vec<char>, from: usize) -> (r: usize)
    requires
        from <= v@.len(),
    ensures
        from <= r <= v@.len(),
        r - from == first_ws(v@.subrange(from as int, v@.len() as int), 0),
{
    let n = v.len();
    let mut j = from;
    proof {
        let url = v@.subrange(from as int, v@.len() as int);
        assert(first_ws(url, 0) == first_ws(url, 0));
    }
    while j < n && !text::space_char(v[j])
        invariant
            n == v@.len(),
            from <= j <= n,
            first_ws(v@.subrange(from as int, n as int), 0) == first_ws(
                v@.subrange(from as int, n as int),
                j - from,
            ),
        decreases n - j,
    {
        proof {
            let url = v@.subrange(from as int, n as int);
            assert(url[j - from] == v@[j as int]);
        }
        j = j + 1;
    }
    proof {
        let url = v@.subrange(from as int, n as int);
        if j < n {
            assert(url[j - from] == v@[j as int]);
        }
    }
    j
}

proof fn lemma_first_ws_shift(s: Seq<char>, st: int, url: Seq<char>)
    requires
        0 <= st <= s.len(),
        url == s.subrange(st, s.len() as int),
    ensures
        first_ws(url, 0) <= url.len(),
{
    lemma_first_ws_bound(url, 0);
}

proof fn lemma_first_ws_bound(s: Seq<char>, i: int)
    requires
        0 <= i <= s.len(),
    ensures
        i <= first_ws(s, i) <= s.len(),
    decreases s.len() - i,
{
    if i < s.len() && !text::is_space(s[i]) {
        lemma_first_ws_bound(s, i + 1);
    }
}

/// Scan all output lines once, as the abstract fold denotes.
fn scan_all(lines: &Vec<String>) -> (r: (Option<String>, Option<String>, Option<String>))
    ensures
        r.0.deep_view() == scan_lines(ScanAcc::init(), lines.deep_view()).direct,
        r.1.deep_view() == scan_lines(ScanAcc::init(), lines.deep_view()).social,
        r.2.deep_view() == scan_lines(ScanAcc::init(), lines.deep_view()).hash,
{
    let ghost all = lines.deep_view();
    let mut direct: Option<String> = None;
    let mut social: Option<String> = None;
    let mut hash: Option<String> = None;
    let n = lines.len();
    let mut i: usize = 0;
    proof {
        assert(all.take(0) =~= Seq::<Seq<char>>::empty());
    }
    while i < n
        invariant
            n == lines@.len(),
            all == lines.deep_view(),
            i <= n,
            direct.deep_view() == scan_lines(ScanAcc::init(), all.take(i as int)).direct,
            social.deep_view() == scan_lines(ScanAcc::init(), all.take(i as int)).social,
            hash.deep_view() == scan_lines(ScanAcc::init(), all.take(i as int)).hash,
        decreases n - i,
    {
        let line = &lines[i];
        let lv = text::chars_of(line.as_str());
        let (lo, hi) = text::trim_bounds(&lv);
        let t = slice_of(&lv, lo, hi);
        let scheme = text::chars_of("https://");
        let dl_marker = text::chars_of("publicDownload");
        let preview = text::chars_of("preview=true");
        let is_link = text::starts_with_exec(&t, &scheme) && text::contains_exec(&t, &dl_marker);
        let has_preview = text::contains_exec(&t, &preview);
        if is_link && !has_preview {
            let ts = text::trim_str(line.as_str(), &lv);
            direct = Some(ts);
        }
        if is_link && has_preview {
            let ts = text::trim_str(line.as_str(), &lv);
            social = Some(ts);
        }
        match hash_of_line_exec(line.as_str(), &lv, lo, hi) {
            Some(h) => {
                hash = Some(h);
            },
            None => {
            },
        }
        proof {
            assert(all.take(i + 1).drop_last() =~= all.take(i as int));
            assert(all.take(i + 1).last() == all[i as int]);
            lemma_scan_lines_step(ScanAcc::init(), all.take(i + 1));
            assert(all.take(i + 1).drop_last() == all.take(i as int));
        }
        i = i + 1;
    }
    proof {
        assert(all.take(n as int) =~= all);
    }
    (direct, social, hash)
}

/// Unrolling `scan_lines` one line from the end.
proof fn lemma_scan_lines_step(acc: ScanAcc, ls: Seq<Seq<char>>)
    requires
        ls.len() > 0,
    ensures
        scan_lines(acc, ls) == scan_line(scan_lines(acc, ls.drop_last()), ls.last()),
    decreases ls.len(),
{
    reveal_with_fuel(scan_lines, 2);
    if ls.len() == 1 {
        assert(ls.drop_last() =~= Seq::<Seq<char>>::empty());
        assert(ls.drop_first() =~= Seq::<Seq<char>>::empty());
    } else {
        lemma_scan_lines_step(scan_line(acc, ls[0]), ls.drop_first());
        assert(ls.drop_first().drop_last() =~= ls.drop_last().drop_first());
        assert(ls.drop_first().last() == ls.last());
        assert(ls.drop_last()[0] == ls[0]);
        assert(scan_lines(acc, ls.drop_last()) == scan_lines(
            scan_line(acc, ls[0]),
            ls.drop_last().drop_first(),
        ));
        assert(scan_lines(acc, ls) == scan_lines(scan_line(acc, ls[0]), ls.drop_first()));
    }
}

/// The host-based fallback: first line that yields a loose link.
fn fallback_scan(lines: &Vec<String>) -> (r: Option<String>)
    ensures
        r.deep_view() == first_fallback(lines.deep_view(), 0),
{
    let ghost all = lines.deep_view();
    let n = lines.len();
    let mut i: usize = 0;
    while i < n
        invariant
            n == lines@.len(),
            all == lines.deep_view(),
            i <= n,
            forall|j: int| 0 <= j < i ==> fallback_of_line(#[trigger] all[j]) is None,
        decreases n - i,
    {
        match fallback_of_line_exec(lines[i].as_str()) {
            Some(link) => {
                proof {
                    lemma_first_fallback_found(all, 0, i as int);
                }
                return Some(link);
            },
            None => {
            },
        }
        i = i + 1;
    }
    proof {
        lemma_first_fallback_none(all, 0);
    }
    None
}

proof fn lemma_first_fallback_found(ls: Seq<Seq<char>>, i: int, m: int)
    requires
        0 <= i <= m < ls.len(),
        fallback_of_line(ls[m]) is Some,
        forall|j: int| i <= j < m ==> fallback_of_line(#[trigger] ls[j]) is None,
    ensures
        first_fallback(ls, i) == fallback_of_line(ls[m]),
    decreases m - i,
{
    if i < m {
        lemma_first_fallback_found(ls, i + 1, m);
    }
}

proof fn lemma_first_fallback_none(ls: Seq<Seq<char>>, i: int)
    requires
        0 <= i <= ls.len(),
        forall|j: int| i <= j < ls.len() ==> fallback_of_line(#[trigger] ls[j]) is None,
    ensures
        first_fallback(ls, i) is None,
    decreases ls.len() - i,
{
    if i < ls.len() {
        lemma_first_fallback_none(ls, i + 1);
    }
}

/// Extract the structured result from the captured output lines.
pub fn extract_links(lines: &Vec<String>) -> (r: ExtractOutcome)
    ensures
        r.abs() == spec_extract_links(lines.deep_view()),
        r.wf(),
{
    let (direct, social, hash) = scan_all(lines);
    let hash_str = match hash {
        Some(h) => h,
        None => String::new(),
    };
    match (direct, social) {
        (Some(d), Some(s)) => ExtractOutcome::Found {
            links: GeneratedLinks {
                direct_link: d,
                social_media_link: s,
                download_hash: hash_str,
            },
        },
        _ => {
            match fallback_scan(lines) {
                Some(link) => {
                    let link2 = link.clone();
                    ExtractOutcome::Loose {
                        links: GeneratedLinks {
                            direct_link: link,
                            social_media_link: link2,
                            download_hash: hash_str,
                        },
                    }
                },
                None => ExtractOutcome::Absent,
            }
        },
    }
}

} // verus!
