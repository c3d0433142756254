//! The persisted transfer log: newline-delimited JSON records of prior
//! uploads.
//!
//! Reading the file is outside work; given its text, this module parses
//! each non-blank line into a record, drops lines that do not parse,
//! orders the records newest first, and answers the questions the panels
//! ask of them: which records match a search, whether a remote name
//! exists, and how to shorten a content hash for display.  A timestamp is
//! held as plain values — seconds and nanoseconds since the epoch — and
//! only its parsing from the file's date text is outside work.

use vstd::prelude::*;
use vstd::string::*;

use crate::creds::json_str_field;
use crate::text;

verus! {

/// The unsigned numeric value of field `key` in the JSON object that
/// `text` parses to, when that field is a number representable as `u64`.
pub uninterp spec fn json_u64_field(text: Seq<char>, key: Seq<char>) -> Option<u64>;

/// Relies on serde_json: `from_str::<Value>`, `Value::get` and
/// `Value::as_u64`; the composition depends on the arguments alone.
#[verifier::external_body]
fn json_number_field(text: &str, key: &str) -> (r: Option<u64>)
    ensures
        r == json_u64_field(text@, key@),
{
    match serde_json::from_str::<serde_json::Value>(text) {
        Ok(v) => v.get(key).and_then(|f| f.as_u64()),
        Err(_) => None,
    }
}

/// The instant a date text denotes, as seconds and nanoseconds since the
/// Unix epoch, when the text is a well-formed RFC 3339 date-time.
pub uninterp spec fn epoch_of(s: Seq<char>) -> Option<(i64, u32)>;

/// Relies on chrono: `DateTime::parse_from_rfc3339` with `timestamp` and
/// `timestamp_subsec_nanos`; the result depends on the text alone.
#[verifier::external_body]
fn parse_rfc3339_epoch(s: &str) -> (r: Option<(i64, u32)>)
    ensures
        r == epoch_of(s@),
{
    match chrono::DateTime::parse_from_rfc3339(s) {
        Ok(d) => Some((d.timestamp(), d.timestamp_subsec_nanos())),
        Err(_) => None,
    }
}

/// One transfer record of the persisted log.
pub struct UploadRecord {
    pub local_path: String,
    pub remote_path: String,
    pub status: String,
    pub message: String,
    pub blake3_hash: String,
    pub file_size: u64,
    pub timestamp_secs: i64,
    pub timestamp_nanos: u32,
}

/// The abstract value of a record.
pub struct RecordAbs {
    pub local_path: Seq<char>,
    pub remote_path: Seq<char>,
    pub status: Seq<char>,
    pub message: Seq<char>,
    pub blake3_hash: Seq<char>,
    pub file_size: u64,
    pub secs: i64,
    pub nanos: u32,
}

impl UploadRecord {
    pub open spec fn abs(self) -> RecordAbs {
        RecordAbs {
            local_path: self.local_path@,
            remote_path: self.remote_path@,
            status: self.status@,
            message: self.message@,
            blake3_hash: self.blake3_hash@,
            file_size: self.file_size,
            secs: self.timestamp_secs,
            nanos: self.timestamp_nanos,
        }
    }
}

/// The abstract values of a record sequence.
pub open spec fn abs_seq(s: Seq<UploadRecord>) -> Seq<RecordAbs> {
    s.map_values(|r: UploadRecord| r.abs())
}

/// The record one log line denotes, if it denotes one: all five text
/// fields present as strings, the size as a number, and the timestamp as
/// a parseable date text.
pub open spec fn line_record(line: Seq<char>) -> Option<RecordAbs> {
    match json_str_field(line, "local_path"@) {
        None => None,
        Some(lp) => match json_str_field(line, "remote_path"@) {
            None => None,
            Some(rp) => match json_str_field(line, "status"@) {
                None => None,
                Some(st) => match json_str_field(line, "message"@) {
                    None => None,
                    Some(ms) => match json_str_field(line, "blake3_hash"@) {
                        None => None,
                        Some(bh) => match json_u64_field(line, "file_size"@) {
                            None => None,
                            Some(fs) => match json_str_field(line, "timestamp"@) {
                                None => None,
                                Some(ts) => match epoch_of(ts) {
                                    None => None,
                                    Some(e) => Some(
                                        RecordAbs {
                                            local_path: lp,
                                            remote_path: rp,
                                            status: st,
                                            message: ms,
                                            blake3_hash: bh,
                                            file_size: fs,
                                            secs: e.0,
                                            nanos: e.1,
                                        },
                                    ),
                                },
                            },
                        },
                    },
                },
            },
        },
    }
}

/// What one log line contributes: nothing when blank or unparseable.
pub open spec fn line_contrib(line: Seq<char>) -> Seq<RecordAbs> {
    if text::trimmed(line).len() == 0 {
        Seq::empty()
    } else {
        match line_record(line) {
            Some(a) => seq![a],
            None => Seq::empty(),
        }
    }
}

/// The records of the log lines, in file order.
pub open spec fn records_of(lines: Seq<Seq<char>>) -> Seq<RecordAbs>
    decreases lines.len(),
{
    if lines.len() == 0 {
        Seq::empty()
    } else {
        records_of(lines.drop_last()) + line_contrib(lines.last())
    }
}

/// Parse one log line.
pub fn parse_record_line(line: &str) -> (r: Option<UploadRecord>)
    ensures
        match r {
            Some(rec) => line_record(line@) == Some(rec.abs()),
            None => line_record(line@) is None,
        },
{
    let lp = match crate::creds::json_text_field(line, "local_path") {
        Some(v) => v,
        None => {
            return None;
        },
    };
    let rp = match crate::creds::json_text_field(line, "remote_path") {
        Some(v) => v,
        None => {
            return None;
        },
    };
    let st = match crate::creds::json_text_field(line, "status") {
        Some(v) => v,
        None => {
            return None;
        },
    };
    let ms = match crate::creds::json_text_field(line, "message") {
        Some(v) => v,
        None => {
            return None;
        },
    };
    let bh = match crate::creds::json_text_field(line, "blake3_hash") {
        Some(v) => v,
        None => {
            return None;
        },
    };
    let fs = match json_number_field(line, "file_size") {
        Some(v) => v,
        None => {
            return None;
        },
    };
    let ts = match crate::creds::json_text_field(line, "timestamp") {
        Some(v) => v,
        None => {
            return None;
        },
    };
    let (secs, nanos) = match parse_rfc3339_epoch(ts.as_str()) {
        Some(e) => e,
        None => {
            return None;
        },
    };
    Some(
        UploadRecord {
            local_path: lp,
            remote_path: rp,
            status: st,
            message: ms,
            blake3_hash: bh,
            file_size: fs,
            timestamp_secs: secs,
            timestamp_nanos: nanos,
        },
    )
}

/// First index at or past `i` holding a line feed, or the length.
pub open spec fn first_nl(s: Seq<char>, i: int) -> int
    decreases s.len() - i,
    when 0 <= i <= s.len()
{
    if i < s.len() && s[i] != '\n' {
        first_nl(s, i + 1)
    } else {
        i
    }
}

/// A piece of text with one trailing carriage return dropped.
pub open spec fn strip_cr_end(l: Seq<char>) -> Seq<char> {
    if l.len() > 0 && l.last() == '\r' {
        l.drop_last()
    } else {
        l
    }
}

/// The lines of a text: split at `\n`, a preceding `\r` dropped, no
/// final empty line after a trailing `\n`.
pub open spec fn spec_lines(s: Seq<char>) -> Seq<Seq<char>>
    decreases s.len(),
{
    if s.len() == 0 {
        Seq::empty()
    } else {
        let i = first_nl(s, 0);
        if 0 <= i < s.len() {
            seq![strip_cr_end(s.subrange(0, i))] + spec_lines(
                s.subrange(i + 1, s.len() as int),
            )
        } else {
            seq![s]
        }
    }
}

proof fn lemma_first_nl_bound(s: Seq<char>, i: int)
    requires
        0 <= i <= s.len(),
    ensures
        i <= first_nl(s, i) <= s.len(),
        first_nl(s, i) < s.len() ==> s[first_nl(s, i)] == '\n',
        forall|j: int| i <= j < first_nl(s, i) ==> s[j] != '\n',
    decreases s.len() - i,
{
    if i < s.len() && s[i] != '\n' {
        lemma_first_nl_bound(s, i + 1);
    }
}

/// A scan that stops at the first line feed pins down `first_nl`.
proof fn lemma_first_nl_exact(s: Seq<char>, i: int, m: int)
    requires
        0 <= i <= m <= s.len(),
        forall|j: int| i <= j < m ==> s[j] != '\n',
        m < s.len() ==> s[m] == '\n',
    ensures
        first_nl(s, i) == m,
    decreases m - i,
{
    if i < m {
        lemma_first_nl_exact(s, i + 1, m);
    }
}

/// Split a text into its lines.
pub fn split_text_lines(content: &str) -> (r: Vec<String>)
    ensures
        r.deep_view() == spec_lines(content@),
{
    let cv = text::chars_of(content);
    let n = cv.len();
    let mut out: Vec<String> = Vec::new();
    let mut pos: usize = 0;
    proof {
        assert(out.deep_view() =~= Seq::<Seq<char>>::empty());
        assert(content@.subrange(0, n as int) =~= content@);
    }
    while pos < n
        invariant
            n == cv@.len(),
            cv@ == content@,
            pos <= n,
            spec_lines(content@) =~= out.deep_view() + spec_lines(
                content@.subrange(pos as int, n as int),
            ),
        decreases n - pos,
    {
        let ghost rest = content@.subrange(pos as int, n as int);
        let mut e = pos;
        while e < n && cv[e] != '\n'
            invariant
                n == cv@.len(),
                pos <= e <= n,
                forall|j: int| pos <= j < e ==> cv@[j] != '\n',
            decreases n - e,
        {
            e = e + 1;
        }
        proof {
            assert(forall|j: int| 0 <= j < e - pos ==> rest[j] == cv@[pos + j]);
            lemma_first_nl_exact(rest, 0, e - pos);
        }
        let line_end = if e < n && e > pos && cv[e - 1] == '\r' {
            e - 1
        } else {
            e
        };
        let ghost piece = rest.subrange(0, e - pos);
        let line = content.substring_char(pos, line_end);
        let ghost pre = out.deep_view();
        out.push(line.to_owned());
        proof {
            assert(out.deep_view() =~~= pre.push(line@));
            if e < n {
                assert(piece =~= content@.subrange(pos as int, e as int));
                assert(strip_cr_end(piece) =~= content@.subrange(pos as int, line_end as int)) by {
                    if piece.len() > 0 && piece.last() == '\r' {
                        assert(piece.drop_last() =~= content@.subrange(pos as int, e - 1));
                    }
                }
                assert(rest.subrange(e - pos + 1, rest.len() as int) =~= content@.subrange(
                    e + 1,
                    n as int,
                ));
                assert(pre + (seq![strip_cr_end(piece)] + spec_lines(
                    content@.subrange(e + 1, n as int),
                )) =~= out.deep_view() + spec_lines(content@.subrange(e + 1, n as int)));
            } else {
                assert(rest =~= content@.subrange(pos as int, e as int));
                assert(line@ =~= rest);
                assert(spec_lines(content@.subrange(e as int, n as int)) =~= Seq::<
                    Seq<char>,
                >::empty());
                assert(pre + seq![rest] =~= out.deep_view());
            }
        }
        if e < n {
            pos = e + 1;
        } else {
            pos = e;
        }
    }
    proof {
        assert(spec_lines(content@.subrange(n as int, n as int)) =~= Seq::<Seq<char>>::empty());
        assert(out.deep_view() + Seq::<Seq<char>>::empty() =~= out.deep_view());
    }
    out
}

/// Newest-first order on abstract records: `a` is at least as recent as
/// `b`.
pub open spec fn newer_eq(a: RecordAbs, b: RecordAbs) -> bool {
    a.secs > b.secs || (a.secs == b.secs && a.nanos >= b.nanos)
}

pub open spec fn sorted_newest_first(s: Seq<RecordAbs>) -> bool {
    forall|i: int, j: int| 0 <= i < j < s.len() ==> newer_eq(#[trigger] s[i], #[trigger] s[j])
}

fn newer_eq_exec(a: &UploadRecord, b: &UploadRecord) -> (r: bool)
    ensures
        r == newer_eq(a.abs(), b.abs()),
{
    a.timestamp_secs > b.timestamp_secs || (a.timestamp_secs == b.timestamp_secs
        && a.timestamp_nanos >= b.timestamp_nanos)
}

/// Inserting an element anywhere adds exactly it to the multiset.
proof fn lemma_insert_to_multiset(s: Seq<RecordAbs>, i: int, x: RecordAbs)
    requires
        0 <= i <= s.len(),
    ensures
        s.insert(i, x).to_multiset() == s.to_multiset().insert(x),
{
    broadcast use vstd::seq_lib::group_to_multiset_ensures;

    let t = s.insert(i, x);
    assert(t.remove(i) =~= s);
    assert(t[i] == x);
    assert(t.to_multiset().count(x) > 0);
    assert(s.to_multiset() == t.to_multiset().remove(x));
    assert(t.to_multiset() =~= s.to_multiset().insert(x));
}

/// Order the records newest first.  The result is a reordering: the same
/// abstract records, as a multiset.
pub fn sort_records_newest_first(input: Vec<UploadRecord>) -> (r: Vec<UploadRecord>)
    ensures
        sorted_newest_first(abs_seq(r@)),
        abs_seq(r@).to_multiset() == abs_seq(input@).to_multiset(),
{
    broadcast use vstd::seq_lib::group_to_multiset_ensures;

    let ghost total = abs_seq(input@);
    let mut rest = input;
    let mut out: Vec<UploadRecord> = Vec::new();
    proof {
        assert(abs_seq(out@) =~= Seq::<RecordAbs>::empty());
        assert(abs_seq(out@).to_multiset().add(abs_seq(rest@).to_multiset())
            =~= total.to_multiset());
    }
    while rest.len() > 0
        invariant
            sorted_newest_first(abs_seq(out@)),
            abs_seq(out@).to_multiset().add(abs_seq(rest@).to_multiset()) == total.to_multiset(),
        decreases rest@.len(),
    {
        let ghost rest_pre = abs_seq(rest@);
        let x = rest.pop().unwrap();
        proof {
            assert(rest_pre =~= abs_seq(rest@).push(x.abs()));
            abs_seq(rest@).to_multiset_ensures();
            assert(abs_seq(rest@).push(x.abs()).to_multiset() =~= abs_seq(
                rest@,
            ).to_multiset().insert(x.abs()));
            assert(rest_pre.to_multiset() == abs_seq(rest@).to_multiset().insert(x.abs()));
        }
        let n = out.len();
        let mut p: usize = 0;
        while p < n && newer_eq_exec(&out[p], &x)
            invariant
                n == out@.len(),
                p <= n,
                forall|k: int| 0 <= k < p ==> newer_eq(#[trigger] abs_seq(out@)[k], x.abs()),
            decreases n - p,
        {
            p = p + 1;
        }
        let ghost out_pre = abs_seq(out@);
        let ghost xa = x.abs();
        let ghost pos = p as int;
        proof {
            if pos < out_pre.len() {
                assert(!newer_eq(out_pre[pos], xa));
                assert(newer_eq(xa, out_pre[pos]));
            }
        }
        out.insert(p, x);
        proof {
            assert(abs_seq(out@) =~= out_pre.insert(pos, xa));
            lemma_insert_to_multiset(out_pre, pos, xa);
            assert(abs_seq(out@).to_multiset().add(abs_seq(rest@).to_multiset())
                =~= total.to_multiset());
            assert forall|i: int, j: int|
                0 <= i < j < abs_seq(out@).len() implies newer_eq(
                #[trigger] abs_seq(out@)[i],
                #[trigger] abs_seq(out@)[j],
            ) by {
                let cur = abs_seq(out@);
                if j < pos {
                    assert(cur[i] == out_pre[i] && cur[j] == out_pre[j]);
                } else if i > pos {
                    assert(cur[i] == out_pre[i - 1] && cur[j] == out_pre[j - 1]);
                } else if i < pos && j == pos {
                    assert(cur[i] == out_pre[i] && cur[j] == xa);
                } else if i == pos && j > pos {
                    assert(cur[i] == xa && cur[j] == out_pre[j - 1]);
                    if j - 1 >= pos && pos < out_pre.len() {
                        assert(newer_eq(out_pre[pos], out_pre[j - 1]) || pos == j - 1);
                    }
                } else if i < pos && j > pos {
                    assert(cur[i] == out_pre[i] && cur[j] == out_pre[j - 1]);
                }
            }
        }
    }
    proof {
        assert(abs_seq(rest@) =~= Seq::<RecordAbs>::empty());
        assert(abs_seq(out@).to_multiset() =~= total.to_multiset());
    }
    out
}

/// Parse the whole persisted log: each non-blank line that denotes a
/// record, newest first.
pub fn parse_upload_records(content: &str) -> (r: Vec<UploadRecord>)
    ensures
        sorted_newest_first(abs_seq(r@)),
        abs_seq(r@).to_multiset() == records_of(spec_lines(content@)).to_multiset(),
{
    let lines = split_text_lines(content);
    let ghost all = lines.deep_view();
    let mut recs: Vec<UploadRecord> = Vec::new();
    let n = lines.len();
    let mut i: usize = 0;
    proof {
        assert(all.take(0) =~= Seq::<Seq<char>>::empty());
        assert(abs_seq(recs@) =~= Seq::<RecordAbs>::empty());
        assert(abs_seq(recs@) =~= records_of(all.take(0)));
    }
    while i < n
        invariant
            n == lines@.len(),
            all == lines.deep_view(),
            i <= n,
            abs_seq(recs@) == records_of(all.take(i as int)),
        decreases n - i,
    {
        let ghost pre = abs_seq(recs@);
        let line = &lines[i];
        let lv = text::chars_of(line.as_str());
        let (lo, hi) = text::trim_bounds(&lv);
        if lo < hi {
            match parse_record_line(line.as_str()) {
                Some(rec) => {
                    let ghost ra = rec.abs();
                    recs.push(rec);
                    proof {
                        assert(abs_seq(recs@) =~= pre.push(ra));
                        assert(pre.push(ra) =~= pre + seq![ra]);
                    }
                },
                None => {
                },
            }
        }
        proof {
            assert(all.take(i + 1).drop_last() =~= all.take(i as int));
            assert(all.take(i + 1).last() == all[i as int]);
            assert(text::trimmed(all[i as int]).len() == hi - lo);
            assert(abs_seq(recs@) =~= records_of(all.take(i + 1)));
        }
        i = i + 1;
    }
    proof {
        assert(all.take(n as int) =~= all);
    }
    sort_records_newest_first(recs)
}

/// A record matches a search text: one of its four text fields contains
/// it ASCII-case-insensitively, or its hash contains it exactly.
pub open spec fn spec_matches_search(rec: RecordAbs, search: Seq<char>) -> bool {
    text::contains_ci(rec.local_path, search) || text::contains_ci(rec.remote_path, search)
        || text::contains_ci(rec.status, search) || text::contains_ci(rec.message, search)
        || text::contains_seq(rec.blake3_hash, search)
}

/// Whether one record matches a search text.
pub fn record_matches_search(rec: &UploadRecord, search: &str) -> (r: bool)
    ensures
        r == spec_matches_search(rec.abs(), search@),
{
    let sv = text::chars_of(search);
    let lp = text::chars_of(rec.local_path.as_str());
    let rp = text::chars_of(rec.remote_path.as_str());
    let st = text::chars_of(rec.status.as_str());
    let ms = text::chars_of(rec.message.as_str());
    let bh = text::chars_of(rec.blake3_hash.as_str());
    let m1 = text::contains_ci_exec(&lp, &sv);
    let m2 = text::contains_ci_exec(&rp, &sv);
    let m3 = text::contains_ci_exec(&st, &sv);
    let m4 = text::contains_ci_exec(&ms, &sv);
    let m5 = text::contains_exec(&bh, &sv);
    m1 || m2 || m3 || m4 || m5
}

/// The indices of the records that match a search, in order.
pub open spec fn matching_of(recs: Seq<RecordAbs>, search: Seq<char>) -> Seq<int>
    decreases recs.len(),
{
    if recs.len() == 0 {
        Seq::empty()
    } else {
        matching_of(recs.drop_last(), search) + if spec_matches_search(recs.last(), search) {
            seq![recs.len() - 1]
        } else {
            Seq::empty()
        }
    }
}

/// Indices of the records a search keeps, in display order.
pub fn matching_indices(records: &Vec<UploadRecord>, search: &str) -> (r: Vec<usize>)
    ensures
        r@.map_values(|u: usize| u as int) == matching_of(abs_seq(records@), search@),
{
    let ghost recs = abs_seq(records@);
    let mut r: Vec<usize> = Vec::new();
    let n = records.len();
    let mut i: usize = 0;
    proof {
        assert(r@.map_values(|u: usize| u as int) =~= Seq::<int>::empty());
        assert(recs.take(0) =~= Seq::<RecordAbs>::empty());
        assert(r@.map_values(|u: usize| u as int) =~= matching_of(recs.take(0), search@));
    }
    while i < n
        invariant
            n == records@.len(),
            recs == abs_seq(records@),
            i <= n,
            r@.map_values(|u: usize| u as int) == matching_of(recs.take(i as int), search@),
        decreases n - i,
    {
        let ghost pre = r@.map_values(|u: usize| u as int);
        if record_matches_search(&records[i], search) {
            r.push(i);
            proof {
                assert(r@.map_values(|u: usize| u as int) =~= pre.push(i as int));
            }
        }
        proof {
            assert(recs.take(i + 1).drop_last() =~= recs.take(i as int));
            assert(recs.take(i + 1).last() == recs[i as int]);
            assert(recs.take(i + 1).len() - 1 == i as int);
            assert(r@.map_values(|u: usize| u as int) =~= matching_of(recs.take(i + 1), search@));
        }
        i = i + 1;
    }
    proof {
        assert(recs.take(n as int) =~= recs);
    }
    r
}

/// The display order flipped, for the oldest-first toggle.
pub fn reversed_indices(v: &Vec<usize>) -> (r: Vec<usize>)
    ensures
        r@ == v@.reverse(),
{
    let n = v.len();
    let mut r: Vec<usize> = Vec::new();
    let mut i: usize = 0;
    while i < n
        invariant
            n == v@.len(),
            i <= n,
            r@.len() == i,
            forall|j: int| 0 <= j < i ==> r@[j] == v@[n - 1 - j],
        decreases n - i,
    {
        r.push(v[n - 1 - i]);
        i = i + 1;
    }
    proof {
        assert(r@ =~= v@.reverse());
    }
    r
}

/// Whether some record has exactly this remote name.
pub fn remote_name_exists(records: &Vec<UploadRecord>, name: &str) -> (r: bool)
    ensures
        r == exists|i: int|
            0 <= i < abs_seq(records@).len() && (#[trigger] abs_seq(records@)[i]).remote_path
                == name@,
{
    let n = records.len();
    let mut i: usize = 0;
    while i < n
        invariant
            n == records@.len(),
            i <= n,
            forall|j: int| 0 <= j < i ==> (#[trigger] abs_seq(records@)[j]).remote_path != name@,
        decreases n - i,
    {
        let rv = text::chars_of(records[i].remote_path.as_str());
        let nv = text::chars_of(name);
        if eq_chars(&rv, &nv) {
            proof {
                assert(abs_seq(records@)[i as int].remote_path == name@);
            }
            return true;
        }
        i = i + 1;
    }
    false
}

fn eq_chars(a: &Vec<char>, b: &Vec<char>) -> (r: bool)
    ensures
        r == (a@ == b@),
{
    if a.len() != b.len() {
        return false;
    }
    let n = a.len();
    let mut i: usize = 0;
    while i < n
        invariant
            n == a@.len() == b@.len(),
            i <= n,
            forall|j: int| 0 <= j < i ==> a@[j] == b@[j],
        decreases n - i,
    {
        if a[i] != b[i] {
            return false;
        }
        i = i + 1;
    }
    proof {
        assert(a@ =~= b@);
    }
    true
}

/// A long hash shortened for display: first eight characters, an
/// ellipsis, last eight.  A short hash is shown whole.
pub open spec fn spec_short_hash(h: Seq<char>) -> Seq<char> {
    if h.len() > 16 {
        h.take(8) + "..."@ + h.skip(h.len() - 8)
    } else {
        h
    }
}

pub fn short_hash(h: &str) -> (r: String)
    ensures
        r@ == spec_short_hash(h@),
{
    let hv = text::chars_of(h);
    let n = hv.len();
    if n > 16 {
        let head = h.substring_char(0, 8);
        let tail = h.substring_char(n - 8, n);
        let mut out = head.to_owned();
        out.append("...");
        out.append(tail);
        proof {
            assert(h@.subrange(0, 8) =~= h@.take(8));
            assert(h@.subrange(n - 8, n as int) =~= h@.skip(n - 8));
        }
        out
    } else {
        h.to_owned()
    }
}

/// State of the uploads list: the records last loaded, the search text,
/// and whether a load is pending.  When the last load happened is the
/// shell's clock concern; the shell hands the elapsed seconds to
/// [`refresh_due`].
pub struct ListUploadsState {
    pub uploads: Vec<UploadRecord>,
    pub search: String,
    pub is_loading: bool,
}

impl Default for ListUploadsState {
    fn default() -> (r: ListUploadsState)
        ensures
            r.uploads@.len() == 0,
            r.search@ == Seq::<char>::empty(),
            r.is_loading,
    {
        ListUploadsState { uploads: Vec::new(), search: String::new(), is_loading: true }
    }
}

/// The list refreshes when the last refresh is stale or a load was
/// already pending.
pub fn refresh_due(elapsed_secs: u64, is_loading: bool) -> (r: bool)
    ensures
        r == (elapsed_secs > 10 || is_loading),
{
    elapsed_secs > 10 || is_loading
}

/// Where a search term first occurs in a display text, ASCII-case-
/// insensitively: the text before the occurrence, the occurrence itself
/// as written, and the text after it — or nothing, when the term does
/// not occur.
pub fn split_for_highlight(display: &str, search: &str) -> (r: Option<(String, String, String)>)
    ensures
        match r {
            Some(parts) => {
                &&& text::first_match_ci(display@, search@, 0) matches Some(m) && parts.0@
                    == display@.take(m) && parts.1@ == display@.subrange(m, m + search@.len())
                    && parts.2@ == display@.skip(m + search@.len())
            },
            None => text::first_match_ci(display@, search@, 0) is None,
        },
{
    let dv = text::chars_of(display);
    let sv = text::chars_of(search);
    match text::find_ci_from(&dv, &sv, 0) {
        Some(m) => {
            let n = dv.len();
            proof {
                text::lemma_first_match_ci_found(dv@, sv@, 0, m as int);
                assert(m + sv@.len() <= n);
            }
            let before = display.substring_char(0, m);
            let matched = display.substring_char(m, m + sv.len());
            let after = display.substring_char(m + sv.len(), dv.len());
            proof {
                assert(display@.subrange(0, m as int) =~= display@.take(m as int));
                assert(display@.subrange(
                    m + sv@.len() as int,
                    display@.len() as int,
                ) =~= display@.skip(m + sv@.len() as int));
            }
            Some((before.to_owned(), matched.to_owned(), after.to_owned()))
        },
        None => {
            proof {
                text::lemma_first_match_ci_none(dv@, sv@, 0);
            }
            None
        },
    }
}

/// The icon class of a record's status text.
pub enum StatusKind {
    Succeeded,
    Failed,
    Pending,
}

/// Classify a record status text, ASCII-case-insensitively: success wins,
/// then failure or error, else pending.
pub fn classify_record_status(status: &str) -> (r: StatusKind)
    ensures
        r == (if text::contains_ci(status@, "success"@) {
            StatusKind::Succeeded
        } else if (text::contains_ci(status@, "failed"@) || text::contains_ci(status@, "error"@)) {
            StatusKind::Failed
        } else {
            StatusKind::Pending
        }),
{
    let sv = text::chars_of(status);
    let succ = text::chars_of("success");
    let fail = text::chars_of("failed");
    let err = text::chars_of("error");
    if text::contains_ci_exec(&sv, &succ) {
        return StatusKind::Succeeded;
    }
    if text::contains_ci_exec(&sv, &fail) || text::contains_ci_exec(&sv, &err) {
        StatusKind::Failed
    } else {
        StatusKind::Pending
    }
}

} // verus!
