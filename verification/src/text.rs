//! Character-sequence utilities shared by the scanning modules.
//!
//! Everything here is defined over `Seq<char>` views; executable code walks
//! `Vec<char>` copies obtained from `&str` via [`chars_of`].  Whitespace is
//! the ASCII set (space, tab, carriage return, line feed) and case folding
//! is ASCII-only.

use vstd::prelude::*;
use vstd::string::*;

verus! {

/// ASCII whitespace, the set recognised when lines are trimmed.
pub open spec fn is_space(c: char) -> bool {
    c == ' ' || c == '\t' || c == '\r' || c == '\n'
}

/// ASCII decimal digit.
pub open spec fn is_digit(c: char) -> bool {
    48 <= (c as u32) && (c as u32) <= 57
}

/// ASCII-case-insensitive character equality.
pub open spec fn eqi_char(a: char, b: char) -> bool {
    a == b || (65 <= (a as u32) <= 90 && (b as u32) == (a as u32) + 32) || (65 <= (b as u32) <= 90
        && (a as u32) == (b as u32) + 32)
}

/// `p` occurs in `s` starting at index `i`.
pub open spec fn match_at(s: Seq<char>, p: Seq<char>, i: int) -> bool {
    0 <= i && i + p.len() <= s.len() && s.subrange(i, i + p.len() as int) == p
}

/// `p` occurs in `s` starting at index `i`, compared ASCII-case-insensitively.
pub open spec fn match_at_ci(s: Seq<char>, p: Seq<char>, i: int) -> bool {
    0 <= i && i + p.len() <= s.len() && forall|k: int|
        0 <= k < p.len() ==> eqi_char(s[i + k], p[k])
}

pub open spec fn starts_with(s: Seq<char>, p: Seq<char>) -> bool {
    match_at(s, p, 0)
}

pub open spec fn ends_with(s: Seq<char>, p: Seq<char>) -> bool {
    match_at(s, p, s.len() - p.len())
}

pub open spec fn contains_seq(s: Seq<char>, p: Seq<char>) -> bool {
    exists|i: int| match_at(s, p, i)
}

/// Number of leading ASCII-whitespace characters.
pub open spec fn lead_spaces(s: Seq<char>) -> int
    decreases s.len(),
{
    if s.len() == 0 || !is_space(s[0]) {
        0
    } else {
        1 + lead_spaces(s.drop_first())
    }
}

/// Number of trailing ASCII-whitespace characters.
pub open spec fn tail_spaces(s: Seq<char>) -> int
    decreases s.len(),
{
    if s.len() == 0 || !is_space(s[s.len() - 1]) {
        0
    } else {
        1 + tail_spaces(s.drop_last())
    }
}

/// `s` with leading and trailing ASCII whitespace removed.
pub open spec fn trimmed(s: Seq<char>) -> Seq<char> {
    if lead_spaces(s) == s.len() {
        Seq::empty()
    } else {
        s.subrange(lead_spaces(s), s.len() - tail_spaces(s))
    }
}

proof fn lemma_lead_spaces_bound(s: Seq<char>)
    ensures
        0 <= lead_spaces(s) <= s.len(),
        forall|j: int| 0 <= j < lead_spaces(s) ==> is_space(s[j]),
        lead_spaces(s) < s.len() ==> !is_space(s[lead_spaces(s)]),
    decreases s.len(),
{
    if s.len() > 0 && is_space(s[0]) {
        lemma_lead_spaces_bound(s.drop_first());
        assert forall|j: int| 0 <= j < lead_spaces(s) implies is_space(s[j]) by {
            if j > 0 {
                assert(is_space(s.drop_first()[j - 1]));
            }
        }
    }
}

proof fn lemma_tail_spaces_bound(s: Seq<char>)
    ensures
        0 <= tail_spaces(s) <= s.len(),
        forall|j: int| s.len() - tail_spaces(s) <= j < s.len() ==> is_space(s[j]),
        tail_spaces(s) < s.len() ==> !is_space(s[s.len() - 1 - tail_spaces(s)]),
    decreases s.len(),
{
    if s.len() > 0 && is_space(s[s.len() - 1]) {
        lemma_tail_spaces_bound(s.drop_last());
        assert forall|j: int| s.len() - tail_spaces(s) <= j < s.len() implies is_space(s[j]) by {
            if j < s.len() - 1 {
                assert(is_space(s.drop_last()[j]));
            }
        }
    }
}

/// A scan that stops at the first non-space pins down `lead_spaces`.
proof fn lemma_lead_spaces_exact(s: Seq<char>, i: int)
    requires
        0 <= i <= s.len(),
        forall|j: int| 0 <= j < i ==> is_space(s[j]),
        i < s.len() ==> !is_space(s[i]),
    ensures
        lead_spaces(s) == i,
    decreases s.len(),
{
    if s.len() == 0 {
    } else if i == 0 {
        if is_space(s[0]) {
            lemma_lead_spaces_bound(s);
        }
    } else {
        assert(is_space(s[0]));
        assert(forall|j: int| 0 <= j < i - 1 ==> is_space(#[trigger] s.drop_first()[j]));
        lemma_lead_spaces_exact(s.drop_first(), i - 1);
    }
}

proof fn lemma_tail_spaces_exact(s: Seq<char>, i: int)
    requires
        0 <= i <= s.len(),
        forall|j: int| s.len() - i <= j < s.len() ==> is_space(s[j]),
        i < s.len() ==> !is_space(s[s.len() - 1 - i]),
    ensures
        tail_spaces(s) == i,
    decreases s.len(),
{
    if s.len() == 0 {
    } else if i == 0 {
        if is_space(s[s.len() - 1]) {
            lemma_tail_spaces_bound(s);
        }
    } else {
        assert(is_space(s[s.len() - 1]));
        assert(forall|j: int|
            s.drop_last().len() - (i - 1) <= j < s.drop_last().len() ==> is_space(
                #[trigger] s.drop_last()[j],
            ));
        lemma_tail_spaces_exact(s.drop_last(), i - 1);
    }
}

/// The characters of `s`, as an indexable vector.
pub fn chars_of(s: &str) -> (v: Vec<char>)
    ensures
        v@ == s@,
{
    let n = s.unicode_len();
    let mut v: Vec<char> = Vec::new();
    let mut i: usize = 0;
    while i < n
        invariant
            n == s@.len(),
            i <= n,
            v@ == s@.take(i as int),
        decreases n - i,
    {
        v.push(s.get_char(i));
        i = i + 1;
        proof {
            assert(v@ =~= s@.take(i as int));
        }
    }
    proof {
        assert(v@ =~= s@);
    }
    v
}

/// Whether `c` is ASCII whitespace.
pub fn space_char(c: char) -> (r: bool)
    ensures
        r == is_space(c),
{
    c == ' ' || c == '\t' || c == '\r' || c == '\n'
}

/// Whether `c` is an ASCII digit.
pub fn digit_char(c: char) -> (r: bool)
    ensures
        r == is_digit(c),
{
    let u = c as u32;
    48 <= u && u <= 57
}

fn eqi_char_exec(a: char, b: char) -> (r: bool)
    ensures
        r == eqi_char(a, b),
{
    let ua = a as u32;
    let ub = b as u32;
    a == b || (65 <= ua && ua <= 90 && ub == ua + 32) || (65 <= ub && ub <= 90 && ua == ub + 32)
}

/// Whether `p` occurs in `v` at index `i`.
pub fn match_at_exec(v: &Vec<char>, p: &Vec<char>, i: usize) -> (r: bool)
    requires
        i <= v@.len(),
    ensures
        r == match_at(v@, p@, i as int),
{
    let n = v.len();
    if n - i < p.len() {
        proof {
            assert(!match_at(v@, p@, i as int));
        }
        return false;
    }
    let mut k: usize = 0;
    while k < p.len()
        invariant
            n == v@.len(),
            i + p@.len() <= n,
            k <= p@.len(),
            forall|j: int| 0 <= j < k ==> v@[i + j] == p@[j],
        decreases p@.len() - k,
    {
        if v[i + k] != p[k] {
            proof {
                assert(v@.subrange(i as int, i + p@.len() as int)[k as int] != p@[k as int]);
            }
            return false;
        }
        k = k + 1;
    }
    proof {
        assert(v@.subrange(i as int, i + p@.len() as int) =~= p@);
    }
    true
}

/// First index at or after `from` where `p` occurs in `v`.
pub fn find_from(v: &Vec<char>, p: &Vec<char>, from: usize) -> (r: Option<usize>)
    requires
        from <= v@.len(),
    ensures
        match r {
            Some(i) => from <= i && match_at(v@, p@, i as int) && forall|j: int|
                from <= j < i ==> !match_at(v@, p@, j),
            None => forall|j: int| from <= j ==> !match_at(v@, p@, j),
        },
{
    let n = v.len();
    if p.len() > n {
        proof {
            assert(forall|j: int| j >= from ==> !match_at(v@, p@, j));
        }
        return None;
    }
    if p.len() == 0 {
        proof {
            assert(v@.subrange(from as int, from as int) =~= p@);
        }
        return Some(from);
    }
    let last = n - p.len();
    let mut i: usize = from;
    while i <= last
        invariant
            n == v@.len(),
            0 < p@.len() <= n,
            last == n - p@.len(),
            from <= i,
            forall|j: int| from <= j < i ==> !match_at(v@, p@, j),
        decreases last + 1 - i,
    {
        if match_at_exec(v, p, i) {
            return Some(i);
        }
        i = i + 1;
    }
    proof {
        assert(forall|j: int| j > last ==> !match_at(v@, p@, j));
    }
    None
}

/// Whether `p` occurs anywhere in `v`.
pub fn contains_exec(v: &Vec<char>, p: &Vec<char>) -> (r: bool)
    ensures
        r == contains_seq(v@, p@),
{
    match find_from(v, p, 0) {
        Some(_) => true,
        None => {
            proof {
                assert(forall|j: int| match_at(v@, p@, j) ==> j >= 0);
            }
            false
        },
    }
}

/// Whether `v` starts with `p`.
pub fn starts_with_exec(v: &Vec<char>, p: &Vec<char>) -> (r: bool)
    ensures
        r == starts_with(v@, p@),
{
    match_at_exec(v, p, 0)
}

/// Whether `v` ends with `p`.
pub fn ends_with_exec(v: &Vec<char>, p: &Vec<char>) -> (r: bool)
    ensures
        r == ends_with(v@, p@),
{
    if p.len() > v.len() {
        proof {
            assert(!ends_with(v@, p@));
        }
        return false;
    }
    match_at_exec(v, p, v.len() - p.len())
}

/// First index at or after `from` where `p` occurs case-insensitively.
pub fn find_ci_from(v: &Vec<char>, p: &Vec<char>, from: usize) -> (r: Option<usize>)
    requires
        from <= v@.len(),
    ensures
        match r {
            Some(i) => from <= i && match_at_ci(v@, p@, i as int) && forall|j: int|
                from <= j < i ==> !match_at_ci(v@, p@, j),
            None => forall|j: int| from <= j ==> !match_at_ci(v@, p@, j),
        },
{
    let n = v.len();
    if p.len() > n {
        proof {
            assert(forall|j: int| j >= from ==> !match_at_ci(v@, p@, j));
        }
        return None;
    }
    if p.len() == 0 {
        return Some(from);
    }
    let last = n - p.len();
    let mut i: usize = from;
    while i <= last
        invariant
            n == v@.len(),
            0 < p@.len() <= n,
            last == n - p@.len(),
            from <= i,
            forall|j: int| from <= j < i ==> !match_at_ci(v@, p@, j),
        decreases last + 1 - i,
    {
        if match_at_ci_exec(v, p, i) {
            return Some(i);
        }
        i = i + 1;
    }
    proof {
        assert(forall|j: int| j > last ==> !match_at_ci(v@, p@, j));
    }
    None
}

/// `p` occurs somewhere in `s`, compared ASCII-case-insensitively.
pub open spec fn contains_ci(s: Seq<char>, p: Seq<char>) -> bool {
    exists|i: int| match_at_ci(s, p, i)
}

/// Whether `p` occurs anywhere in `v`, ASCII-case-insensitively.
pub fn contains_ci_exec(v: &Vec<char>, p: &Vec<char>) -> (r: bool)
    ensures
        r == contains_ci(v@, p@),
{
    match find_ci_from(v, p, 0) {
        Some(i) => {
            proof {
                assert(match_at_ci(v@, p@, i as int));
            }
            true
        },
        None => {
            proof {
                assert(forall|j: int| match_at_ci(v@, p@, j) ==> 0 <= j);
            }
            false
        },
    }
}

fn match_at_ci_exec(v: &Vec<char>, p: &Vec<char>, i: usize) -> (r: bool)
    requires
        i <= v@.len(),
    ensures
        r == match_at_ci(v@, p@, i as int),
{
    let n = v.len();
    if n - i < p.len() {
        return false;
    }
    let mut k: usize = 0;
    while k < p.len()
        invariant
            n == v@.len(),
            i + p@.len() <= n,
            k <= p@.len(),
            forall|j: int| 0 <= j < k ==> eqi_char(v@[i + j], p@[j]),
        decreases p@.len() - k,
    {
        if !eqi_char_exec(v[i + k], p[k]) {
            return false;
        }
        k = k + 1;
    }
    true
}

/// Leftmost index where `p` occurs in `s` ASCII-case-insensitively, if
/// any.
pub open spec fn first_match_ci(s: Seq<char>, p: Seq<char>, i: int) -> Option<int>
    decreases s.len() - i,
    when 0 <= i <= s.len()
{
    if match_at_ci(s, p, i) {
        Some(i)
    } else if i < s.len() {
        first_match_ci(s, p, i + 1)
    } else {
        None
    }
}

/// A found `find_ci_from` result is the leftmost one.
pub proof fn lemma_first_match_ci_found(s: Seq<char>, p: Seq<char>, i: int, m: int)
    requires
        0 <= i <= m <= s.len(),
        match_at_ci(s, p, m),
        forall|j: int| i <= j < m ==> !match_at_ci(s, p, j),
    ensures
        first_match_ci(s, p, i) == Some(m),
    decreases m - i,
{
    if i < m {
        lemma_first_match_ci_found(s, p, i + 1, m);
    }
}

/// No match anywhere means no leftmost match.
pub proof fn lemma_first_match_ci_none(s: Seq<char>, p: Seq<char>, i: int)
    requires
        0 <= i <= s.len(),
        forall|j: int| i <= j ==> !match_at_ci(s, p, j),
    ensures
        first_match_ci(s, p, i) is None,
    decreases s.len() - i,
{
    if i < s.len() {
        lemma_first_match_ci_none(s, p, i + 1);
    }
}

/// Bounds of the ASCII-trimmed middle of `v`: `v@.subrange(lo, hi) == trimmed(v@)`.
pub fn trim_bounds(v: &Vec<char>) -> (r: (usize, usize))
    ensures
        r.0 <= r.1 <= v@.len(),
        v@.subrange(r.0 as int, r.1 as int) == trimmed(v@),
{
    let n = v.len();
    let mut lo: usize = 0;
    while lo < n && space_char(v[lo])
        invariant
            n == v@.len(),
            lo <= n,
            forall|j: int| 0 <= j < lo ==> is_space(v@[j]),
        decreases n - lo,
    {
        lo = lo + 1;
    }
    proof {
        lemma_lead_spaces_exact(v@, lo as int);
    }
    if lo == n {
        proof {
            assert(v@.subrange(lo as int, lo as int) =~= Seq::<char>::empty());
        }
        return (lo, lo);
    }
    let mut hi: usize = n;
    while hi > lo && space_char(v[hi - 1])
        invariant
            n == v@.len(),
            lo <= hi <= n,
            lo < n,
            !is_space(v@[lo as int]),
            forall|j: int| hi <= j < n ==> is_space(v@[j]),
        decreases hi,
    {
        hi = hi - 1;
    }
    proof {
        assert(!is_space(v@[hi - 1]));
        lemma_tail_spaces_exact(v@, n - hi);
        assert(lead_spaces(v@) < v@.len());
    }
    (lo, hi)
}

/// The ASCII-trimmed middle of `s`, as a fresh string.
pub fn trim_str(s: &str, v: &Vec<char>) -> (r: String)
    requires
        v@ == s@,
    ensures
        r@ == trimmed(s@),
{
    let (lo, hi) = trim_bounds(v);
    let t = s.substring_char(lo, hi);
    t.to_owned()
}

} // verus!
