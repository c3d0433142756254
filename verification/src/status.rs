//! The status text of one running action, and its completion protocol.
//!
//! A `StatusBuffer` is an ordered sequence of lines.  Plain lines are
//! appended and never removed; a progress event removes every line that
//! carries the progress marker and appends a single fresh marker-prefixed
//! line, so that at most one progress figure is ever shown.  An
//! `ActionStatus` couples the buffer with the completion flag that a
//! polling consumer watches: it is set exactly once, when the child
//! process has fully exited.

use vstd::prelude::*;
use vstd::string::*;

use crate::text;

verus! {

/// Marker put in front of the transient progress line.
pub open spec fn progress_marker() -> Seq<char> {
    "[PROGRESS] "@
}

/// A line that carries the progress marker (with or without the trailing
/// space; removal is by the bracketed prefix alone).
pub open spec fn is_progress_line(l: Seq<char>) -> bool {
    text::starts_with(l, "[PROGRESS]"@)
}

/// The single line a progress event leaves in the buffer.
pub open spec fn progress_line_of(value: Seq<char>) -> Seq<char> {
    progress_marker() + value
}

/// The plain (non-progress) lines of a buffer, in order.
pub open spec fn plain_lines(lines: Seq<Seq<char>>) -> Seq<Seq<char>> {
    lines.filter(|l: Seq<char>| !is_progress_line(l))
}

/// Effect of a progress event on the line sequence.
pub open spec fn spec_set_progress(lines: Seq<Seq<char>>, value: Seq<char>) -> Seq<Seq<char>> {
    plain_lines(lines).push(progress_line_of(value))
}

/// One mutation of a status buffer: a permanent log line or a transient
/// progress event.
pub enum StatusEvent {
    Plain { line: Seq<char> },
    Progress { value: Seq<char> },
}

/// Effect of one event on the line sequence.
pub open spec fn apply_event(lines: Seq<Seq<char>>, ev: StatusEvent) -> Seq<Seq<char>> {
    match ev {
        StatusEvent::Plain { line } => lines.push(line),
        StatusEvent::Progress { value } => spec_set_progress(lines, value),
    }
}

/// Effect of a sequence of events, applied in order.
pub open spec fn apply_events(lines: Seq<Seq<char>>, evs: Seq<StatusEvent>) -> Seq<Seq<char>>
    decreases evs.len(),
{
    if evs.len() == 0 {
        lines
    } else {
        apply_events(apply_event(lines, evs[0]), evs.drop_first())
    }
}

/// Keeping the plain lines of a buffer extended by one line.
proof fn lemma_plain_push(s: Seq<Seq<char>>, x: Seq<char>)
    ensures
        plain_lines(s.push(x)) == if !is_progress_line(x) {
            plain_lines(s).push(x)
        } else {
            plain_lines(s)
        },
{
    reveal(Seq::filter);
    assert(s.push(x).drop_last() =~= s);
}

proof fn lemma_plain_empty()
    ensures
        plain_lines(Seq::<Seq<char>>::empty()) == Seq::<Seq<char>>::empty(),
{
    reveal(Seq::filter);
}

/// Counting the marker lines of a buffer extended by one line.
proof fn lemma_count_push(s: Seq<Seq<char>>, x: Seq<char>)
    ensures
        progress_count(s.push(x)) == progress_count(s) + if is_progress_line(x) {
            1int
        } else {
            0int
        },
{
    reveal(Seq::filter);
    assert(s.push(x).drop_last() =~= s);
}

proof fn lemma_count_empty()
    ensures
        progress_count(Seq::<Seq<char>>::empty()) == 0,
{
    reveal(Seq::filter);
}

/// Every line that `plain_lines` keeps is a plain one.
proof fn lemma_plain_sound(s: Seq<Seq<char>>)
    ensures
        forall|i: int|
            0 <= i < plain_lines(s).len() ==> !is_progress_line(#[trigger] plain_lines(s)[i]),
    decreases s.len(),
{
    if s.len() == 0 {
        assert(s =~= Seq::<Seq<char>>::empty());
        lemma_plain_empty();
    } else {
        let s0 = s.drop_last();
        lemma_plain_sound(s0);
        assert(s =~= s0.push(s.last()));
        lemma_plain_push(s0, s.last());
        if !is_progress_line(s.last()) {
            assert(forall|i: int|
                0 <= i < plain_lines(s0).len() ==> plain_lines(s)[i] == #[trigger] plain_lines(
                    s0,
                )[i]);
        }
    }
}

/// A buffer of plain lines only is left unchanged by `plain_lines` and
/// holds no marker line.
proof fn lemma_all_plain(p: Seq<Seq<char>>)
    requires
        forall|i: int| 0 <= i < p.len() ==> !is_progress_line(#[trigger] p[i]),
    ensures
        plain_lines(p) == p,
        progress_count(p) == 0,
    decreases p.len(),
{
    if p.len() == 0 {
        assert(p =~= Seq::<Seq<char>>::empty());
        lemma_plain_empty();
        lemma_count_empty();
    } else {
        let p0 = p.drop_last();
        assert(forall|i: int| 0 <= i < p0.len() ==> !is_progress_line(#[trigger] p0[i]));
        lemma_all_plain(p0);
        assert(p =~= p0.push(p.last()));
        lemma_plain_push(p0, p.last());
        lemma_count_push(p0, p.last());
    }
}

/// The ordered status text of one action.
pub struct StatusBuffer {
    pub lines: Vec<String>,
}

impl StatusBuffer {
    pub open spec fn view(self) -> Seq<Seq<char>> {
        self.lines.deep_view()
    }

    pub fn new() -> (r: StatusBuffer)
        ensures
            r@ == Seq::<Seq<char>>::empty(),
    {
        let r = StatusBuffer { lines: Vec::new() };
        proof {
            assert(r@ =~= Seq::<Seq<char>>::empty());
        }
        r
    }

    /// Append a permanent log line; nothing else moves.
    pub fn push_plain(&mut self, line: String)
        ensures
            final(self)@ == old(self)@.push(line@),
    {
        self.lines.push(line);
        proof {
            assert(self@ =~~= old(self)@.push(line@));
        }
    }

    /// A progress event: drop every marker-prefixed line, then append the
    /// fresh value behind the marker.
    pub fn set_progress(&mut self, value: &str)
        ensures
            final(self)@ == spec_set_progress(old(self)@, value@),
    {
        let mut kept: Vec<String> = Vec::new();
        let n = self.lines.len();
        let mut i: usize = 0;
        proof {
            assert(old(self)@.take(0) =~= Seq::<Seq<char>>::empty());
            lemma_plain_empty();
            assert(kept.deep_view() =~= plain_lines(old(self)@.take(0)));
        }
        while i < n
            invariant
                n == self.lines@.len(),
                self@ == old(self)@,
                i <= n,
                kept.deep_view() == plain_lines(old(self)@.take(i as int)),
            decreases n - i,
        {
            let ghost pre = kept.deep_view();
            let line = &self.lines[i];
            let lv = text::chars_of(line.as_str());
            let marker = text::chars_of("[PROGRESS]");
            if !text::starts_with_exec(&lv, &marker) {
                let kept_line = line.clone();
                kept.push(kept_line);
                proof {
                    assert(kept.deep_view() =~~= pre.push(line@));
                }
            }
            proof {
                let prev = old(self)@.take(i as int);
                let x = old(self)@[i as int];
                assert(old(self)@.take(i + 1) =~= prev.push(x));
                lemma_plain_push(prev, x);
            }
            i = i + 1;
        }
        let mut fresh = String::from_str("[PROGRESS] ");
        fresh.append(value);
        kept.push(fresh);
        self.lines = kept;
        proof {
            assert(old(self)@.take(n as int) =~= old(self)@);
            assert(self@ =~~= spec_set_progress(old(self)@, value@));
        }
    }

    /// Apply one already-classified event.
    pub fn apply(&mut self, ev: &crate::progress::LineClass)
        ensures
            final(self)@ == apply_event(old(self)@, ev.abs()),
    {
        match ev {
            crate::progress::LineClass::Progress { value } => {
                self.set_progress(value.as_str());
            },
            crate::progress::LineClass::Plain { line } => {
                self.push_plain(line.clone());
            },
        }
    }

    /// An immutable snapshot for the polling consumer.
    pub fn snapshot(&self) -> (r: Vec<String>)
        ensures
            r.deep_view() == self@,
    {
        let mut r: Vec<String> = Vec::new();
        let n = self.lines.len();
        let mut i: usize = 0;
        proof {
            assert(r.deep_view() =~= self@.take(0));
        }
        while i < n
            invariant
                n == self.lines@.len(),
                i <= n,
                r.deep_view() == self@.take(i as int),
            decreases n - i,
        {
            let ghost pre = r.deep_view();
            r.push(self.lines[i].clone());
            proof {
                assert(r.deep_view() =~~= pre.push(self@[i as int]));
                assert(r.deep_view() =~= self@.take(i + 1));
            }
            i = i + 1;
        }
        proof {
            assert(self@.take(n as int) =~= self@);
        }
        r
    }
}

/// Status buffer plus the completion flag of one action.  The flag moves
/// from `false` to `true` exactly once, by one of the `resolve` methods,
/// after which the buffer is never touched again.
pub struct ActionStatus {
    pub buf: StatusBuffer,
    pub completed: bool,
}

impl ActionStatus {
    pub fn new() -> (r: ActionStatus)
        ensures
            r.buf@ == Seq::<Seq<char>>::empty(),
            !r.completed,
    {
        ActionStatus { buf: StatusBuffer::new(), completed: false }
    }

    /// Feed one output line while the action runs.
    pub fn update(&mut self, ev: &crate::progress::LineClass)
        requires
            !old(self).completed,
        ensures
            final(self).buf@ == apply_event(old(self).buf@, ev.abs()),
            !final(self).completed,
    {
        self.buf.apply(ev);
    }

    /// Terminal step on failure: append a line that carries the captured
    /// diagnostic text, then resolve the flag.  The diagnostic is embedded
    /// verbatim, so the final line contains it as a contiguous substring.
    pub fn resolve_failure(&mut self, prefix: &str, diag: &str)
        requires
            !old(self).completed,
        ensures
            final(self).completed,
            final(self).buf@ == old(self).buf@.push(prefix@ + diag@),
            final(self).buf@.len() > 0,
            final(self).buf@.last() == prefix@ + diag@,
            text::contains_seq(final(self).buf@.last(), diag@),
    {
        let mut line = String::from_str(prefix);
        line.append(diag);
        self.buf.push_plain(line);
        self.completed = true;
        proof {
            assert(text::match_at(prefix@ + diag@, diag@, prefix@.len() as int)) by {
                assert((prefix@ + diag@).subrange(
                    prefix@.len() as int,
                    prefix@.len() + diag@.len() as int,
                ) =~= diag@);
            }
        }
    }

    /// Terminal step on success: append a closing line, then resolve.
    pub fn resolve_success(&mut self, line: String)
        requires
            !old(self).completed,
        ensures
            final(self).completed,
            final(self).buf@ == old(self).buf@.push(line@),
    {
        self.buf.push_plain(line);
        self.completed = true;
    }

    /// Terminal step when the child could not be spawned: the error text
    /// still reaches the buffer and the flag still resolves, so a polling
    /// consumer never waits forever.
    pub fn resolve_spawn_error(&mut self, err: &str)
        requires
            !old(self).completed,
        ensures
            final(self).completed,
            final(self).buf@ == old(self).buf@.push("\u{274c} Failed to run CLI: "@ + err@),
            text::contains_seq(final(self).buf@.last(), err@),
    {
        self.resolve_failure("\u{274c} Failed to run CLI: ", err);
    }
}

/// The marker line itself is recognised as a progress line.
pub proof fn lemma_progress_line_marked(value: Seq<char>)
    ensures
        is_progress_line(progress_line_of(value)),
{
    reveal_strlit("[PROGRESS] ");
    reveal_strlit("[PROGRESS]");
    assert(progress_line_of(value).subrange(0, 10) =~= "[PROGRESS]"@);
}

/// After a progress event the plain lines are exactly those before it.
pub proof fn lemma_plain_lines_of_set_progress(lines: Seq<Seq<char>>, value: Seq<char>)
    ensures
        plain_lines(spec_set_progress(lines, value)) == plain_lines(lines),
{
    lemma_progress_line_marked(value);
    lemma_plain_push(plain_lines(lines), progress_line_of(value));
    lemma_plain_sound(lines);
    lemma_all_plain(plain_lines(lines));
}

/// Two consecutive progress events collapse: only the second one's value
/// remains, in a single marker line placed after all plain lines present
/// before either event.
pub proof fn lemma_progress_events_collapse(lines: Seq<Seq<char>>, v1: Seq<char>, v2: Seq<char>)
    ensures
        spec_set_progress(spec_set_progress(lines, v1), v2) == spec_set_progress(lines, v2),
        plain_lines(spec_set_progress(lines, v2)) == plain_lines(lines),
        spec_set_progress(lines, v2).last() == progress_line_of(v2),
        progress_count(spec_set_progress(lines, v2)) == 1,
{
    lemma_plain_lines_of_set_progress(lines, v1);
    lemma_plain_lines_of_set_progress(lines, v2);
    lemma_set_progress_shape(lines, v2);
}

/// Number of marker lines in a buffer.
pub open spec fn progress_count(lines: Seq<Seq<char>>) -> int {
    lines.filter(|l: Seq<char>| is_progress_line(l)).len() as int
}

pub open spec fn is_progress_event(ev: StatusEvent) -> bool {
    match ev {
        StatusEvent::Progress { value } => true,
        StatusEvent::Plain { line } => false,
    }
}

pub open spec fn event_value(ev: StatusEvent) -> Seq<char> {
    match ev {
        StatusEvent::Progress { value } => value,
        StatusEvent::Plain { line } => line,
    }
}

/// The plain lines contributed by a list of events, in order.
pub open spec fn plain_event_lines(evs: Seq<StatusEvent>) -> Seq<Seq<char>>
    decreases evs.len(),
{
    if evs.len() == 0 {
        Seq::empty()
    } else {
        match evs[0] {
            StatusEvent::Plain { line } => seq![line] + plain_event_lines(evs.drop_first()),
            StatusEvent::Progress { value } => plain_event_lines(evs.drop_first()),
        }
    }
}

proof fn lemma_apply_event_plain(lines: Seq<Seq<char>>, ev: StatusEvent)
    ensures
        match ev {
            StatusEvent::Plain { line } => !is_progress_line(line) ==> plain_lines(
                apply_event(lines, ev),
            ) == plain_lines(lines).push(line),
            StatusEvent::Progress { value } => plain_lines(apply_event(lines, ev)) == plain_lines(
                lines,
            ),
        },
{
    match ev {
        StatusEvent::Plain { line } => {
            if !is_progress_line(line) {
                lemma_plain_push(lines, line);
            }
        },
        StatusEvent::Progress { value } => {
            lemma_plain_lines_of_set_progress(lines, value);
        },
    }
}

/// A progress event leaves exactly one marker line, and it is last.
proof fn lemma_set_progress_shape(lines: Seq<Seq<char>>, value: Seq<char>)
    ensures
        progress_count(spec_set_progress(lines, value)) == 1,
        spec_set_progress(lines, value).last() == progress_line_of(value),
{
    lemma_progress_line_marked(value);
    let p = plain_lines(lines);
    lemma_plain_sound(lines);
    lemma_all_plain(p);
    lemma_count_push(p, progress_line_of(value));
}

/// Interleaved plain and progress events preserve the relative order of
/// the plain lines, and whenever the last event was a progress event the
/// buffer ends in that event's single marker line and holds no other.
pub proof fn lemma_interleaving(lines: Seq<Seq<char>>, evs: Seq<StatusEvent>)
    requires
        forall|i: int|
            0 <= i < evs.len() ==> (is_progress_event(#[trigger] evs[i]) || !is_progress_line(
                event_value(evs[i]),
            )),
    ensures
        plain_lines(apply_events(lines, evs)) == plain_lines(lines) + plain_event_lines(evs),
        evs.len() > 0 && is_progress_event(evs.last()) ==> apply_events(lines, evs).last()
            == progress_line_of(event_value(evs.last())) && progress_count(
            apply_events(lines, evs),
        ) == 1,
    decreases evs.len(),
{
    if evs.len() == 0 {
        assert(plain_event_lines(evs) =~= Seq::<Seq<char>>::empty());
        assert(plain_lines(lines) + plain_event_lines(evs) =~= plain_lines(lines));
    } else {
        let ev0 = evs[0];
        let rest = evs.drop_first();
        let lines1 = apply_event(lines, ev0);
        assert(forall|i: int|
            0 <= i < rest.len() ==> (is_progress_event(#[trigger] rest[i]) || !is_progress_line(
                event_value(rest[i]),
            ))) by {
            assert(forall|i: int| 0 <= i < rest.len() ==> rest[i] == evs[i + 1]);
        }
        lemma_interleaving(lines1, rest);
        lemma_apply_event_plain(lines, ev0);
        match ev0 {
            StatusEvent::Plain { line } => {
                assert(plain_lines(lines).push(line) =~= plain_lines(lines) + seq![line]);
                assert(plain_lines(lines) + seq![line] + plain_event_lines(rest) =~= plain_lines(
                    lines,
                ) + (seq![line] + plain_event_lines(rest)));
            },
            StatusEvent::Progress { value } => {
            },
        }
        if rest.len() == 0 {
            assert(apply_events(lines1, rest) == lines1);
            assert(evs.last() == ev0);
            if is_progress_event(ev0) {
                lemma_set_progress_shape(lines, event_value(ev0));
            }
        } else {
            assert(evs.last() == rest.last());
        }
    }
}

} // verus!
