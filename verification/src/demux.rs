//! Incremental splitting of a raw byte stream into lines.
//!
//! One `StreamBuffer` accumulates the bytes read from one child-process
//! stream (stdout or stderr).  Bytes are split on CR or LF, a CRLF pair
//! counting as a single boundary, and the trailing fragment that is not yet
//! known to end in a terminator is carried into the next read.  The whole
//! behaviour is the fold of a one-byte step function, which is what makes
//! the chunk-size independence law provable.

use vstd::prelude::*;

verus! {

pub const LF: u8 = 10;

pub const CR: u8 = 13;

/// The abstract state of a splitter: the complete lines seen so far, the
/// unterminated trailing fragment, and whether the last byte was a CR
/// (so that an immediately following LF is swallowed).
#[verifier::ext_equal]
pub struct SplitState {
    pub lines: Seq<Seq<u8>>,
    pub frag: Seq<u8>,
    pub after_cr: bool,
}

impl SplitState {
    pub open spec fn init() -> SplitState {
        SplitState { lines: Seq::empty(), frag: Seq::empty(), after_cr: false }
    }
}

/// One byte of input applied to a split state.
pub open spec fn split_step(st: SplitState, b: u8) -> SplitState {
    if b == LF {
        if st.after_cr {
            SplitState { lines: st.lines, frag: st.frag, after_cr: false }
        } else {
            SplitState { lines: st.lines.push(st.frag), frag: Seq::empty(), after_cr: false }
        }
    } else if b == CR {
        SplitState { lines: st.lines.push(st.frag), frag: Seq::empty(), after_cr: true }
    } else {
        SplitState { lines: st.lines, frag: st.frag.push(b), after_cr: false }
    }
}

/// A whole byte sequence applied to a split state, byte by byte.
pub open spec fn split_run(st: SplitState, input: Seq<u8>) -> SplitState
    decreases input.len(),
{
    if input.len() == 0 {
        st
    } else {
        split_run(split_step(st, input[0]), input.drop_first())
    }
}

/// Splitting is independent of how the input is cut into reads: running
/// two chunks in turn equals running their concatenation.  Together with
/// induction over a chunk list this says that any chunking of a byte
/// sequence yields the same lines as processing it whole.
pub proof fn lemma_split_run_append(st: SplitState, a: Seq<u8>, b: Seq<u8>)
    ensures
        split_run(st, a + b) == split_run(split_run(st, a), b),
    decreases a.len(),
{
    if a.len() == 0 {
        assert(a + b =~= b);
    } else {
        assert((a + b).drop_first() =~= a.drop_first() + b);
        lemma_split_run_append(split_step(st, a[0]), a.drop_first(), b);
    }
}

/// A list of reads, concatenated.
pub open spec fn concat_chunks(chunks: Seq<Seq<u8>>) -> Seq<u8>
    decreases chunks.len(),
{
    if chunks.len() == 0 {
        Seq::empty()
    } else {
        concat_chunks(chunks.drop_last()) + chunks.last()
    }
}

/// A list of reads, fed one after the other.
pub open spec fn run_chunks(st: SplitState, chunks: Seq<Seq<u8>>) -> SplitState
    decreases chunks.len(),
{
    if chunks.len() == 0 {
        st
    } else {
        split_run(run_chunks(st, chunks.drop_last()), chunks.last())
    }
}

/// However a byte stream is cut into reads, feeding the reads one after
/// the other leaves the splitter exactly where feeding the whole stream
/// at once does: the same lines, the same trailing fragment.
pub proof fn lemma_chunking_irrelevant(st: SplitState, chunks: Seq<Seq<u8>>)
    ensures
        run_chunks(st, chunks) == split_run(st, concat_chunks(chunks)),
    decreases chunks.len(),
{
    if chunks.len() == 0 {
        assert(concat_chunks(chunks) =~= Seq::<u8>::empty());
    } else {
        lemma_chunking_irrelevant(st, chunks.drop_last());
        lemma_split_run_append(st, concat_chunks(chunks.drop_last()), chunks.last());
    }
}

/// Incremental reader state for one stream, mirroring [`SplitState`]
/// except that completed lines are handed out by [`StreamBuffer::feed`]
/// rather than stored.
pub struct StreamBuffer {
    pub frag: Vec<u8>,
    pub after_cr: bool,
}

impl StreamBuffer {
    /// The split state this buffer stands for, given the lines already
    /// handed out.
    pub open spec fn abs(self, emitted: Seq<Seq<u8>>) -> SplitState {
        SplitState { lines: emitted, frag: self.frag@, after_cr: self.after_cr }
    }

    pub fn new() -> (r: StreamBuffer)
        ensures
            r.abs(Seq::empty()) == SplitState::init(),
    {
        let r = StreamBuffer { frag: Vec::new(), after_cr: false };
        proof {
            assert(r.abs(Seq::empty()) =~= SplitState::init());
        }
        r
    }

    /// Feed one read chunk; the complete lines it finishes come back in
    /// order.  For any previously emitted line sequence `em`, the new
    /// buffer together with `em + out` is exactly `split_run` of the old
    /// state over the chunk.
    pub fn feed(&mut self, chunk: &[u8]) -> (out: Vec<Vec<u8>>)
        ensures
            forall|em: Seq<Seq<u8>>|
                #[trigger] final(self).abs(em + out.deep_view()) == split_run(
                    old(self).abs(em),
                    chunk@,
                ),
    {
        let ghost st0 = self.abs(Seq::empty());
        let mut out: Vec<Vec<u8>> = Vec::new();
        let mut i: usize = 0;
        proof {
            assert(out.deep_view() =~= Seq::<Seq<u8>>::empty());
            assert(chunk@.take(0) =~= Seq::<u8>::empty());
        }
        while i < chunk.len()
            invariant
                i <= chunk@.len(),
                self.abs(out.deep_view()) == split_run(st0, chunk@.take(i as int)),
            decreases chunk@.len() - i,
        {
            let ghost pre = self.abs(out.deep_view());
            let ghost pre_dv = out.deep_view();
            let b = chunk[i];
            if b == LF {
                if self.after_cr {
                    self.after_cr = false;
                } else {
                    let line = self.frag.clone();
                    self.frag.clear();
                    out.push(line);
                    proof {
                        assert(out.deep_view() =~~= pre_dv.push(pre.frag));
                    }
                }
            } else if b == CR {
                let line = self.frag.clone();
                self.frag.clear();
                out.push(line);
                self.after_cr = true;
                proof {
                    assert(out.deep_view() =~~= pre_dv.push(pre.frag));
                }
            } else {
                self.frag.push(b);
                self.after_cr = false;
            }
            proof {
                assert(self.abs(out.deep_view()) =~~= split_step(pre, b));
                assert(chunk@.take(i + 1).drop_last() =~= chunk@.take(i as int));
                assert(chunk@.take(i + 1).last() == b);
                lemma_split_run_step(st0, chunk@.take(i + 1));
            }
            i = i + 1;
        }
        proof {
            assert(chunk@.take(chunk@.len() as int) =~= chunk@);
            assert forall|em: Seq<Seq<u8>>|
                #[trigger] self.abs(em + out.deep_view()) == split_run(
                    old(self).abs(em),
                    chunk@,
                ) by {
                lemma_split_run_shift(st0, em, chunk@);
                assert(old(self).abs(em) =~~= (SplitState {
                    lines: em + st0.lines,
                    frag: st0.frag,
                    after_cr: st0.after_cr,
                }));
                assert(self.abs(em + out.deep_view()) =~~= (SplitState {
                    lines: em + split_run(st0, chunk@).lines,
                    frag: split_run(st0, chunk@).frag,
                    after_cr: split_run(st0, chunk@).after_cr,
                }));
            }
        }
        out
    }

    /// End of input: a non-empty unterminated fragment is flushed as a
    /// final line, as the stream readers do when the child closes the pipe.
    pub fn finish(self) -> (out: Option<Vec<u8>>)
        ensures
            match out {
                Some(line) => line@ == self.frag@ && self.frag@.len() > 0,
                None => self.frag@.len() == 0,
            },
    {
        if self.frag.len() > 0 {
            Some(self.frag)
        } else {
            None
        }
    }
}

/// Unrolling `split_run` one byte from the end.
proof fn lemma_split_run_step(st: SplitState, input: Seq<u8>)
    requires
        input.len() > 0,
    ensures
        split_run(st, input) == split_step(split_run(st, input.drop_last()), input.last()),
    decreases input.len(),
{
    reveal_with_fuel(split_run, 2);
    if input.len() == 1 {
        assert(input.drop_last() =~= Seq::<u8>::empty());
        assert(input.drop_first() =~= Seq::<u8>::empty());
    } else {
        let st1 = split_step(st, input[0]);
        lemma_split_run_step(st1, input.drop_first());
        assert(input.drop_first().drop_last() =~= input.drop_last().drop_first());
        assert(input.drop_first().last() == input.last());
        assert(input.drop_last()[0] == input[0]);
        assert(input.drop_last().len() > 0);
        assert(split_run(st, input.drop_last()) == split_run(st1, input.drop_last().drop_first()));
        assert(split_run(st, input) == split_run(st1, input.drop_first()));
        assert(split_run(st1, input.drop_first()) == split_step(
            split_run(st1, input.drop_first().drop_last()),
            input.drop_first().last(),
        ));
    }
}

/// Lines already emitted ride along unchanged through a run: prepending
/// `em` to the emitted lines prepends it to the result's lines.
proof fn lemma_split_run_shift(st: SplitState, em: Seq<Seq<u8>>, input: Seq<u8>)
    ensures
        split_run(
            (SplitState { lines: em + st.lines, frag: st.frag, after_cr: st.after_cr }),
            input,
        ) == (SplitState {
            lines: em + split_run(st, input).lines,
            frag: split_run(st, input).frag,
            after_cr: split_run(st, input).after_cr,
        }),
    decreases input.len(),
{
    if input.len() == 0 {
    } else {
        let st1 = split_step(st, input[0]);
        lemma_split_run_shift(st1, em, input.drop_first());
        assert(split_step(
            SplitState { lines: em + st.lines, frag: st.frag, after_cr: st.after_cr },
            input[0],
        ) =~= SplitState { lines: em + st1.lines, frag: st1.frag, after_cr: st1.after_cr }) by {
            if input[0] == LF && !st.after_cr {
                assert((em + st.lines).push(st.frag) =~= em + st.lines.push(st.frag));
            } else if input[0] == CR {
                assert((em + st.lines).push(st.frag) =~= em + st.lines.push(st.frag));
            }
        }
    }
}

} // verus!
