//! The line-aware buffer: holds received bytes back until they end a line,
//! or until too many have piled up without one.

use vstd::prelude::*;

verus! {

/// The line terminator.
pub const NEWLINE: u8 = 10;

/// Past this many buffered bytes, the buffer is emitted even without a line
/// terminator.
pub const OVERFLOW_LIMIT: usize = 4096;

/// Whether `s` holds a line terminator.
pub open spec fn has_newline(s: Seq<u8>) -> bool {
    exists|i: int| 0 <= i < s.len() && s[i] == NEWLINE
}

/// The length of the longest prefix of `s` that ends with a line terminator,
/// or 0 where `s` holds none.
pub open spec fn line_end(s: Seq<u8>) -> nat
    decreases s.len(),
{
    if s.len() == 0 {
        0
    } else if s.last() == NEWLINE {
        s.len()
    } else {
        line_end(s.drop_last())
    }
}

/// How many of the buffered bytes `s` are emitted now: through the last line
/// terminator where there is one, everything where the buffer has grown past
/// the overflow limit without one, and nothing otherwise.
pub open spec fn emit_len(s: Seq<u8>) -> nat {
    if line_end(s) > 0 {
        line_end(s)
    } else if s.len() > OVERFLOW_LIMIT {
        s.len()
    } else {
        0
    }
}

/// What `line_end` says of the bytes before and after it.
pub proof fn lemma_line_end(s: Seq<u8>)
    ensures
        line_end(s) <= s.len(),
        line_end(s) > 0 ==> s[line_end(s) - 1] == NEWLINE,
        !has_newline(s.skip(line_end(s) as int)),
        line_end(s) == 0 <==> !has_newline(s),
    decreases s.len(),
{
    if s.len() > 0 && s.last() != NEWLINE {
        let t = s.drop_last();
        lemma_line_end(t);
        let k = line_end(t) as int;
        assert forall|i: int| 0 <= i < s.skip(k).len() implies s.skip(k)[i] != NEWLINE by {
            if i < s.skip(k).len() - 1 {
                assert(s.skip(k)[i] == t.skip(k)[i]);
            }
        }
        if has_newline(s) {
            let i = choose|i: int| 0 <= i < s.len() && s[i] == NEWLINE;
            assert(t[i] == NEWLINE);
        }
        if has_newline(t) {
            let i = choose|i: int| 0 <= i < t.len() && t[i] == NEWLINE;
            assert(s[i] == NEWLINE);
        }
    } else if s.len() > 0 {
        assert(s[s.len() - 1] == NEWLINE);
        assert(s.skip(s.len() as int) =~= Seq::<u8>::empty());
    } else {
        assert(s.skip(0) =~= s);
    }
}

/// A write emitted from the buffered bytes `s` is either a run of whole lines,
/// leaving no terminator behind, or, where `s` holds no terminator and has
/// grown past the overflow limit, all of `s`.
pub proof fn lemma_emission_keeps_lines(s: Seq<u8>)
    ensures
        emit_len(s) <= s.len(),
        has_newline(s) ==> emit_len(s) > 0 && s[emit_len(s) - 1] == NEWLINE,
        !has_newline(s.skip(emit_len(s) as int)),
        !has_newline(s) ==> (emit_len(s) == 0 <==> s.len() <= OVERFLOW_LIMIT),
        !has_newline(s) && s.len() > OVERFLOW_LIMIT ==> emit_len(s) == s.len(),
{
    lemma_line_end(s);
    if !has_newline(s) && s.len() > OVERFLOW_LIMIT {
        assert(s.skip(s.len() as int) =~= Seq::<u8>::empty());
    }
}

/// Bytes received and not yet written.
pub struct LineBuffer {
    data: Vec<u8>,
}

impl View for LineBuffer {
    type V = Seq<u8>;

    closed spec fn view(&self) -> Seq<u8> {
        self.data@
    }
}

impl LineBuffer {
    pub fn new() -> (r: LineBuffer)
        ensures
            r@ == Seq::<u8>::empty(),
    {
        LineBuffer { data: Vec::new() }
    }

    pub fn len(&self) -> (r: usize)
        ensures
            r == self@.len(),
    {
        self.data.len()
    }

    pub fn is_empty(&self) -> (r: bool)
        ensures
            r == (self@.len() == 0),
    {
        self.data.len() == 0
    }

    /// Appends `chunk` and hands back the bytes that may be written now,
    /// keeping the rest for a later round.
    pub fn push(&mut self, chunk: &[u8]) -> (out: Vec<u8>)
        requires
            old(self)@.len() + chunk@.len() <= usize::MAX,
        ensures
            out@ == (old(self)@ + chunk@).take(emit_len(old(self)@ + chunk@) as int),
            final(self)@ == (old(self)@ + chunk@).skip(emit_len(old(self)@ + chunk@) as int),
    {
        let ghost all = self@ + chunk@;
        let mut j: usize = 0;
        while j < chunk.len()
            invariant
                j <= chunk@.len(),
                self@ == all.take(old(self)@.len() + j),
                all == old(self)@ + chunk@,
                old(self)@.len() + chunk@.len() <= usize::MAX,
            decreases chunk@.len() - j,
        {
            self.data.push(chunk[j]);
            j = j + 1;
            assert(self@ =~= all.take(old(self)@.len() + j));
        }
        assert(self@ =~= all);
        let mut k: usize = self.data.len();
        while k > 0 && self.data[k - 1] != NEWLINE
            invariant
                k <= all.len(),
                self@ == all,
                line_end(all.take(k as int)) == line_end(all),
            decreases k,
        {
            assert(all.take(k as int).drop_last() =~= all.take(k - 1));
            k = k - 1;
        }
        proof {
            if k > 0 {
                assert(all.take(k as int).last() == NEWLINE);
            } else {
                assert(all.take(0) =~= Seq::<u8>::empty());
            }
        }
        let cut: usize = if k > 0 {
            k
        } else if self.data.len() > OVERFLOW_LIMIT {
            self.data.len()
        } else {
            0
        };
        let mut rest = self.data.split_off(cut);
        std::mem::swap(&mut self.data, &mut rest);
        rest
    }

    /// Hands back every buffered byte and leaves the buffer empty.
    pub fn take_all(&mut self) -> (out: Vec<u8>)
        ensures
            out@ == old(self)@,
            final(self)@ == Seq::<u8>::empty(),
    {
        let mut out: Vec<u8> = Vec::new();
        std::mem::swap(&mut self.data, &mut out);
        out
    }
}

} // verus!
