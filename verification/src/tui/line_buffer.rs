//! Gate on line boundaries for streamed text: only text up to the last
//! newline is released, so that an unfinished construct (such as an unclosed
//! code fence) is never rendered half-way.
use vstd::prelude::*;
use crate::text::{chars_of, owned, push_str, rfind_char_below, rfind_char_exec, slice_vec, string_of};

verus! {

/// Streamed text that has not been released yet.
#[derive(Debug, Default, Clone)]
pub struct LineBuffer {
    pending: String,
}

/// Where the releasable text of `s` ends: just after its last newline.
pub open spec fn commit_len(s: Seq<char>) -> nat {
    match rfind_char_below(s, '\n', s.len() as int) {
        Some(i) => (i + 1) as nat,
        None => 0,
    }
}

impl View for LineBuffer {
    type V = Seq<char>;

    closed spec fn view(&self) -> Seq<char> {
        self.pending@
    }
}

/// A found character is the last one of its kind below the bound.
pub proof fn lemma_rfind_char(s: Seq<char>, c: char, k: int)
    requires
        0 <= k <= s.len(),
    ensures
        match rfind_char_below(s, c, k) {
            Some(i) => 0 <= i < k && s[i] == c && forall|j: int| i < j < k ==> s[j] != c,
            None => forall|j: int| 0 <= j < k ==> s[j] != c,
        },
    decreases k,
{
    if k > 0 && s[k - 1] != c {
        lemma_rfind_char(s, c, k - 1);
    }
}

impl LineBuffer {
    /// An empty buffer.
    pub fn new() -> (r: Self)
        ensures
            r@ == Seq::<char>::empty(),
    {
        LineBuffer { pending: String::new() }
    }

    /// Appends a raw delta of streamed text.
    pub fn push(&mut self, delta: &str)
        ensures
            final(self)@ == old(self)@ + delta@,
    {
        if delta.is_empty() {
            assert(old(self)@ + delta@ =~= old(self)@);
            return ;
        }
        push_str(&mut self.pending, delta);
    }

    /// Takes the text up to and including the last newline; what follows it
    /// stays pending. Nothing is taken when there is no newline.
    pub fn take_committable(&mut self) -> (r: String)
        ensures
            r@ == old(self)@.take(commit_len(old(self)@) as int),
            final(self)@ == old(self)@.skip(commit_len(old(self)@) as int),
    {
        let cs = chars_of(self.pending.as_str());
        match rfind_char_exec(cs.as_slice(), '\n') {
            None => {
                assert(cs@.take(0) =~= Seq::<char>::empty());
                assert(cs@.skip(0) =~= cs@);
                String::new()
            },
            Some(i) => {
                proof {
                    lemma_rfind_char(cs@, '\n', cs@.len() as int);
                }
                let head = slice_vec(cs.as_slice(), 0, i + 1);
                let tail = slice_vec(cs.as_slice(), i + 1, cs.len());
                self.pending = string_of(tail.as_slice());
                assert(cs@.subrange(0, i + 1) =~= cs@.take(i + 1));
                assert(cs@.subrange(i + 1, cs@.len() as int) =~= cs@.skip(i + 1));
                string_of(head.as_slice())
            },
        }
    }

    /// Takes everything that is pending, at the end of a stream.
    pub fn flush(&mut self) -> (r: String)
        ensures
            r@ == old(self)@,
            final(self)@ == Seq::<char>::empty(),
    {
        let r = owned(self.pending.as_str());
        self.pending = String::new();
        r
    }

    /// Whether any text is pending.
    pub fn has_pending(&self) -> (r: bool)
        ensures
            r == (self@.len() > 0),
    {
        !self.pending.as_str().is_empty()
    }

    /// The pending text.
    pub fn pending_text(&self) -> (r: &str)
        ensures
            r@ == self@,
    {
        self.pending.as_str()
    }
}

/// What is taken and what stays pending make up the buffer again; what is
/// taken is empty or ends with a newline, and no newline stays pending.
pub proof fn law_take_committable_splits(s: Seq<char>)
    ensures
        s.take(commit_len(s) as int) + s.skip(commit_len(s) as int) == s,
        commit_len(s) == 0 || s[commit_len(s) - 1] == '\n',
        !s.skip(commit_len(s) as int).contains('\n'),
{
    lemma_rfind_char(s, '\n', s.len() as int);
    assert(s.take(commit_len(s) as int) + s.skip(commit_len(s) as int) =~= s);
    let rest = s.skip(commit_len(s) as int);
    if rest.contains('\n') {
        let j = choose|j: int| 0 <= j < rest.len() && rest[j] == '\n';
        assert(s[commit_len(s) + j] == '\n');
    }
}

/// One call on a buffer: [`LineBuffer::push`] of some text,
/// [`LineBuffer::take_committable`], or [`LineBuffer::flush`].
pub ghost enum BufferOp {
    Push(Seq<char>),
    Take,
    Flush,
}

/// What a buffer holding `start` gives through the calls `ops`, as the
/// contracts of [`LineBuffer::push`], [`LineBuffer::take_committable`] and
/// [`LineBuffer::flush`] state them: the text released, in order, and the
/// text left pending.
pub open spec fn buffer_run(start: Seq<char>, ops: Seq<BufferOp>) -> (Seq<char>, Seq<char>)
    decreases ops.len(),
{
    if ops.len() == 0 {
        (Seq::empty(), start)
    } else {
        let (out, p) = buffer_run(start, ops.drop_last());
        match ops.last() {
            BufferOp::Push(d) => (out, p + d),
            BufferOp::Take => (out + p.take(commit_len(p) as int), p.skip(commit_len(p) as int)),
            BufferOp::Flush => (out + p, Seq::empty()),
        }
    }
}

/// All the text the calls push, in order.
pub open spec fn pushed(ops: Seq<BufferOp>) -> Seq<char>
    decreases ops.len(),
{
    if ops.len() == 0 {
        Seq::empty()
    } else {
        match ops.last() {
            BufferOp::Push(d) => pushed(ops.drop_last()) + d,
            _ => pushed(ops.drop_last()),
        }
    }
}

/// No streamed text is lost, doubled or reordered: whatever pushes, takes
/// and flushes come after an empty buffer, what they gave followed by what is
/// still pending is all that was pushed.
pub proof fn law_nothing_lost(ops: Seq<BufferOp>)
    ensures
        buffer_run(Seq::empty(), ops).0 + buffer_run(Seq::empty(), ops).1 == pushed(ops),
    decreases ops.len(),
{
    if ops.len() > 0 {
        law_nothing_lost(ops.drop_last());
        let (out, p) = buffer_run(Seq::empty(), ops.drop_last());
        match ops.last() {
            BufferOp::Push(d) => {
                assert(out + (p + d) =~= (out + p) + d);
            },
            BufferOp::Take => {
                law_take_committable_splits(p);
                let k = commit_len(p) as int;
                assert(out + p.take(k) + p.skip(k) =~= out + (p.take(k) + p.skip(k)));
            },
            BufferOp::Flush => {
                assert(out + p + Seq::<char>::empty() =~= out + p);
            },
        }
    }
}

/// Whatever pushes and takes come after an empty buffer, a final
/// [`LineBuffer::flush`] leaves nothing pending, and all the text that the
/// takes and the flush gave, in order, is exactly the text pushed.
pub proof fn law_flush_releases_everything(ops: Seq<BufferOp>)
    ensures
        buffer_run(Seq::empty(), ops.push(BufferOp::Flush)).0 == pushed(ops),
        buffer_run(Seq::empty(), ops.push(BufferOp::Flush)).1 == Seq::<char>::empty(),
{
    law_nothing_lost(ops);
    let all = ops.push(BufferOp::Flush);
    assert(all.drop_last() =~= ops);
    assert(pushed(all) == pushed(ops));
}

} // verus!
