//! The per-trace write buffer.  One trace owns one append-only log file;
//! this type holds the bytes not yet handed to it and the count of bytes
//! already durable, so that appends stay whole lines and a snapshot length
//! bounds an export to a point-in-time view.

use vstd::prelude::*;

use crate::tef::line_end;
use crate::tef::lemma_line_end_is;
use crate::tef::split_lines;

verus! {

/// `lines`, each followed by one line feed, laid end to end: the bytes that
/// appending `lines` in order adds to a trace log.
pub open spec fn framed(lines: Seq<Seq<u8>>) -> Seq<u8>
    decreases lines.len(),
{
    if lines.len() == 0 {
        Seq::empty()
    } else {
        lines.first() + seq![10u8] + framed(lines.drop_first())
    }
}

/// Appending one more line extends the framed bytes at the end.
pub proof fn lemma_framed_push(lines: Seq<Seq<u8>>, l: Seq<u8>)
    ensures
        framed(lines.push(l)) == framed(lines) + l + seq![10u8],
    decreases lines.len(),
{
    let p = lines.push(l);
    if lines.len() == 0 {
        assert(p.first() == l);
        assert(p.drop_first() =~= Seq::<Seq<u8>>::empty());
        assert(framed(p.drop_first()) == Seq::<u8>::empty());
        assert(framed(p) == l + seq![10u8] + framed(p.drop_first()));
        assert(framed(p) =~= framed(lines) + l + seq![10u8]);
    } else {
        assert(p.first() == lines.first());
        assert(p.drop_first() =~= lines.drop_first().push(l));
        lemma_framed_push(lines.drop_first(), l);
        assert(framed(p) =~= framed(lines) + l + seq![10u8]);
    }
}

/// Lines written by one writer are never split or reordered: reading the
/// framed bytes back line by line yields exactly the lines that were
/// appended, in the order they were appended, each on its own line.
pub proof fn lemma_appends_keep_order(lines: Seq<Seq<u8>>)
    requires
        forall|i: int| 0 <= i < lines.len() ==> !(#[trigger] lines[i]).contains(10),
    ensures
        split_lines(framed(lines)) == lines,
    decreases lines.len(),
{
    if lines.len() == 0 {
        assert(split_lines(framed(lines)) =~= lines);
    } else {
        let l0 = lines.first();
        let rest = lines.drop_first();
        let s = framed(lines);
        assert(lines[0] == l0);
        assert forall|k: int| 0 <= k < l0.len() implies s[k] != 10 by {
            assert(s[k] == l0[k]);
            assert(!l0.contains(10));
            if l0[k] == 10 {
                assert(l0.contains(10));
            }
        }
        assert(s[l0.len() as int] == 10);
        lemma_line_end_is(s, l0.len() as int);
        assert(line_end(s) < s.len());
        assert(s.take(l0.len() as int) =~= l0);
        assert(s.skip(l0.len() as int + 1) =~= framed(rest));
        assert forall|i: int| 0 <= i < rest.len() implies !(#[trigger] rest[i]).contains(10) by {
            assert(rest[i] == lines[i + 1]);
        }
        lemma_appends_keep_order(rest);
        assert(split_lines(s) =~= seq![l0] + rest);
        assert(seq![l0] + rest =~= lines);
    }
}

/// The in-process buffer for one trace's log file.  `pending` holds appended
/// bytes not yet written through; `durable` counts the bytes already in the
/// file, starting from the file's length when it was opened.
pub struct TraceBuf {
    /// Bytes appended and not yet flushed to the file.
    pub pending: Vec<u8>,
    /// Bytes already written to the file, including what the file held when
    /// it was opened.
    pub durable: u64,
}

impl TraceBuf {
    /// A buffer over a file that currently holds `initial_len` bytes.
    pub fn new(initial_len: u64) -> (r: TraceBuf)
        ensures
            r.pending@ == Seq::<u8>::empty(),
            r.durable == initial_len,
    {
        TraceBuf { pending: Vec::new(), durable: initial_len }
    }

    /// Append one record as a whole line: the payload followed by one line
    /// feed.  Nothing is flushed eagerly.
    pub fn append_line(&mut self, json: &[u8])
        ensures
            final(self).pending@ == old(self).pending@ + json@ + seq![10u8],
            final(self).durable == old(self).durable,
    {
        self.pending.extend_from_slice(json);
        self.pending.push(10);
        proof {
            assert(self.pending@ =~= old(self).pending@ + json@ + seq![10u8]);
        }
    }

    /// Whether the flush accounting can absorb the pending bytes.
    pub fn can_flush(&self) -> (r: bool)
        ensures
            r == (self.durable + self.pending@.len() <= u64::MAX),
    {
        self.pending.len() as u64 <= u64::MAX - self.durable
    }

    /// Hand out the pending bytes for the caller to write to the file, and
    /// count them as durable.  The caller appends exactly these bytes.
    pub fn take_pending(&mut self) -> (chunk: Vec<u8>)
        requires
            old(self).durable + old(self).pending@.len() <= u64::MAX,
        ensures
            chunk@ == old(self).pending@,
            final(self).pending@ == Seq::<u8>::empty(),
            final(self).durable == old(self).durable + chunk@.len(),
    {
        let n = self.pending.len() as u64;
        let mut chunk: Vec<u8> = Vec::new();
        core::mem::swap(&mut chunk, &mut self.pending);
        self.durable = self.durable + n;
        chunk
    }

    /// The byte length a just-taken snapshot bounds an export to: exactly
    /// the bytes durable now.  Meaningful once `pending` is empty, that is
    /// right after a flush.
    pub fn snapshot_len(&self) -> (n: u64)
        ensures
            n == self.durable,
    {
        self.durable
    }
}

} // verus!
