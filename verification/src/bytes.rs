//! Verified byte-sequence primitives: substring search over raw output and
//! the capped accumulation that bounds every captured stream.

use vstd::prelude::*;
use vstd::math::min;
use vstd::seq_lib::lemma_flatten_concat;

verus! {

/// `needle` occurs in `hay` starting at index `i`.
pub open spec fn is_match_at(hay: Seq<u8>, needle: Seq<u8>, i: int) -> bool {
    0 <= i && i + needle.len() <= hay.len() && hay.subrange(i, i + needle.len()) == needle
}

/// `needle` occurs somewhere in `hay`.
pub open spec fn contains_seq(hay: Seq<u8>, needle: Seq<u8>) -> bool {
    exists|i: int| is_match_at(hay, needle, i)
}

/// Whether `needle` occurs in `hay` starting at position `at`.
pub fn match_at(hay: &Vec<u8>, needle: &Vec<u8>, at: usize) -> (r: bool)
    requires
        at + needle@.len() <= hay@.len(),
    ensures
        r == is_match_at(hay@, needle@, at as int),
{
    let hlen = hay.len();
    let mut k: usize = 0;
    while k < needle.len()
        invariant
            0 <= k <= needle@.len(),
            hlen == hay@.len(),
            at + needle@.len() <= hlen,
            forall|j: int| 0 <= j < k ==> hay@[at + j] == needle@[j],
        decreases needle@.len() - k,
    {
        if hay[at + k] != needle[k] {
            assert(hay@.subrange(at as int, at + needle@.len())[k as int] != needle@[k as int]);
            return false;
        }
        k = k + 1;
    }
    proof {
        assert(hay@.subrange(at as int, at + needle@.len()) =~= needle@);
    }
    true
}

/// A plain substring test on byte sequences.
pub fn contains_bytes(hay: &Vec<u8>, needle: &Vec<u8>) -> (r: bool)
    ensures
        r == contains_seq(hay@, needle@),
{
    let hl = hay.len();
    let nl = needle.len();
    if nl > hl {
        proof {
            assert(forall|i: int| !is_match_at(hay@, needle@, i));
        }
        return false;
    }
    if nl == 0 {
        proof {
            assert(hay@.subrange(0, 0) =~= needle@);
            assert(is_match_at(hay@, needle@, 0));
        }
        return true;
    }
    let mut i: usize = 0;
    while i <= hl - nl
        invariant
            nl == needle@.len(),
            hl == hay@.len(),
            1 <= nl <= hl,
            0 <= i <= hl - nl + 1,
            forall|j: int| 0 <= j < i ==> !is_match_at(hay@, needle@, j),
        decreases hl - nl + 1 - i,
    {
        if match_at(hay, needle, i) {
            return true;
        }
        i = i + 1;
    }
    proof {
        assert(forall|j: int| j > hl - nl ==> !is_match_at(hay@, needle@, j));
    }
    false
}

/// A growing buffer that accepts byte chunks but never holds more than its
/// cap; bytes past the cap are dropped, not buffered.
pub struct CappedBuffer {
    data: Vec<u8>,
    cap: usize,
}

impl CappedBuffer {
    /// The bytes accumulated so far.
    pub closed spec fn contents(&self) -> Seq<u8> {
        self.data@
    }

    /// The configured cap.
    pub closed spec fn spec_cap(&self) -> int {
        self.cap as int
    }

    /// The buffer never exceeds its cap.
    pub open spec fn wf(&self) -> bool {
        self.contents().len() <= self.spec_cap()
    }

    pub fn new(cap: usize) -> (r: Self)
        ensures
            r.contents() == Seq::<u8>::empty(),
            r.spec_cap() == cap as int,
            r.wf(),
    {
        CappedBuffer { data: Vec::new(), cap }
    }

    pub fn len(&self) -> (r: usize)
        ensures
            r as int == self.contents().len(),
    {
        self.data.len()
    }

    pub fn cap(&self) -> (r: usize)
        ensures
            r as int == self.spec_cap(),
    {
        self.cap
    }

    /// How many more bytes the buffer will keep.
    pub fn remaining(&self) -> (r: usize)
        requires
            self.wf(),
        ensures
            r as int == self.spec_cap() - self.contents().len(),
    {
        self.cap - self.data.len()
    }

    /// Whether the cap is reached, so further chunks are dropped whole.
    pub fn is_full(&self) -> (r: bool)
        requires
            self.wf(),
        ensures
            r == (self.contents().len() == self.spec_cap()),
    {
        self.data.len() == self.cap
    }

    /// Appends as much of `chunk` as the cap admits and drops the rest.
    pub fn push_chunk(&mut self, chunk: &Vec<u8>)
        requires
            old(self).wf(),
        ensures
            final(self).wf(),
            final(self).spec_cap() == old(self).spec_cap(),
            final(self).contents() == old(self).contents() + chunk@.take(
                min(chunk@.len() as int, old(self).spec_cap() - old(self).contents().len()),
            ),
    {
        let room = self.cap - self.data.len();
        let take_n = if chunk.len() < room {
            chunk.len()
        } else {
            room
        };
        let mut i: usize = 0;
        while i < take_n
            invariant
                0 <= i <= take_n,
                take_n <= chunk@.len(),
                self.cap == old(self).cap,
                take_n as int == min(
                    chunk@.len() as int,
                    old(self).spec_cap() - old(self).contents().len(),
                ),
                self.data@ == old(self).data@ + chunk@.take(i as int),
            decreases take_n - i,
        {
            self.data.push(chunk[i]);
            proof {
                assert(old(self).data@ + chunk@.take(i as int) + seq![chunk@[i as int]]
                    =~= old(self).data@ + chunk@.take(i + 1));
            }
            i = i + 1;
        }
    }

    /// Hands the accumulated bytes out.
    pub fn into_vec(self) -> (r: Vec<u8>)
        ensures
            r@ == self.contents(),
    {
        self.data
    }
}

/// The capped concatenation of `chunks`: the first `limit` bytes of the whole
/// stream, or all of it when it is shorter.
pub open spec fn spec_capped(chunks: Seq<Seq<u8>>, limit: int) -> Seq<u8> {
    chunks.flatten().take(min(limit, chunks.flatten().len() as int))
}

proof fn lemma_capped_extend(f: Seq<u8>, c: Seq<u8>, limit: int)
    requires
        0 <= limit,
    ensures
        (f + c).take(min(limit, (f + c).len() as int)) == f.take(min(limit, f.len() as int))
            + c.take(min(c.len() as int, limit - min(limit, f.len() as int))),
{
    assert((f + c).take(min(limit, (f + c).len() as int)) =~= f.take(min(limit, f.len() as int))
        + c.take(min(c.len() as int, limit - min(limit, f.len() as int))));
}

/// For captured stream data longer than the cap, the capped buffer's
/// length is exactly the cap, never more; shorter data is kept whole.
pub proof fn lemma_stream_cap(chunks: Seq<Seq<u8>>, limit: int)
    requires
        0 <= limit,
    ensures
        chunks.flatten().len() >= limit ==> spec_capped(chunks, limit).len() == limit,
        chunks.flatten().len() < limit ==> spec_capped(chunks, limit) == chunks.flatten(),
{
    if chunks.flatten().len() < limit {
        assert(spec_capped(chunks, limit) =~= chunks.flatten());
    }
}

/// Drains a sequence of read chunks into a buffer capped at `limit` bytes:
/// the result is the stream's prefix of length `limit`, or the whole stream
/// when it is shorter.  No byte below the cap is lost.
pub fn read_with_limit(chunks: &Vec<Vec<u8>>, limit: usize) -> (r: Vec<u8>)
    ensures
        r@ == spec_capped(chunks.deep_view(), limit as int),
        r@.len() == min(limit as int, chunks.deep_view().flatten().len() as int),
{
    let ghost all = chunks.deep_view();
    let mut buf = CappedBuffer::new(limit);
    proof {
        assert(all.take(0) =~= Seq::<Seq<u8>>::empty());
        assert(all.take(0).flatten() =~= Seq::<u8>::empty());
    }
    let mut i: usize = 0;
    while i < chunks.len()
        invariant
            0 <= i <= chunks@.len(),
            all == chunks.deep_view(),
            all.len() == chunks@.len(),
            forall|k: int| 0 <= k < chunks@.len() ==> all[k] == chunks@[k]@,
            buf.wf(),
            buf.spec_cap() == limit as int,
            buf.contents() == spec_capped(all.take(i as int), limit as int),
        decreases chunks@.len() - i,
    {
        let ghost pre = all.take(i as int).flatten();
        buf.push_chunk(&chunks[i]);
        proof {
            assert(all.take(i + 1) =~= all.take(i as int) + seq![all[i as int]]);
            lemma_flatten_concat(all.take(i as int), seq![all[i as int]]);
            seq![all[i as int]].lemma_flatten_one_element();
            assert(all.take(i + 1).flatten() == pre + all[i as int]);
            lemma_capped_extend(pre, all[i as int], limit as int);
        }
        i = i + 1;
    }
    proof {
        assert(all.take(chunks@.len() as int) =~= all);
    }
    buf.into_vec()
}

} // verus!
