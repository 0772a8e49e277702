//! Mutable slices over a run of records, and chunked iteration. A
//! [`DstSliceMut`] borrows a contiguous run of records from an owned array
//! without owning them; splitting it is the one way to derive two live,
//! non-overlapping mutable views from one array, so that independent workers
//! may each mutate their part with no aliasing. A [`DstChunksMut`] walks a
//! slice in chunks of a fixed size, handing out each chunk exactly once.

use vstd::prelude::*;

verus! {

use crate::record::DstData;
use crate::record::Record;
use crate::record::recs_view;
use vstd::arithmetic::div_mod::lemma_basic_div;
use vstd::arithmetic::div_mod::lemma_div_plus_one;
use vstd::pervasive::unreached;
use vstd::slice::slice_index_get;

/// A borrowed view over a contiguous run of records within an owned array.
/// It owns no memory and destroys nothing; it is the unit of disjoint
/// splitting. The underlying run is exposed as a field so that contracts can
/// speak about both its present contents and the contents it will have when
/// the borrow ends.
pub struct DstSliceMut<'a, H, F> {
    pub data: &'a mut [DstData<H, F>],
}

impl<'a, H, F> View for DstSliceMut<'a, H, F> {
    type V = Seq<Record<H, F>>;

    open spec fn view(&self) -> Seq<Record<H, F>> {
        recs_view(self.data@)
    }
}

impl<'a, H, F> DstSliceMut<'a, H, F> {
    /// The number of records the slice covers.
    pub fn len(&self) -> (r: usize)
        ensures
            r == self@.len(),
    {
        let d: &[DstData<H, F>] = &*self.data;
        d.len()
    }

    /// Read access to the record at `index`; an out-of-bounds index is a
    /// caller error.
    pub fn index(&self, index: usize) -> (r: &DstData<H, F>)
        requires
            index < self@.len(),
        ensures
            r@ == self@[index as int],
    {
        slice_index_get(&*self.data, index)
    }

    /// Write access to the record at `index`; an out-of-bounds index is a
    /// caller error. Other records of the slice are untouched.
    pub fn index_mut(&mut self, index: usize) -> (r: &mut DstData<H, F>)
        requires
            index < old(self)@.len(),
        ensures
            r@ == old(self)@[index as int],
            final(self)@ == old(self)@.update(index as int, final(r)@),
            final(old(self).data)@ == final(final(self).data)@,
    {
        let d: &mut [DstData<H, F>] = &mut *self.data;
        let (_head, tail) = <[DstData<H, F>]>::split_at_mut(d, index);
        match <[DstData<H, F>]>::first_mut(tail) {
            Some(r) => r,
            None => unreached(),
        }
    }

    /// Splits the slice into two non-overlapping slices covering
    /// `[0, mid)` and `[mid, len)` of its range; `mid > len` is a caller
    /// error. Together the two parts cover the original range exactly once,
    /// with no gap and no overlap, so both may be mutated independently.
    pub fn split_at_mut(self, mid: usize) -> (r: (DstSliceMut<'a, H, F>, DstSliceMut<'a, H, F>))
        requires
            mid <= self@.len(),
        ensures
            r.0@ == self@.subrange(0, mid as int),
            r.1@ == self@.subrange(mid as int, self@.len() as int),
            final(self.data)@ == final(r.0.data)@ + final(r.1.data)@,
    {
        let ghost pre = self@;
        let DstSliceMut { data } = self;
        let (a, b) = <[DstData<H, F>]>::split_at_mut(data, mid);
        let left = DstSliceMut { data: a };
        let right = DstSliceMut { data: b };
        proof {
            assert(left@ =~= pre.subrange(0, mid as int));
            assert(right@ =~= pre.subrange(mid as int, pre.len() as int));
        }
        (left, right)
    }

    /// The start of the slice's range, as mutable access to the whole
    /// underlying run of records.
    pub fn as_mut_ptr(&mut self) -> (r: &mut [DstData<H, F>])
        ensures
            r@ == old(self).data@,
            final(self).data@ == final(r)@,
            final(old(self).data)@ == final(final(self).data)@,
    {
        &mut *self.data
    }
}

/// The length of the chunk cut from a slice of `len` remaining records by a
/// chunk iterator with the given chunk size: the chunk size, or what
/// remains, whichever is smaller.
pub open spec fn chunk_len(chunk_size: nat, len: nat) -> nat {
    if chunk_size < len {
        chunk_size
    } else {
        len
    }
}

/// An iterator that hands out the records of a mutable slice in chunks of
/// `chunk_size` records, each chunk a mutable slice of its own, produced
/// exactly once, the last chunk possibly shorter. The sequence of chunks is
/// finite and not restartable.
pub struct DstChunksMut<'a, H, F> {
    pub slice: DstSliceMut<'a, H, F>,
    pub chunk_size: usize,
}

impl<'a, H, F> DstChunksMut<'a, H, F> {
    /// Wraps a slice for chunked iteration with the given chunk size.
    pub fn new(slice: DstSliceMut<'a, H, F>, size: usize) -> (r: Self)
        ensures
            r.slice == slice,
            r.chunk_size == size,
    {
        Self { slice, chunk_size: size }
    }

    /// The next chunk: `chunk_len(chunk_size, remaining)` records cut from
    /// the front of what remains, or nothing once the remainder is empty.
    /// What the caller writes through the chunk lands in the records the
    /// chunk covers; the iterator advances past them and never hands them
    /// out again.
    pub fn next(&mut self) -> (r: Option<DstSliceMut<'a, H, F>>)
        ensures
            final(self).chunk_size == old(self).chunk_size,
            r is Some <==> old(self).slice@.len() > 0,
            r is None ==> *final(self) == *old(self),
            r matches Some(chunk) ==> {
                &&& chunk@ == old(self).slice@.subrange(
                    0,
                    chunk_len(old(self).chunk_size as nat, old(self).slice@.len()) as int,
                )
                &&& final(self).slice@ == old(self).slice@.subrange(
                    chunk_len(old(self).chunk_size as nat, old(self).slice@.len()) as int,
                    old(self).slice@.len() as int,
                )
                &&& final(old(self).slice.data)@ == final(chunk.data)@
                    + final(final(self).slice.data)@
            },
    {
        let len = self.slice.len();
        if len == 0 {
            None
        } else {
            let chunk_size = self.chunk_size;
            let csz = if chunk_size < len {
                chunk_size
            } else {
                len
            };
            let mut taken: &'a mut [DstData<H, F>] = &mut [];
            core::mem::swap(&mut self.slice.data, &mut taken);
            let (fst, snd) = <[DstData<H, F>]>::split_at_mut(taken, csz);
            self.slice.data = snd;
            let chunk = DstSliceMut { data: fst };
            proof {
                assert(chunk@ =~= old(self).slice@.subrange(0, csz as int));
                assert(final(self).slice@ =~= old(self).slice@.subrange(
                    csz as int,
                    old(self).slice@.len() as int,
                ));
            }
            Some(chunk)
        }
    }
}

/// Splitting a run of `L` records at `mid` yields two parts of length `mid`
/// and `L - mid` whose concatenation is exactly the original run: every
/// record is covered once, with no gap and no overlap.
pub proof fn lemma_split_at_covers<H, F>(s: Seq<Record<H, F>>, mid: int)
    requires
        0 <= mid <= s.len(),
    ensures
        s.subrange(0, mid).len() == mid,
        s.subrange(mid, s.len() as int).len() == s.len() - mid,
        s.subrange(0, mid) + s.subrange(mid, s.len() as int) == s,
{
    assert(s.subrange(0, mid) + s.subrange(mid, s.len() as int) =~= s);
}

/// The lengths of the chunks that iteration with the given chunk size cuts
/// from a slice of `len` records, in the order they are produced.
pub open spec fn chunk_lens(len: nat, chunk_size: nat) -> Seq<nat>
    decreases len,
{
    if chunk_size == 0 || len == 0 {
        Seq::empty()
    } else {
        seq![chunk_len(chunk_size, len)] + chunk_lens(
            (len - chunk_len(chunk_size, len)) as nat,
            chunk_size,
        )
    }
}

/// The sum of a sequence of lengths.
pub open spec fn seq_sum(s: Seq<nat>) -> nat
    decreases s.len(),
{
    if s.len() == 0 {
        0
    } else {
        s[0] + seq_sum(s.subrange(1, s.len() as int))
    }
}

/// Chunk iteration over a slice of `len` records with a positive chunk size
/// produces exactly `(len + chunk_size - 1) / chunk_size` chunks — the
/// number of chunk sizes needed to cover `len`, rounded up — whose lengths
/// sum to `len`; every chunk but the last has exactly `chunk_size` records,
/// and the last has between one and `chunk_size`.
pub proof fn lemma_chunk_iteration(len: nat, chunk_size: nat)
    requires
        chunk_size > 0,
    ensures
        chunk_lens(len, chunk_size).len() == (len + chunk_size - 1) / chunk_size as int,
        seq_sum(chunk_lens(len, chunk_size)) == len,
        forall|i: int|
            0 <= i < chunk_lens(len, chunk_size).len() ==> 0 < #[trigger] chunk_lens(
                len,
                chunk_size,
            )[i] <= chunk_size,
        forall|i: int|
            0 <= i < chunk_lens(len, chunk_size).len() - 1 ==> #[trigger] chunk_lens(
                len,
                chunk_size,
            )[i] == chunk_size,
    decreases len,
{
    let s = chunk_lens(len, chunk_size);
    if len == 0 {
        lemma_basic_div(chunk_size as int - 1, chunk_size as int);
    } else {
        let csz = chunk_len(chunk_size, len);
        let rest = (len - csz) as nat;
        let tail = chunk_lens(rest, chunk_size);
        lemma_chunk_iteration(rest, chunk_size);
        assert(s.subrange(1, s.len() as int) =~= tail);
        if len <= chunk_size {
            lemma_basic_div(len as int - 1, chunk_size as int);
            lemma_div_plus_one(len as int - 1, chunk_size as int);
        } else {
            lemma_div_plus_one(rest + chunk_size - 1, chunk_size as int);
        }
        assert forall|i: int| 0 <= i < s.len() implies 0 < #[trigger] s[i] <= chunk_size by {
            if i > 0 {
                assert(s[i] == tail[i - 1]);
            }
        }
        assert forall|i: int| 0 <= i < s.len() - 1 implies #[trigger] s[i] == chunk_size by {
            if i > 0 {
                assert(s[i] == tail[i - 1]);
            }
        }
    }
}

} // verus!
