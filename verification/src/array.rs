//! Contiguous arrays of records. Every record of an array shares one footer
//! length, so consecutive records sit at one uniform stride; records with
//! differing footer lengths cannot live in one array. An array is built
//! uninitialized ([`MaybeUninitDstArray`]), written per index through the
//! single-record write operations, and turned by the caller's (checked)
//! declaration of full initialization into an owned array ([`DstArray`]) with
//! indexed access, disjoint mutable sub-slicing and a constant-time
//! whole-array swap.

use vstd::prelude::*;

verus! {

use crate::chunks::DstSliceMut;
use crate::layout::array_layout_ok;
use crate::layout::rec_size;
use crate::record::DstData;
use crate::record::MaybeUninitDst;
use crate::record::Record;
use crate::record::RecordSlots;
use crate::record::recs_view;
use vstd::pervasive::unreached;

/// An array of records in the uninitialized state: `array_size` adjacent
/// records, each with the same number of footer slots, every position
/// awaiting its write.
pub struct MaybeUninitDstArray<H, F> {
    records: Vec<MaybeUninitDst<H, F>>,
    footer_len: usize,
}

impl<H, F> View for MaybeUninitDstArray<H, F> {
    type V = Seq<RecordSlots<H, F>>;

    closed spec fn view(&self) -> Seq<RecordSlots<H, F>> {
        Seq::new(self.records@.len(), |i: int| self.records@[i]@)
    }
}

impl<H, F> MaybeUninitDstArray<H, F> {
    /// The footer length shared by every record of the array.
    pub closed spec fn spec_footer_len(self) -> nat {
        self.footer_len as nat
    }

    /// The array's structural invariant: every record has the shared footer
    /// length, and the array's layout is representable.
    pub open spec fn wf(self) -> bool {
        &&& forall|i: int| 0 <= i < self@.len() ==> (#[trigger] self@[i]).footer_len()
            == self.spec_footer_len()
        &&& array_layout_ok::<H, F>(self.spec_footer_len() as int, self@.len() as int)
    }

    /// Reserves `array_size` adjacent uninitialized records, each with
    /// `count` footer slots. The array's layout must be representable; an
    /// unrepresentable layout is a caller error, as is exhaustion of the
    /// underlying allocator.
    pub fn new(count: usize, array_size: usize) -> (r: MaybeUninitDstArray<H, F>)
        requires
            array_layout_ok::<H, F>(count as int, array_size as int),
        ensures
            r.wf(),
            r@.len() == array_size,
            forall|i: int| 0 <= i < array_size ==> r@[i] == RecordSlots::<H, F>::blank(
                count as nat,
            ),
            r.spec_footer_len() == count,
    {
        let mut records: Vec<MaybeUninitDst<H, F>> = Vec::with_capacity(array_size);
        let mut i: usize = 0;
        while i < array_size
            invariant
                i <= array_size,
                records@.len() == i,
                array_layout_ok::<H, F>(count as int, array_size as int),
                forall|j: int| 0 <= j < i ==> records@[j]@ == RecordSlots::<H, F>::blank(
                    count as nat,
                ),
            decreases array_size - i,
        {
            records.push(MaybeUninitDst::new(count));
            i += 1;
        }
        MaybeUninitDstArray { records, footer_len: count }
    }

    /// The byte distance between consecutive records of the array: one
    /// record's padded layout size.
    pub fn get_stride(&self) -> (r: usize)
        requires
            self.wf(),
        ensures
            r as int == rec_size::<H, F>(self.spec_footer_len() as int),
    {
        match DstData::<H, F>::layout_of(self.footer_len) {
            Ok(l) => l.size,
            Err(_) => unreached(),
        }
    }

    /// The footer length shared by every record of the array.
    pub fn get_footer_len(&self) -> (r: usize)
        ensures
            r == self.spec_footer_len(),
    {
        self.footer_len
    }

    /// Writes the header of the record at `arr_index`; an out-of-bounds
    /// index is a caller error. Other records are untouched.
    pub fn write_header(&mut self, arr_index: usize, header: H)
        requires
            arr_index < old(self)@.len(),
        ensures
            final(self)@ == old(self)@.update(
                arr_index as int,
                old(self)@[arr_index as int].with_header(header),
            ),
            final(self).spec_footer_len() == old(self).spec_footer_len(),
            old(self).wf() ==> final(self).wf(),
    {
        let rec = &mut self.records[arr_index];
        rec.write_header(header);
        proof {
            assert(self@ =~= old(self)@.update(
                arr_index as int,
                old(self)@[arr_index as int].with_header(header),
            ));
        }
    }

    /// Writes the whole footer of the record at `arr_index` from a slice
    /// whose length must equal the shared footer length; a mismatched length
    /// or an out-of-bounds index is a caller error. Other records are
    /// untouched.
    pub fn write_footer(&mut self, arr_index: usize, footer: &[F]) where F: Copy
        requires
            arr_index < old(self)@.len(),
            footer@.len() == old(self)@[arr_index as int].footer_len(),
        ensures
            final(self)@ == old(self)@.update(
                arr_index as int,
                old(self)@[arr_index as int].with_footer(footer@),
            ),
            final(self).spec_footer_len() == old(self).spec_footer_len(),
            old(self).wf() ==> final(self).wf(),
    {
        let rec = &mut self.records[arr_index];
        rec.write_footer(footer);
        proof {
            assert(self@ =~= old(self)@.update(
                arr_index as int,
                old(self)@[arr_index as int].with_footer(footer@),
            ));
        }
    }

    /// Writes one footer element of the record at `arr_index`; an
    /// out-of-bounds record or footer index is a caller error. Other
    /// positions are untouched.
    pub fn write_footer_element(&mut self, arr_index: usize, footer_index: usize, element: F)
        requires
            arr_index < old(self)@.len(),
            footer_index < old(self)@[arr_index as int].footer_len(),
        ensures
            final(self)@ == old(self)@.update(
                arr_index as int,
                old(self)@[arr_index as int].with_element(footer_index as int, element),
            ),
            final(self).spec_footer_len() == old(self).spec_footer_len(),
            old(self).wf() ==> final(self).wf(),
    {
        let rec = &mut self.records[arr_index];
        rec.write_footer_element(footer_index, element);
        proof {
            assert(self@ =~= old(self)@.update(
                arr_index as int,
                old(self)@[arr_index as int].with_element(footer_index as int, element),
            ));
        }
    }

    /// Read access to the header position of the record at `arr_index`; the
    /// header must have been written.
    pub fn get_header_ptr(&self, arr_index: usize) -> (r: &H)
        requires
            arr_index < self@.len(),
            self@[arr_index as int].header_written(),
        ensures
            *r == self@[arr_index as int].header.unwrap(),
    {
        let rec = &self.records[arr_index];
        rec.get_header_ptr()
    }

    /// Write access to the header position of the record at `arr_index` as a
    /// raw slot.
    pub fn get_header_ptr_mut(&mut self, arr_index: usize) -> (r: &mut Option<H>)
        requires
            arr_index < old(self)@.len(),
        ensures
            *r == old(self)@[arr_index as int].header,
            final(self)@ == old(self)@.update(
                arr_index as int,
                old(self)@[arr_index as int].with_header_slot(*final(r)),
            ),
            final(self).spec_footer_len() == old(self).spec_footer_len(),
            old(self).wf() ==> final(self).wf(),
    {
        let rec = &mut self.records[arr_index];
        let r = rec.get_header_ptr_mut();
        proof {
            assert(after_borrow(*self)@ =~= old(self)@.update(
                arr_index as int,
                old(self)@[arr_index as int].with_header_slot(*final(r)),
            ));
            if old(self).wf() {
                lemma_uninit_array_wf_update(
                    *old(self),
                    after_borrow(*self),
                    arr_index as int,
                    old(self)@[arr_index as int].with_header_slot(*final(r)),
                );
            }
        }
        r
    }

    /// Reads the whole footer of the record at `arr_index`; every footer
    /// position of that record must have been written. Where the original
    /// interface hands out a raw position to read through, this checked
    /// model returns the values themselves.
    pub fn get_footer_ptr(&self, arr_index: usize) -> (r: Vec<F>) where F: Copy
        requires
            arr_index < self@.len(),
            self@[arr_index as int].footer_written(),
        ensures
            r@ == self@[arr_index as int].footer_values(),
    {
        let rec = &self.records[arr_index];
        rec.get_footer_ptr()
    }

    /// Write access to the footer positions of the record at `arr_index` as
    /// raw slots, in index order; the number of slots cannot change through
    /// the returned slice.
    pub fn get_footer_ptr_mut(&mut self, arr_index: usize) -> (r: &mut [Option<F>])
        requires
            arr_index < old(self)@.len(),
        ensures
            r@ == old(self)@[arr_index as int].footer,
            final(self)@ == old(self)@.update(
                arr_index as int,
                old(self)@[arr_index as int].with_footer_slots(final(r)@),
            ),
            final(self).spec_footer_len() == old(self).spec_footer_len(),
            old(self).wf() && final(r)@.len() == old(self).spec_footer_len()
                ==> final(self).wf(),
    {
        let rec = &mut self.records[arr_index];
        let r = rec.get_footer_ptr_mut();
        proof {
            assert(after_borrow(*self)@ =~= old(self)@.update(
                arr_index as int,
                old(self)@[arr_index as int].with_footer_slots(final(r)@),
            ));
            if old(self).wf() {
                lemma_uninit_array_wf_update(
                    *old(self),
                    after_borrow(*self),
                    arr_index as int,
                    old(self)@[arr_index as int].with_footer_slots(final(r)@),
                );
            }
        }
        r
    }

    /// Read access to one footer position of the record at `arr_index`; the
    /// position must have been written.
    pub fn get_footer_element_ptr(&self, arr_index: usize, footer_index: usize) -> (r: &F)
        requires
            arr_index < self@.len(),
            footer_index < self@[arr_index as int].footer_len(),
            self@[arr_index as int].element_written(footer_index as int),
        ensures
            *r == self@[arr_index as int].footer[footer_index as int].unwrap(),
    {
        let rec = &self.records[arr_index];
        rec.get_footer_element_ptr(footer_index)
    }

    /// Write access to one footer position of the record at `arr_index` as a
    /// raw slot.
    pub fn get_footer_element_ptr_mut(&mut self, arr_index: usize, footer_index: usize) -> (r:
        &mut Option<F>)
        requires
            arr_index < old(self)@.len(),
            footer_index < old(self)@[arr_index as int].footer_len(),
        ensures
            *r == old(self)@[arr_index as int].footer[footer_index as int],
            final(self)@ == old(self)@.update(
                arr_index as int,
                old(self)@[arr_index as int].with_element_slot(footer_index as int, *final(r)),
            ),
            final(self).spec_footer_len() == old(self).spec_footer_len(),
            old(self).wf() ==> final(self).wf(),
    {
        let rec = &mut self.records[arr_index];
        let r = rec.get_footer_element_ptr_mut(footer_index);
        proof {
            assert(after_borrow(*self)@ =~= old(self)@.update(
                arr_index as int,
                old(self)@[arr_index as int].with_element_slot(footer_index as int, *final(r)),
            ));
            if old(self).wf() {
                lemma_uninit_array_wf_update(
                    *old(self),
                    after_borrow(*self),
                    arr_index as int,
                    old(self)@[arr_index as int].with_element_slot(footer_index as int, *final(r)),
                );
            }
        }
        r
    }

    /// The caller's declaration that every position of every record has been
    /// written; here that declaration is checked. Consumes the builder and
    /// yields the owned, initialized array.
    pub fn assume_init(self) -> (r: DstArray<H, F>)
        requires
            self.wf(),
            forall|i: int| 0 <= i < self@.len() ==> (#[trigger] self@[i]).fully_written(),
        ensures
            r.wf(),
            r@ == Seq::new(self@.len(), |i: int| self@[i].value()),
            r.spec_footer_len() == self.spec_footer_len(),
    {
        let ghost slots = self@;
        let MaybeUninitDstArray { records, footer_len } = self;
        let mut left = records;
        let mut reversed: Vec<DstData<H, F>> = Vec::new();
        while left.len() > 0
            invariant
                left@.len() + reversed@.len() == slots.len(),
                forall|j: int| 0 <= j < left@.len() ==> left@[j]@ == slots[j],
                forall|j: int| 0 <= j < reversed@.len() ==> reversed@[j]@ == slots[slots.len() - 1
                    - j].value(),
                forall|i: int| 0 <= i < slots.len() ==> (#[trigger] slots[i]).fully_written(),
            decreases left@.len(),
        {
            let rec = match left.pop() {
                Some(rec) => rec,
                None => unreached(),
            };
            proof {
                assert(slots[left@.len() as int].fully_written());
            }
            reversed.push(rec.into_data());
        }
        let mut data: Vec<DstData<H, F>> = Vec::new();
        while reversed.len() > 0
            invariant
                reversed@.len() + data@.len() == slots.len(),
                forall|j: int| 0 <= j < reversed@.len() ==> reversed@[j]@ == slots[slots.len() - 1
                    - j].value(),
                forall|j: int| 0 <= j < data@.len() ==> data@[j]@ == slots[j].value(),
            decreases reversed@.len(),
        {
            let rec = match reversed.pop() {
                Some(rec) => rec,
                None => unreached(),
            };
            data.push(rec);
        }
        let r = DstArray { records: data, footer_len };
        proof {
            assert(r@ =~= Seq::new(slots.len(), |i: int| slots[i].value()));
        }
        r
    }
}

/// An array of records in the initialized state: it exclusively owns the
/// records' memory and gives bounds-checked indexed access, mutable disjoint
/// sub-slicing, and a constant-time whole-array swap. Destruction runs every
/// record's destructors in index order and releases the whole block once.
pub struct DstArray<H, F> {
    records: Vec<DstData<H, F>>,
    footer_len: usize,
}

impl<H, F> View for DstArray<H, F> {
    type V = Seq<Record<H, F>>;

    closed spec fn view(&self) -> Seq<Record<H, F>> {
        Seq::new(self.records@.len(), |i: int| self.records@[i]@)
    }
}

impl<H, F> DstArray<H, F> {
    /// The footer length shared by every record of the array.
    pub closed spec fn spec_footer_len(self) -> nat {
        self.footer_len as nat
    }

    /// The array's structural invariant: every record has the shared footer
    /// length, and the array's layout is representable.
    pub open spec fn wf(self) -> bool {
        &&& forall|i: int| 0 <= i < self@.len() ==> (#[trigger] self@[i]).footer.len()
            == self.spec_footer_len()
        &&& array_layout_ok::<H, F>(self.spec_footer_len() as int, self@.len() as int)
    }

    /// The number of records in the array.
    pub fn length(&self) -> (r: usize)
        ensures
            r == self@.len(),
    {
        self.records.len()
    }

    /// The byte distance between consecutive records of the array: one
    /// record's padded layout size.
    pub fn get_stride(&self) -> (r: usize)
        requires
            self.wf(),
        ensures
            r as int == rec_size::<H, F>(self.spec_footer_len() as int),
    {
        match DstData::<H, F>::layout_of(self.footer_len) {
            Ok(l) => l.size,
            Err(_) => unreached(),
        }
    }

    /// Read access to the header of the record at `arr_index`; an
    /// out-of-bounds index is a caller error.
    pub fn get_header_ref(&self, arr_index: usize) -> (r: &H)
        requires
            arr_index < self@.len(),
        ensures
            *r == self@[arr_index as int].header,
    {
        let rec = &self.records[arr_index];
        rec.get_header()
    }

    /// Write access to the header of the record at `arr_index`; an
    /// out-of-bounds index is a caller error. Other records are untouched.
    pub fn get_header_ref_mut(&mut self, arr_index: usize) -> (r: &mut H)
        requires
            arr_index < old(self)@.len(),
        ensures
            *r == old(self)@[arr_index as int].header,
            final(self)@ == old(self)@.update(
                arr_index as int,
                old(self)@[arr_index as int].with_header(*final(r)),
            ),
            final(self).spec_footer_len() == old(self).spec_footer_len(),
            old(self).wf() ==> final(self).wf(),
    {
        let rec = &mut self.records[arr_index];
        let r = rec.get_header_mut();
        proof {
            assert(after_borrow(*self)@ =~= old(self)@.update(
                arr_index as int,
                old(self)@[arr_index as int].with_header(*final(r)),
            ));
            if old(self).wf() {
                lemma_array_wf_update(
                    *old(self),
                    after_borrow(*self),
                    arr_index as int,
                    old(self)@[arr_index as int].with_header(*final(r)),
                );
            }
        }
        r
    }

    /// Read access to the footer of the record at `arr_index`; an
    /// out-of-bounds index is a caller error.
    pub fn get_footer_ref(&self, arr_index: usize) -> (r: &[F])
        requires
            arr_index < self@.len(),
        ensures
            r@ == self@[arr_index as int].footer,
    {
        let rec = &self.records[arr_index];
        rec.get_footer()
    }

    /// Write access to the footer of the record at `arr_index`; an
    /// out-of-bounds index is a caller error. The footer's length cannot
    /// change through the returned slice; other records are untouched.
    pub fn get_footer_ref_mut(&mut self, arr_index: usize) -> (r: &mut [F])
        requires
            arr_index < old(self)@.len(),
        ensures
            r@ == old(self)@[arr_index as int].footer,
            final(self)@ == old(self)@.update(
                arr_index as int,
                old(self)@[arr_index as int].with_footer(final(r)@),
            ),
            final(self).spec_footer_len() == old(self).spec_footer_len(),
            old(self).wf() && final(r)@.len() == old(self).spec_footer_len()
                ==> final(self).wf(),
    {
        let rec = &mut self.records[arr_index];
        let r = rec.get_mut_footer();
        proof {
            assert(after_borrow(*self)@ =~= old(self)@.update(
                arr_index as int,
                old(self)@[arr_index as int].with_footer(final(r)@),
            ));
            if old(self).wf() {
                lemma_array_wf_update(
                    *old(self),
                    after_borrow(*self),
                    arr_index as int,
                    old(self)@[arr_index as int].with_footer(final(r)@),
                );
            }
        }
        r
    }

    /// The footer length shared by every record of the array.
    pub fn get_footer_len(&self) -> (r: usize)
        ensures
            r == self.spec_footer_len(),
    {
        self.footer_len
    }

    /// Read access to the whole record at `index`; an out-of-bounds index is
    /// a caller error.
    pub fn get_arr_element(&self, index: usize) -> (r: &DstData<H, F>)
        requires
            index < self@.len(),
        ensures
            r@ == self@[index as int],
    {
        &self.records[index]
    }

    /// Write access to the whole record at `index`; an out-of-bounds index
    /// is a caller error. The record's footer length cannot change through
    /// the returned reference; other records are untouched.
    pub fn get_mut_arr_element(&mut self, index: usize) -> (r: &mut DstData<H, F>)
        requires
            index < old(self)@.len(),
        ensures
            r@ == old(self)@[index as int],
            final(self)@ == old(self)@.update(index as int, final(r)@),
            final(self).spec_footer_len() == old(self).spec_footer_len(),
            old(self).wf() && final(r)@.footer.len() == old(self).spec_footer_len()
                ==> final(self).wf(),
    {
        let r = &mut self.records[index];
        proof {
            assert(after_borrow(*self)@ =~= old(self)@.update(index as int, final(r)@));
            if old(self).wf() {
                lemma_array_wf_update(*old(self), after_borrow(*self), index as int, final(r)@);
            }
        }
        r
    }

    /// A mutable slice over the records `[start, end)` of the array, with no
    /// ownership transfer; `start >= end` or `end > length` is a caller
    /// error. While the slice lives the array itself is inaccessible; what is
    /// written through the slice lands in the records it covers, and the
    /// records outside `[start, end)` are untouched.
    pub fn get_mut_slice<'s>(&'s mut self, start: usize, end: usize) -> (r: DstSliceMut<
        's,
        H,
        F,
    >)
        requires
            start < end,
            end <= old(self)@.len(),
        ensures
            r@ == old(self)@.subrange(start as int, end as int),
            final(self)@ == old(self)@.subrange(0, start as int) + recs_view(final(r.data)@)
                + old(self)@.subrange(end as int, old(self)@.len() as int),
            final(r.data)@.len() == end - start ==> final(self)@.len() == old(self)@.len(),
            final(r.data)@.len() == end - start ==> forall|j: int|
                0 <= j < old(self)@.len() && !(start <= j < end) ==> final(self)@[j] == old(
                    self,
                )@[j],
            final(r.data)@.len() == end - start ==> forall|j: int|
                start <= j < end ==> final(self)@[j] == final(r.data)@[j - start]@,
            final(self).spec_footer_len() == old(self).spec_footer_len(),
    {
        let all = self.records.as_mut_slice();
        let (_head, tail) = <[DstData<H, F>]>::split_at_mut(all, start);
        let (mid, _rest) = <[DstData<H, F>]>::split_at_mut(tail, end - start);
        let r = DstSliceMut { data: mid };
        proof {
            assert(r@ =~= old(self)@.subrange(start as int, end as int));
            assert(after_borrow(*self)@ =~= old(self)@.subrange(0, start as int) + recs_view(
                final(r.data)@,
            ) + old(self)@.subrange(end as int, old(self)@.len() as int));
        }
        r
    }

    /// Exchanges the two arrays' backing memory and lengths in constant
    /// time: no element is copied and no destructor runs, whatever the two
    /// arrays' footer lengths or sizes. Afterwards each array owns exactly
    /// the records the other held, and each remains independently usable and
    /// destructible.
    pub fn swap(&mut self, arr: &mut DstArray<H, F>)
        ensures
            final(self)@ == old(arr)@,
            final(arr)@ == old(self)@,
            final(self).spec_footer_len() == old(arr).spec_footer_len(),
            final(arr).spec_footer_len() == old(self).spec_footer_len(),
            old(arr).wf() ==> final(self).wf(),
            old(self).wf() ==> final(arr).wf(),
    {
        core::mem::swap(self, arr);
    }
}

/// The builder's invariant survives any overwrite of one record that keeps
/// that record's footer length: every record still has the shared footer
/// length. Callers use this to restore well-formedness after mutating
/// through a raw position accessor.
pub proof fn lemma_uninit_array_wf_update<H, F>(
    pre: MaybeUninitDstArray<H, F>,
    post: MaybeUninitDstArray<H, F>,
    i: int,
    slots: RecordSlots<H, F>,
)
    requires
        pre.wf(),
        0 <= i < pre@.len(),
        post@ == pre@.update(i, slots),
        post.spec_footer_len() == pre.spec_footer_len(),
    ensures
        slots.footer_len() == pre.spec_footer_len() ==> post.wf(),
{
    if slots.footer_len() == pre.spec_footer_len() {
        assert forall|k: int| 0 <= k < post@.len() implies (#[trigger] post@[k]).footer_len()
            == post.spec_footer_len() by {
            assert(post@[k] == pre@.update(i, slots)[k]);
        }
    }
}

/// The owned array's invariant survives any overwrite of one record that
/// keeps that record's footer length: every record still has the shared
/// footer length. Callers use this to restore well-formedness after mutating
/// through `get_mut_arr_element` or `get_footer_ref_mut`.
pub proof fn lemma_array_wf_update<H, F>(
    pre: DstArray<H, F>,
    post: DstArray<H, F>,
    i: int,
    rec: Record<H, F>,
)
    requires
        pre.wf(),
        0 <= i < pre@.len(),
        post@ == pre@.update(i, rec),
        post.spec_footer_len() == pre.spec_footer_len(),
    ensures
        rec.footer.len() == pre.spec_footer_len() ==> post.wf(),
{
    if rec.footer.len() == pre.spec_footer_len() {
        assert forall|k: int| 0 <= k < post@.len() implies (#[trigger] post@[k]).footer.len()
            == post.spec_footer_len() by {
            assert(post@[k] == pre@.update(i, rec)[k]);
        }
    }
}

/// Writes to distinct indices of an array under construction are
/// independent: overwriting the record at `i` leaves the record at every
/// other index exactly as it was, and the record at `i` becomes exactly what
/// was written.
pub proof fn lemma_array_write_independent<H, F>(
    a: Seq<RecordSlots<H, F>>,
    i: int,
    written: RecordSlots<H, F>,
    j: int,
)
    requires
        0 <= i < a.len(),
        0 <= j < a.len(),
        j != i,
    ensures
        a.update(i, written)[j] == a[j],
        a.update(i, written)[i] == written,
        a.update(i, written).len() == a.len(),
{
}

} // verus!
