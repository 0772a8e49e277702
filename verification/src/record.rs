//! Single records. A record is a fixed header of type `H` followed by a
//! footer of `F` elements whose length is fixed when the record is allocated.
//! A record exists in one of two states: uninitialized ([`MaybeUninitDst`]),
//! which only accepts writes and hands out positions whose reads are guarded
//! by the write having happened, and initialized ([`Dst`]), which owns a fully
//! written record and gives read and write access to its fields. The
//! transition is one way, through [`MaybeUninitDst::assume_init`]; in this
//! engine the caller's declaration of full initialization is a checked
//! precondition, so the safe interface can never read an unwritten position.

use vstd::prelude::*;

verus! {

use crate::layout::Layout;
use crate::layout::LayoutError;
use crate::layout::layout_ok;
use crate::layout::rec_align;
use crate::layout::rec_size;
use vstd::layout::layout_for_type_is_valid;
use vstd::pervasive::unreached;
use vstd::slice::slice_index_get;

/// The mathematical value of an initialized record: its header value and the
/// sequence of its footer elements.
#[verifier::ext_equal]
pub ghost struct Record<H, F> {
    pub header: H,
    pub footer: Seq<F>,
}

impl<H, F> Record<H, F> {
    /// The record with the header replaced.
    pub open spec fn with_header(self, h: H) -> Self {
        Record { header: h, footer: self.footer }
    }

    /// The record with the footer replaced.
    pub open spec fn with_footer(self, s: Seq<F>) -> Self {
        Record { header: self.header, footer: s }
    }
}

/// The positions of a record under construction. Every position is a slot
/// that either still awaits its first write (`None`) or holds the value last
/// written to it (`Some`).
#[verifier::ext_equal]
pub ghost struct RecordSlots<H, F> {
    pub header: Option<H>,
    pub footer: Seq<Option<F>>,
}

impl<H, F> RecordSlots<H, F> {
    /// A freshly allocated record with `count` footer slots: no position
    /// written yet.
    pub open spec fn blank(count: nat) -> Self {
        RecordSlots { header: None, footer: Seq::new(count, |i: int| None) }
    }

    /// The number of footer slots, fixed at allocation.
    pub open spec fn footer_len(self) -> nat {
        self.footer.len()
    }

    pub open spec fn header_written(self) -> bool {
        self.header is Some
    }

    pub open spec fn element_written(self, i: int) -> bool {
        self.footer[i] is Some
    }

    pub open spec fn footer_written(self) -> bool {
        forall|i: int| 0 <= i < self.footer.len() ==> self.element_written(i)
    }

    /// Whether every position of the record has been written.
    pub open spec fn fully_written(self) -> bool {
        self.header_written() && self.footer_written()
    }

    /// The slots after a header write.
    pub open spec fn with_header(self, h: H) -> Self {
        RecordSlots { header: Some(h), footer: self.footer }
    }

    /// The slots after the header slot is overwritten wholesale.
    pub open spec fn with_header_slot(self, h: Option<H>) -> Self {
        RecordSlots { header: h, footer: self.footer }
    }

    /// The slots after a single footer element write at index `i`.
    pub open spec fn with_element(self, i: int, f: F) -> Self {
        RecordSlots { header: self.header, footer: self.footer.update(i, Some(f)) }
    }

    /// The slots after the footer slot at `i` is overwritten wholesale.
    pub open spec fn with_element_slot(self, i: int, f: Option<F>) -> Self {
        RecordSlots { header: self.header, footer: self.footer.update(i, f) }
    }

    /// The slots after a whole-footer write of the values `s`.
    pub open spec fn with_footer(self, s: Seq<F>) -> Self {
        RecordSlots { header: self.header, footer: Seq::new(s.len(), |i: int| Some(s[i])) }
    }

    /// The slots after the footer slots are overwritten wholesale.
    pub open spec fn with_footer_slots(self, s: Seq<Option<F>>) -> Self {
        RecordSlots { header: self.header, footer: s }
    }

    /// The footer values, once every footer slot has been written.
    pub open spec fn footer_values(self) -> Seq<F>
        recommends
            self.footer_written(),
    {
        Seq::new(self.footer.len(), |i: int| self.footer[i].unwrap())
    }

    /// The record's value, once every position has been written.
    pub open spec fn value(self) -> Record<H, F>
        recommends
            self.fully_written(),
    {
        Record { header: self.header.unwrap(), footer: self.footer_values() }
    }
}

/// The record values of a run of records, in order.
pub open spec fn recs_view<H, F>(s: Seq<DstData<H, F>>) -> Seq<Record<H, F>> {
    Seq::new(s.len(), |i: int| s[i]@)
}

/// An initialized record: a header of `H` and a footer of `F` elements,
/// stored together. Values of this type are only ever handed out by the
/// owning types, [`Dst`] and `DstArray`, which obtained them from a builder.
pub struct DstData<H, F> {
    header: H,
    footer: Vec<F>,
}

impl<H, F> View for DstData<H, F> {
    type V = Record<H, F>;

    closed spec fn view(&self) -> Record<H, F> {
        Record { header: self.header, footer: self.footer@ }
    }
}

impl<H, F> DstData<H, F> {
    pub fn get_header(&self) -> (r: &H)
        ensures
            *r == self@.header,
    {
        &self.header
    }

    pub fn get_header_mut(&mut self) -> (r: &mut H)
        ensures
            *r == old(self)@.header,
            final(self)@ == old(self)@.with_header(*final(r)),
    {
        &mut self.header
    }

    pub fn get_footer(&self) -> (r: &[F])
        ensures
            r@ == self@.footer,
    {
        self.footer.as_slice()
    }

    pub fn get_mut_footer(&mut self) -> (r: &mut [F])
        ensures
            r@ == old(self)@.footer,
            final(self)@ == old(self)@.with_footer(final(r)@),
    {
        self.footer.as_mut_slice()
    }

    pub fn get_parts_mut(&mut self) -> (r: (&mut H, &mut [F]))
        ensures
            *r.0 == old(self)@.header,
            r.1@ == old(self)@.footer,
            final(self)@ == (Record { header: *final(r.0), footer: final(r.1)@ }),
    {
        (&mut self.header, self.footer.as_mut_slice())
    }

    /// The size and alignment of one record whose footer holds `count`
    /// elements, or an error when that size would overflow the address space.
    pub fn layout_of(count: usize) -> (r: Result<Layout, LayoutError>)
        ensures
            r is Ok <==> layout_ok::<H, F>(count as int),
            r matches Ok(l) ==> l.size as int == rec_size::<H, F>(count as int) && l.align as int
                == rec_align::<H, F>(),
    {
        layout_for_type_is_valid::<H>();
        layout_for_type_is_valid::<F>();
        let size_h = core::mem::size_of::<H>();
        let size_f = core::mem::size_of::<F>();
        let align_f = core::mem::align_of::<F>();
        let align_h = core::mem::align_of::<H>();
        let align = if align_h >= align_f {
            align_h
        } else {
            align_f
        };
        proof {
            crate::layout::lemma_rec_layout::<H, F>(count as int);
        }
        let pad_header = (align_f - size_h % align_f) % align_f;
        let offset = match size_h.checked_add(pad_header) {
            Some(o) => o,
            None => {
                return Err(LayoutError);
            },
        };
        let footer_bytes = match count.checked_mul(size_f) {
            Some(b) => b,
            None => {
                return Err(LayoutError);
            },
        };
        let unpadded = match offset.checked_add(footer_bytes) {
            Some(u) => u,
            None => {
                return Err(LayoutError);
            },
        };
        let pad_tail = (align - unpadded % align) % align;
        let padded = match unpadded.checked_add(pad_tail) {
            Some(p) => p,
            None => {
                return Err(LayoutError);
            },
        };
        if padded > isize::MAX as usize {
            Err(LayoutError)
        } else {
            Ok(Layout { size: padded, align })
        }
    }
}

/// A record in the uninitialized state: memory for the header and for a fixed
/// number of footer elements is reserved, and each position records whether
/// it has been written. Reads of a position require that it was written;
/// [`MaybeUninitDst::assume_init`] requires that every position was.
pub struct MaybeUninitDst<H, F> {
    header: Option<H>,
    footer: Vec<Option<F>>,
}

impl<H, F> View for MaybeUninitDst<H, F> {
    type V = RecordSlots<H, F>;

    closed spec fn view(&self) -> RecordSlots<H, F> {
        RecordSlots { header: self.header, footer: self.footer@ }
    }
}

impl<H, F> MaybeUninitDst<H, F> {
    /// Reserves one uninitialized record with `count` footer slots. The
    /// record's layout must be representable; an unrepresentable layout is a
    /// caller error, as is exhaustion of the underlying allocator.
    pub fn new(count: usize) -> (r: MaybeUninitDst<H, F>)
        requires
            layout_ok::<H, F>(count as int),
        ensures
            r@ == RecordSlots::<H, F>::blank(count as nat),
    {
        let mut footer: Vec<Option<F>> = Vec::with_capacity(count);
        let mut i: usize = 0;
        while i < count
            invariant
                i <= count,
                footer@.len() == i,
                forall|j: int| 0 <= j < i ==> footer@[j] is None,
            decreases count - i,
        {
            footer.push(None);
            i += 1;
        }
        let r = MaybeUninitDst { header: None, footer };
        proof {
            assert(r@ =~= RecordSlots::<H, F>::blank(count as nat));
        }
        r
    }

    /// Writes the header position. A second write simply overwrites: the
    /// previous content is treated as uninitialized memory, not a live value.
    pub fn write_header(&mut self, header: H)
        ensures
            final(self)@ == old(self)@.with_header(header),
    {
        self.header = Some(header);
    }

    /// Writes every footer position, in index order, from a slice whose
    /// length must equal the record's footer length; a mismatched length is a
    /// caller error.
    pub fn write_footer(&mut self, footer: &[F]) where F: Copy
        requires
            footer@.len() == old(self)@.footer_len(),
        ensures
            final(self)@ == old(self)@.with_footer(footer@),
    {
        let n = footer.len();
        let mut i: usize = 0;
        while i < n
            invariant
                i <= n,
                n == footer@.len(),
                self@.footer.len() == n,
                self@.header == old(self)@.header,
                forall|j: int| 0 <= j < i ==> self@.footer[j] == Some(footer@[j]),
            decreases n - i,
        {
            let value = *slice_index_get(footer, i);
            self.footer[i] = Some(value);
            i += 1;
        }
        proof {
            assert(self@ =~= old(self)@.with_footer(footer@));
        }
    }

    /// Writes the footer position at `index`, which must be in bounds; an
    /// out-of-bounds index is a caller error.
    pub fn write_footer_element(&mut self, index: usize, element: F)
        requires
            index < old(self)@.footer_len(),
        ensures
            final(self)@ == old(self)@.with_element(index as int, element),
    {
        self.footer[index] = Some(element);
    }

    /// The caller's declaration that the header and every footer element have
    /// been written; here that declaration is checked, so the resulting owned
    /// record is initialized by construction. Consumes the builder.
    pub fn assume_init(self) -> (r: Dst<H, F>)
        requires
            self@.fully_written(),
        ensures
            r@ == self@.value(),
    {
        Dst { data: self.into_data() }
    }

    /// Extracts the written record. Shared by the single-record and the
    /// array builders.
    pub(crate) fn into_data(self) -> (r: DstData<H, F>)
        requires
            self@.fully_written(),
        ensures
            r@ == self@.value(),
    {
        let ghost slots = self@;
        let MaybeUninitDst { header, footer } = self;
        let header_value = match header {
            Some(h) => h,
            None => unreached(),
        };
        let mut slots_left = footer;
        let mut reversed: Vec<F> = Vec::new();
        while slots_left.len() > 0
            invariant
                slots_left@.len() + reversed@.len() == slots.footer.len(),
                forall|j: int| 0 <= j < slots_left@.len() ==> slots_left@[j] == slots.footer[j],
                forall|j: int| 0 <= j < reversed@.len() ==> reversed@[j] == slots.footer[slots.footer.len() - 1 - j].unwrap(),
                slots.footer_written(),
            decreases slots_left@.len(),
        {
            proof {
                assert(slots.element_written(slots_left@.len() - 1));
            }
            let slot = slots_left.pop();
            match slot {
                Some(Some(value)) => reversed.push(value),
                _ => unreached(),
            }
        }
        let mut values: Vec<F> = Vec::new();
        while reversed.len() > 0
            invariant
                reversed@.len() + values@.len() == slots.footer.len(),
                forall|j: int| 0 <= j < reversed@.len() ==> reversed@[j] == slots.footer[slots.footer.len() - 1 - j].unwrap(),
                forall|j: int| 0 <= j < values@.len() ==> values@[j] == slots.footer[j].unwrap(),
                slots.footer_written(),
            decreases reversed@.len(),
        {
            let value = match reversed.pop() {
                Some(v) => v,
                None => unreached(),
            };
            values.push(value);
        }
        let r = DstData { header: header_value, footer: values };
        proof {
            assert(r@.footer =~= slots.footer_values());
        }
        r
    }

    /// Read access to the header position; the header must have been
    /// written, as reading it earlier would read uninitialized memory.
    pub fn get_header_ptr(&self) -> (r: &H)
        requires
            self@.header_written(),
        ensures
            *r == self@.header.unwrap(),
    {
        match &self.header {
            Some(h) => h,
            None => unreached(),
        }
    }

    /// Write access to the header position as a raw slot: writing `Some`
    /// corresponds to a raw write of the position, written or not.
    pub fn get_header_ptr_mut(&mut self) -> (r: &mut Option<H>)
        ensures
            *r == old(self)@.header,
            final(self)@ == old(self)@.with_header_slot(*final(r)),
    {
        &mut self.header
    }

    /// Reads the whole footer; every footer position must have been written.
    /// Where the original interface hands out a raw position to read
    /// through, this checked model returns the values themselves.
    pub fn get_footer_ptr(&self) -> (r: Vec<F>) where F: Copy
        requires
            self@.footer_written(),
        ensures
            r@ == self@.footer_values(),
    {
        let mut values: Vec<F> = Vec::new();
        let n = self.footer.len();
        let mut i: usize = 0;
        while i < n
            invariant
                i <= n,
                n == self@.footer.len(),
                self@.footer_written(),
                values@.len() == i,
                forall|j: int| 0 <= j < i ==> values@[j] == self@.footer[j].unwrap(),
            decreases n - i,
        {
            proof {
                assert(self@.element_written(i as int));
            }
            let slot: &Option<F> = slice_index_get(self.footer.as_slice(), i);
            match slot {
                Some(value) => values.push(*value),
                None => unreached(),
            }
            i += 1;
        }
        proof {
            assert(values@ =~= self@.footer_values());
        }
        values
    }

    /// Write access to the footer positions as raw slots, in index order;
    /// the number of slots cannot change through the returned slice.
    pub fn get_footer_ptr_mut(&mut self) -> (r: &mut [Option<F>])
        ensures
            r@ == old(self)@.footer,
            final(self)@ == old(self)@.with_footer_slots(final(r)@),
    {
        self.footer.as_mut_slice()
    }

    /// Read access to the footer position at `index`, which must be in
    /// bounds and must have been written.
    pub fn get_footer_element_ptr(&self, index: usize) -> (r: &F)
        requires
            index < self@.footer_len(),
            self@.element_written(index as int),
        ensures
            *r == self@.footer[index as int].unwrap(),
    {
        let slot: &Option<F> = slice_index_get(self.footer.as_slice(), index);
        match slot {
            Some(value) => value,
            None => unreached(),
        }
    }

    /// Write access to the footer position at `index` as a raw slot; the
    /// index must be in bounds.
    pub fn get_footer_element_ptr_mut(&mut self, index: usize) -> (r: &mut Option<F>)
        requires
            index < old(self)@.footer_len(),
        ensures
            *r == old(self)@.footer[index as int],
            final(self)@ == old(self)@.with_element_slot(index as int, *final(r)),
    {
        &mut self.footer[index]
    }

    /// The number of footer slots, fixed when the record was reserved.
    pub fn get_footer_len(&self) -> (r: usize)
        ensures
            r == self@.footer_len(),
    {
        self.footer.len()
    }
}

/// A record in the initialized state: it exclusively owns its memory and
/// gives read and write access to the header and the footer. Destruction
/// runs the element destructors and releases the memory.
pub struct Dst<H, F> {
    data: DstData<H, F>,
}

impl<H, F> View for Dst<H, F> {
    type V = Record<H, F>;

    closed spec fn view(&self) -> Record<H, F> {
        self.data@
    }
}

impl<H, F> Dst<H, F> {
    pub fn get_header_ref(&self) -> (r: &H)
        ensures
            *r == self@.header,
    {
        self.data.get_header()
    }

    pub fn get_header_ref_mut(&mut self) -> (r: &mut H)
        ensures
            *r == old(self)@.header,
            final(self)@ == old(self)@.with_header(*final(r)),
    {
        self.data.get_header_mut()
    }

    pub fn get_footer_ref(&self) -> (r: &[F])
        ensures
            r@ == self@.footer,
    {
        self.data.get_footer()
    }

    pub fn get_footer_ref_mut(&mut self) -> (r: &mut [F])
        ensures
            r@ == old(self)@.footer,
            final(self)@ == old(self)@.with_footer(final(r)@),
    {
        self.data.get_mut_footer()
    }

    /// The footer length, fixed when the record was allocated.
    pub fn get_footer_len(&self) -> (r: usize)
        ensures
            r == self@.footer.len(),
    {
        self.data.footer.len()
    }
}

/// Writing a header value into a record under construction and reading the
/// header back yields the written value, and leaves every footer slot as it
/// was (round trip).
pub proof fn lemma_header_round_trip<H, F>(slots: RecordSlots<H, F>, h: H)
    ensures
        slots.with_header(h).header_written(),
        slots.with_header(h).header.unwrap() == h,
        slots.with_header(h).footer == slots.footer,
{
}

/// Writing a footer sequence whose length equals the record's footer length
/// and reading the footer back yields the same sequence, element for
/// element, and leaves the header slot as it was (round trip). A sequence of
/// any other length is rejected by `write_footer`'s precondition.
pub proof fn lemma_footer_round_trip<H, F>(slots: RecordSlots<H, F>, s: Seq<F>)
    requires
        s.len() == slots.footer_len(),
    ensures
        slots.with_footer(s).footer_written(),
        slots.with_footer(s).footer_values() == s,
        slots.with_footer(s).header == slots.header,
{
    assert(slots.with_footer(s).footer_values() =~= s);
}

/// Writing one footer element at an in-bounds index and reading that index
/// back yields the written value, and leaves every other slot as it was
/// (round trip). An out-of-bounds index is rejected by
/// `write_footer_element`'s precondition.
pub proof fn lemma_element_round_trip<H, F>(slots: RecordSlots<H, F>, i: int, f: F)
    requires
        0 <= i < slots.footer_len(),
    ensures
        slots.with_element(i, f).element_written(i),
        slots.with_element(i, f).footer[i].unwrap() == f,
        slots.with_element(i, f).footer_len() == slots.footer_len(),
        forall|j: int|
            0 <= j < slots.footer_len() && j != i ==> slots.with_element(i, f).footer[j]
                == slots.footer[j],
        slots.with_element(i, f).header == slots.header,
{
}

} // verus!
