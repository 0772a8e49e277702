//! The layout calculator: the byte size and alignment of one record with a
//! given footer length, and the stride between consecutive records of an
//! array. A record is laid out as the header, then the footer elements at the
//! first offset aligned for them, the whole padded up to the combined
//! alignment, so that records of equal footer length can be placed at a
//! uniform stride.

use vstd::prelude::*;

verus! {

use vstd::arithmetic::div_mod::lemma_fundamental_div_mod;
use vstd::arithmetic::div_mod::lemma_mod_bound;
use vstd::arithmetic::div_mod::lemma_mod_multiples_basic;
use vstd::arithmetic::div_mod::lemma_mod_self_0;
use vstd::arithmetic::div_mod::lemma_small_mod;
use vstd::layout::align_of;
use vstd::layout::size_of;

/// The size and alignment of one allocation, as the layout calculator
/// produces them.
#[derive(Clone, Copy, Debug)]
pub struct Layout {
    pub size: usize,
    pub align: usize,
}

/// Returned when a record's byte size would overflow the address space.
#[derive(Clone, Copy, Debug)]
pub struct LayoutError;

/// The least multiple of `align` that is at least `x`.
pub open spec fn round_up(x: int, align: int) -> int
    recommends
        x >= 0,
        align > 0,
{
    x + (align - x % align) % align
}

/// The alignment of a record: the combined (largest) alignment of the header
/// type and the footer element type.
pub open spec fn rec_align<H, F>() -> int {
    if align_of::<H>() >= align_of::<F>() {
        align_of::<H>() as int
    } else {
        align_of::<F>() as int
    }
}

/// The byte offset of the footer inside a record: the header's size rounded
/// up to the footer element's alignment.
pub open spec fn rec_offset<H, F>() -> int {
    round_up(size_of::<H>() as int, align_of::<F>() as int)
}

/// The padded byte size of one record with `count` footer elements; for
/// arrays, also the stride between consecutive records.
pub open spec fn rec_size<H, F>(count: int) -> int {
    round_up(rec_offset::<H, F>() + count * size_of::<F>() as int, rec_align::<H, F>())
}

/// Whether a single record with `count` footer elements has a representable
/// layout: its padded size stays within the address space.
pub open spec fn layout_ok<H, F>(count: int) -> bool {
    rec_size::<H, F>(count) <= isize::MAX
}

/// Whether an array of `n` records, each with `count` footer elements, has a
/// representable layout.
pub open spec fn array_layout_ok<H, F>(count: int, n: int) -> bool {
    layout_ok::<H, F>(count) && rec_size::<H, F>(count) * n <= isize::MAX
}

/// `round_up(x, align)` is a multiple of `align`, is at least `x`, and adds
/// less than one whole `align`; on a value already aligned it is the value
/// itself.
pub proof fn lemma_round_up(x: int, align: int)
    requires
        x >= 0,
        align > 0,
    ensures
        round_up(x, align) % align == 0,
        x <= round_up(x, align) < x + align,
        x % align == 0 ==> round_up(x, align) == x,
{
    lemma_fundamental_div_mod(x, align);
    lemma_mod_bound(x, align);
    let r = x % align;
    if r == 0 {
        lemma_mod_self_0(align);
        lemma_mod_multiples_basic(x / align, align);
    } else {
        lemma_small_mod((align - r) as nat, align as nat);
        assert(round_up(x, align) == align * (x / align) + align) by {
            lemma_fundamental_div_mod(x, align);
        };
        assert(align * (x / align) + align == align * (x / align + 1)) by (nonlinear_arith);
        lemma_mod_multiples_basic(x / align + 1, align);
    }
}

/// The layout invariant of a record: the footer begins at the first offset
/// aligned for its element type, the padded size covers the header and every
/// footer element, and the size is a multiple of the record's alignment, so
/// that it can serve as an array stride.
pub proof fn lemma_rec_layout<H, F>(count: int)
    requires
        count >= 0,
        align_of::<H>() > 0,
        align_of::<F>() > 0,
    ensures
        rec_offset::<H, F>() >= size_of::<H>(),
        rec_offset::<H, F>() % align_of::<F>() as int == 0,
        rec_size::<H, F>(count) >= rec_offset::<H, F>() + count * size_of::<F>(),
        rec_size::<H, F>(count) % rec_align::<H, F>() == 0,
        rec_align::<H, F>() >= align_of::<H>(),
        rec_align::<H, F>() >= align_of::<F>(),
{
    lemma_round_up(size_of::<H>() as int, align_of::<F>() as int);
    assert(count * size_of::<F>() as int >= 0) by (nonlinear_arith)
        requires
            count >= 0,
            size_of::<F>() as int >= 0,
    ;
    lemma_round_up(rec_offset::<H, F>() + count * size_of::<F>() as int, rec_align::<H, F>());
}

} // verus!
