//! A memory-layout engine for variable-length records: each record is a fixed
//! header followed by a trailing footer array whose length is chosen at
//! allocation time. Records are built through a two-state (uninitialized /
//! initialized) interface, singly or as contiguous arrays sharing one footer
//! length, with disjoint mutable sub-slicing and chunked iteration over arrays.

pub mod array;
pub mod chunks;
pub mod layout;
pub mod record;

pub use array::DstArray;
pub use array::MaybeUninitDstArray;
pub use chunks::DstChunksMut;
pub use chunks::DstSliceMut;
pub use layout::Layout;
pub use layout::LayoutError;
pub use record::Dst;
pub use record::DstData;
pub use record::MaybeUninitDst;
pub use record::Record;
pub use record::RecordSlots;
