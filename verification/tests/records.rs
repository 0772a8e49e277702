use dst_records::DstChunksMut;
use dst_records::DstData;
use dst_records::MaybeUninitDst;
use dst_records::MaybeUninitDstArray;

#[test]
fn writing() {
    let mut dst = MaybeUninitDst::<u32, u64>::new(2);

    dst.write_header(2);

    let header_ref = dst.get_header_ptr();

    assert!(*header_ref == 2);

    let footer = [1, 2];

    dst.write_footer(&footer);

    let footer_ref = dst.get_footer_ptr();

    assert!(footer_ref[0] == 1);
    assert!(footer_ref[1] == 2);
}

#[test]
fn element_write() {
    let mut dst = MaybeUninitDst::<u32, u64>::new(2);

    dst.write_footer_element(1, 1);

    let footer_element_ref = dst.get_footer_element_ptr(1);

    assert!(*footer_element_ref == 1);
}

#[test]
fn element_write2() {
    let mut dst = MaybeUninitDst::<u32, u64>::new(3);

    let footer = [1, 2, 3];

    dst.write_footer(&footer);

    dst.write_footer_element(1, 5);

    let footer_ptr = dst.get_footer_ptr();

    assert!(footer_ptr[0] == 1);
    assert!(footer_ptr[1] == 5);
    assert!(footer_ptr[2] == 3);
}

#[test]
fn assume_init() {
    let mut dst = MaybeUninitDst::<u8, u64>::new(5);

    dst.write_header(1);

    let footer = [0, 1, 2, 3, 4];

    dst.write_footer(&footer);

    let dst = dst.assume_init();

    assert!(dst.get_footer_len() == 5);

    assert!(dst.get_footer_ref().eq(&footer));

    assert!(*dst.get_header_ref() == 1);
}

#[test]
fn array() {
    let mut dst_arr = MaybeUninitDstArray::<u32, u8>::new(2, 2);

    let mut arr = [0, 1];

    dst_arr.write_header(0, 0);
    dst_arr.write_footer(0, &arr);

    arr[1] = 5;

    dst_arr.write_header(1, 1);
    dst_arr.write_footer(1, &arr);

    let dst_arr = dst_arr.assume_init();

    assert!(*dst_arr.get_header_ref(0) == 0);
    assert!(dst_arr.get_footer_ref(0)[0] == 0);
    assert!(dst_arr.get_footer_ref(0)[1] == 1);

    assert!(*dst_arr.get_header_ref(1) == 1);
    assert!(dst_arr.get_footer_ref(1)[0] == 0);
    assert!(dst_arr.get_footer_ref(1)[1] == 5);
}

#[test]
fn swap() {
    let mut dst_arr1 = MaybeUninitDstArray::<u32, u8>::new(1, 1);

    dst_arr1.write_header(0, 0);
    dst_arr1.write_footer_element(0, 0, 0);

    let mut dst_arr1 = dst_arr1.assume_init();

    let mut dst_arr2 = MaybeUninitDstArray::<u32, u8>::new(1, 1);

    dst_arr2.write_header(0, 1);
    dst_arr2.write_footer_element(0, 0, 1);

    let mut dst_arr2 = dst_arr2.assume_init();

    assert!(*dst_arr1.get_header_ref(0) == 0);
    assert!(*dst_arr2.get_header_ref(0) == 1);

    dst_arr1.swap(&mut dst_arr2);

    assert!(*dst_arr1.get_header_ref(0) == 1);
    assert!(*dst_arr2.get_header_ref(0) == 0);

    assert!(dst_arr1.get_footer_ref(0)[0] == 1);
    assert!(dst_arr2.get_footer_ref(0)[0] == 0);
}

#[test]
fn swap_different_shapes() {
    let mut a = MaybeUninitDstArray::<u16, u64>::new(3, 1);
    a.write_header(0, 7);
    a.write_footer(0, &[1, 2, 3]);
    let mut a = a.assume_init();

    let mut b = MaybeUninitDstArray::<u16, u64>::new(1, 2);
    b.write_header(0, 8);
    b.write_footer(0, &[4]);
    b.write_header(1, 9);
    b.write_footer(1, &[5]);
    let mut b = b.assume_init();

    a.swap(&mut b);

    assert_eq!(a.length(), 2);
    assert_eq!(a.get_footer_len(), 1);
    assert_eq!(*a.get_header_ref(0), 8);
    assert_eq!(*a.get_header_ref(1), 9);

    assert_eq!(b.length(), 1);
    assert_eq!(b.get_footer_len(), 3);
    assert_eq!(*b.get_header_ref(0), 7);
    assert_eq!(b.get_footer_ref(0), &[1, 2, 3]);
}

#[test]
fn single_record_scenario() {
    let mut dst = MaybeUninitDst::<u32, u64>::new(2);
    dst.write_header(2);
    dst.write_footer(&[1, 2]);
    let dst = dst.assume_init();

    assert_eq!(*dst.get_header_ref(), 2);
    assert_eq!(dst.get_footer_ref(), &[1, 2]);
}

#[test]
fn header_mutation() {
    let mut dst = MaybeUninitDst::<u32, u64>::new(1);
    dst.write_header(10);
    dst.write_footer_element(0, 20);
    let mut dst = dst.assume_init();

    *dst.get_header_ref_mut() = 11;
    assert_eq!(*dst.get_header_ref(), 11);

    dst.get_footer_ref_mut()[0] = 21;
    assert_eq!(dst.get_footer_ref()[0], 21);
}

#[test]
fn header_overwrite() {
    let mut dst = MaybeUninitDst::<u32, u64>::new(1);
    dst.write_header(1);
    dst.write_header(2);
    assert_eq!(*dst.get_header_ptr(), 2);
    assert_eq!(dst.get_footer_len(), 1);
}

#[test]
fn raw_slot_access() {
    let mut dst = MaybeUninitDst::<u32, u64>::new(2);

    *dst.get_header_ptr_mut() = Some(3);
    assert_eq!(*dst.get_header_ptr(), 3);

    let slots = dst.get_footer_ptr_mut();
    slots[0] = Some(4);
    slots[1] = Some(5);

    *dst.get_footer_element_ptr_mut(1) = Some(6);

    assert_eq!(*dst.get_footer_element_ptr(0), 4);
    assert_eq!(*dst.get_footer_element_ptr(1), 6);

    let dst = dst.assume_init();
    assert_eq!(*dst.get_header_ref(), 3);
    assert_eq!(dst.get_footer_ref(), &[4, 6]);
}

#[test]
fn array_raw_slot_access() {
    let mut arr = MaybeUninitDstArray::<u8, u16>::new(2, 2);

    *arr.get_header_ptr_mut(0) = Some(1);
    *arr.get_header_ptr_mut(1) = Some(2);

    let slots = arr.get_footer_ptr_mut(0);
    slots[0] = Some(10);
    slots[1] = Some(11);

    *arr.get_footer_element_ptr_mut(1, 0) = Some(12);
    *arr.get_footer_element_ptr_mut(1, 1) = Some(13);

    assert_eq!(*arr.get_header_ptr(0), 1);
    assert_eq!(*arr.get_header_ptr(1), 2);
    assert_eq!(arr.get_footer_ptr(0), vec![10, 11]);
    assert_eq!(*arr.get_footer_element_ptr(1, 1), 13);

    let arr = arr.assume_init();
    assert_eq!(arr.get_footer_ref(1), &[12, 13]);
}

#[test]
fn array_element_access() {
    let mut arr = MaybeUninitDstArray::<u32, u8>::new(2, 3);
    for i in 0..3 {
        arr.write_header(i, i as u32);
        arr.write_footer(i, &[i as u8, (i + 1) as u8]);
    }
    let mut arr = arr.assume_init();

    assert_eq!(arr.length(), 3);
    assert_eq!(arr.get_footer_len(), 2);

    let rec = arr.get_arr_element(1);
    assert_eq!(*rec.get_header(), 1);
    assert_eq!(rec.get_footer(), &[1, 2]);

    let rec = arr.get_mut_arr_element(2);
    *rec.get_header_mut() = 9;
    let (header, footer) = rec.get_parts_mut();
    *header = 10;
    footer[0] = 7;
    assert_eq!(*arr.get_header_ref(2), 10);
    assert_eq!(arr.get_footer_ref(2), &[7, 3]);
}

#[test]
fn layout_values() {
    let layout = DstData::<u32, u64>::layout_of(2).unwrap();
    assert_eq!(layout.size, 24);
    assert_eq!(layout.align, 8);

    let layout = DstData::<u32, u8>::layout_of(2).unwrap();
    assert_eq!(layout.size, 8);
    assert_eq!(layout.align, 4);

    let layout = DstData::<u8, u8>::layout_of(0).unwrap();
    assert_eq!(layout.size, 1);
    assert_eq!(layout.align, 1);
}

#[test]
fn layout_overflow() {
    assert!(DstData::<u32, u64>::layout_of(usize::MAX).is_err());
    assert!(DstData::<u32, u64>::layout_of(usize::MAX / 8).is_err());
}

#[test]
fn stride_values() {
    let arr = MaybeUninitDstArray::<u32, u8>::new(2, 2);
    assert_eq!(arr.get_stride(), 8);
    assert_eq!(arr.get_footer_len(), 2);

    let arr = MaybeUninitDstArray::<u8, u64>::new(2, 3);
    assert_eq!(arr.get_stride(), 24);
}

#[test]
fn split_slice() {
    let mut arr = MaybeUninitDstArray::<u32, u8>::new(1, 4);
    for i in 0..4 {
        arr.write_header(i, i as u32);
        arr.write_footer_element(i, 0, i as u8);
    }
    let mut arr = arr.assume_init();

    let slice = arr.get_mut_slice(0, 4);
    assert_eq!(slice.len(), 4);

    let (mut left, mut right) = slice.split_at_mut(2);
    assert_eq!(left.len(), 2);
    assert_eq!(right.len(), 2);

    assert_eq!(*left.index(1).get_header(), 1);
    assert_eq!(*right.index(0).get_header(), 2);

    *left.index_mut(0).get_header_mut() = 100;
    *right.index_mut(1).get_header_mut() = 103;

    assert_eq!(*arr.get_header_ref(0), 100);
    assert_eq!(*arr.get_header_ref(1), 1);
    assert_eq!(*arr.get_header_ref(2), 2);
    assert_eq!(*arr.get_header_ref(3), 103);
}

#[test]
fn sub_slice() {
    let mut arr = MaybeUninitDstArray::<u32, u8>::new(1, 4);
    for i in 0..4 {
        arr.write_header(i, i as u32);
        arr.write_footer_element(i, 0, 0);
    }
    let mut arr = arr.assume_init();

    let mut slice = arr.get_mut_slice(1, 3);
    assert_eq!(slice.len(), 2);
    assert_eq!(*slice.index(0).get_header(), 1);

    let run = slice.as_mut_ptr();
    *run[1].get_header_mut() = 9;

    assert_eq!(*arr.get_header_ref(2), 9);
    assert_eq!(*arr.get_header_ref(3), 3);
}

#[test]
fn chunk_iteration() {
    let mut arr = MaybeUninitDstArray::<u32, u8>::new(1, 5);
    for i in 0..5 {
        arr.write_header(i, 0);
        arr.write_footer_element(i, 0, 0);
    }
    let mut arr = arr.assume_init();

    let slice = arr.get_mut_slice(0, 5);
    let mut chunks = DstChunksMut::new(slice, 2);

    let mut lens = Vec::new();
    let mut count = 0;
    while let Some(mut chunk) = chunks.next() {
        lens.push(chunk.len());
        for i in 0..chunk.len() {
            *chunk.index_mut(i).get_header_mut() = count;
        }
        count += 1;
    }

    assert_eq!(lens, vec![2, 2, 1]);
    assert_eq!(lens.iter().sum::<usize>(), 5);

    assert_eq!(*arr.get_header_ref(0), 0);
    assert_eq!(*arr.get_header_ref(1), 0);
    assert_eq!(*arr.get_header_ref(2), 1);
    assert_eq!(*arr.get_header_ref(3), 1);
    assert_eq!(*arr.get_header_ref(4), 2);
}

#[test]
fn chunk_iteration_exact() {
    let mut arr = MaybeUninitDstArray::<u8, u8>::new(1, 4);
    for i in 0..4 {
        arr.write_header(i, 0);
        arr.write_footer_element(i, 0, 0);
    }
    let mut arr = arr.assume_init();

    let slice = arr.get_mut_slice(0, 4);
    let mut chunks = DstChunksMut::new(slice, 2);

    let mut lens = Vec::new();
    while let Some(chunk) = chunks.next() {
        lens.push(chunk.len());
    }
    assert_eq!(lens, vec![2, 2]);
}

#[test]
fn footer_len_queries() {
    let dst = MaybeUninitDst::<u32, u64>::new(7);
    assert_eq!(dst.get_footer_len(), 7);

    let arr = MaybeUninitDstArray::<u32, u64>::new(3, 2);
    assert_eq!(arr.get_footer_len(), 3);
}

#[test]
fn zero_length_footer() {
    let mut dst = MaybeUninitDst::<u64, u32>::new(0);
    dst.write_header(5);
    dst.write_footer(&[]);
    let dst = dst.assume_init();
    assert_eq!(*dst.get_header_ref(), 5);
    assert_eq!(dst.get_footer_len(), 0);
    assert!(dst.get_footer_ref().is_empty());
}

#[test]
fn empty_array() {
    let arr = MaybeUninitDstArray::<u32, u8>::new(3, 0);
    assert_eq!(arr.get_footer_len(), 3);
    let arr = arr.assume_init();
    assert_eq!(arr.length(), 0);
    assert_eq!(arr.get_footer_len(), 3);
}
