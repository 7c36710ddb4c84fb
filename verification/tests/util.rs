use core::marker::PhantomData;
use kernel::util::{bytes_to_elements, k_bytes, IterPtr, OffsetBytes, PtrIter, RawSlice, GIB, KIB, MIB};

#[test]
fn k_bytes_scales_by_1024() {
    assert_eq!(k_bytes(0), 0);
    assert_eq!(k_bytes(1), 1024);
    assert_eq!(k_bytes(4), 4096);
}

#[test]
fn bytes_to_elements_counts_whole_elements() {
    assert_eq!(bytes_to_elements::<u64>(k_bytes(1)), 128);
    assert_eq!(bytes_to_elements::<u64>(0x100000 - 0xe0000), 16384);
    assert_eq!(bytes_to_elements::<u32>(10), 2);
    assert_eq!(bytes_to_elements::<u8>(10), 10);
    assert_eq!(bytes_to_elements::<u64>(7), 0);
}

#[test]
fn element_round_trip() {
    assert_eq!(bytes_to_elements::<u32>(37 * 4), 37);
}

#[test]
fn size_constants() {
    assert_eq!(KIB, 1 << 10);
    assert_eq!(MIB, 1 << 20);
    assert_eq!(GIB, 1 << 30);
}

#[test]
fn offset_bytes_moves_both_ways() {
    assert_eq!(0x1000usize.offset_bytes(16), 0x1010);
    assert_eq!(0x1000usize.offset_bytes(-16), 0xff0);
}

#[test]
fn wrapping_offset_bytes_wraps() {
    assert_eq!(0usize.wrapping_offset_bytes(-1), usize::MAX);
    assert_eq!(usize::MAX.wrapping_offset_bytes(2), 1);
    assert_eq!(0x2000usize.wrapping_offset_bytes(-0x1000), 0x1000);
}

#[test]
fn wrapping_offset_undone_by_opposite_move() {
    let a = 5usize;
    let b = a.wrapping_offset_bytes(-9);
    assert_eq!(b.wrapping_offset_bytes(9), a);
}

#[test]
fn ptr_iter_walks_elements() {
    let mut it = PtrIter::<u64>(0x1000, 3, PhantomData);
    assert_eq!(it.next(), Some(0x1000));
    assert_eq!(it.next(), Some(0x1008));
    assert_eq!(it.next(), Some(0x1010));
    assert_eq!(it.next(), None);
    assert_eq!(it.next(), None);
}

#[test]
fn ptr_iter_wraps_around() {
    let mut it = PtrIter::<u32>(usize::MAX - 1, 2, PhantomData);
    assert_eq!(it.next(), Some(usize::MAX - 1));
    assert_eq!(it.next(), Some(2));
    assert_eq!(it.next(), None);
}

#[test]
fn raw_slice_iter_ptr() {
    let s = RawSlice::<u16> { addr: 0x40e, len: 2, marker: PhantomData };
    let mut it = s.iter_ptr();
    assert_eq!(it.next(), Some(0x40e));
    assert_eq!(it.next(), Some(0x410));
    assert_eq!(it.next(), None);
}
