use memmap2::MmapMut;
use mmap_buffer::layout::{capacity_bytes, zero_fill_plan, ZERO_BLOCK};
use mmap_buffer::backed::check_layout;
use mmap_buffer::{BackedBuffer, Buffer, BufferError};

fn mapping_with(bytes: &[u8]) -> MmapMut {
    let mut m = MmapMut::map_anon(bytes.len()).unwrap();
    m.copy_from_slice(bytes);
    m
}

fn blank_mapping(len: usize) -> MmapMut {
    MmapMut::map_anon(len).unwrap()
}

#[test]
fn read() {
    let map = mapping_with("hello, world!".as_bytes());
    let buf = BackedBuffer::<u8, ()>::load(map, ()).expect("");
    assert_eq!(&buf.to_vec()[..], "hello, world!".as_bytes());
}

#[test]
fn write() {
    let map = mapping_with("hello, world!".as_bytes());
    let mut buf = BackedBuffer::<u8, ()>::load(map, ()).expect("");
    buf.copy_from("halle, werld!".as_bytes());
    assert_eq!(&buf.to_vec()[..], "halle, werld!".as_bytes());
    let (map, ()) = buf.into_parts();
    assert_eq!(&map[..], "halle, werld!".as_bytes());
}

#[test]
fn reload_keeps_written_values() {
    let mut buf = BackedBuffer::<i32, ()>::new(100, blank_mapping(400), ()).unwrap();
    buf.set(10, -10);
    buf.set(20, 27);
    let (map, ()) = buf.into_parts();
    let buf = BackedBuffer::<i32, ()>::load(map, ()).unwrap();
    assert_eq!(buf.len(), 100);
    for i in 0..100 {
        let expected = match i {
            10 => -10,
            20 => 27,
            _ => 0,
        };
        assert_eq!(buf.get(i), expected);
    }
}

#[test]
fn new_zeroes_every_byte() {
    let map = mapping_with(&[0xAB; 24]);
    let buf = BackedBuffer::<u64, ()>::new(3, map, ()).unwrap();
    assert_eq!(buf.to_vec(), vec![0u64, 0, 0]);
    let (map, ()) = buf.into_parts();
    assert_eq!(map.len(), 24);
    assert!(map.iter().all(|b| *b == 0));
}

#[test]
fn new_with_zero_capacity() {
    let buf = BackedBuffer::<u32, ()>::new(0, blank_mapping(0), ()).unwrap();
    assert_eq!(buf.len(), 0);
    assert!(buf.to_vec().is_empty());
}

#[test]
fn new_rejects_wrong_mapping_length() {
    let r = BackedBuffer::<u32, ()>::new(3, blank_mapping(8), ());
    assert!(matches!(r, Err(BufferError::LayoutMismatch)));
}

#[test]
fn load_rejects_partial_element() {
    let r = BackedBuffer::<u32, ()>::load(blank_mapping(7), ());
    assert!(matches!(r, Err(BufferError::LayoutMismatch)));
    let r = Buffer::<u16, ()>::load_from_disk(blank_mapping(5), ());
    assert!(matches!(r, Err(BufferError::LayoutMismatch)));
}

#[test]
fn load_exposes_bytes_verbatim() {
    let map = mapping_with(&[4, 3, 2, 1, 0xff, 0xff, 0xff, 0xff]);
    let buf = BackedBuffer::<u32, ()>::load(map, ()).unwrap();
    assert_eq!(buf.to_vec(), vec![0x0102_0304u32, 0xffff_ffff]);
    let map = mapping_with(&[0xfe, 0xff, 0xff, 0xff]);
    let buf = BackedBuffer::<i32, ()>::load(map, ()).unwrap();
    assert_eq!(buf.get(0), -2);
}

#[test]
fn set_writes_little_endian_bytes() {
    let mut buf = BackedBuffer::<u32, ()>::new(2, blank_mapping(8), ()).unwrap();
    buf.set(1, 0x0102_0304);
    let (map, ()) = buf.into_parts();
    assert_eq!(&map[..], &[0, 0, 0, 0, 4, 3, 2, 1]);
    let mut buf = BackedBuffer::<u16, ()>::new(1, blank_mapping(2), ()).unwrap();
    buf.set(0, 0xbeef);
    assert_eq!(buf.get(0), 0xbeef);
    let (map, ()) = buf.into_parts();
    assert_eq!(&map[..], &[0xef, 0xbe]);
}

#[test]
fn handle_is_kept() {
    let buf = BackedBuffer::<u8, u32>::new(2, blank_mapping(2), 7).unwrap();
    assert_eq!(*buf.handle(), 7);
}

#[test]
fn copy_from_slice_builds_equal_buffer() {
    let data: Vec<i32> = vec![5, -6, 7, i32::MIN, i32::MAX];
    let buf = BackedBuffer::<i32, ()>::copy_from_slice(&data, blank_mapping(20), ()).unwrap();
    assert_eq!(buf.len(), 5);
    assert_eq!(buf.to_vec(), data);
    let r = BackedBuffer::<i32, ()>::copy_from_slice(&data, blank_mapping(16), ());
    assert!(matches!(r, Err(BufferError::LayoutMismatch)));
}

#[test]
fn both_storages_read_alike() {
    let mut disk = Buffer::<u64, ()>::new_on_disk(6, blank_mapping(48), ()).unwrap();
    let mut memory = Buffer::<u64, ()>::new_in_memory(6);
    let writes: [(usize, u64); 5] = [(0, 1), (5, u64::MAX), (2, 42), (0, 3), (4, 1 << 40)];
    for (i, v) in writes {
        disk.set(i, v);
        memory.set(i, v);
    }
    assert_eq!(disk.to_vec(), memory.to_vec());
    assert_eq!(memory.to_vec(), vec![3, 0, 42, 0, 1 << 40, u64::MAX]);
    for i in 0..6 {
        assert_eq!(disk.get(i), memory.get(i));
    }
    assert_eq!(disk.len(), memory.len());
}

#[test]
fn buffer_constructors() {
    let disk = Buffer::<u8, ()>::from_slice_on_disk(b"abc", blank_mapping(3), ()).unwrap();
    assert!(matches!(disk, Buffer::Disk(_)));
    assert_eq!(disk.to_vec(), b"abc".to_vec());
    let memory = Buffer::<u8, ()>::from_vec_in_memory(b"abc".to_vec());
    assert_eq!(memory.to_vec(), disk.to_vec());
    let loaded = Buffer::<u8, ()>::load_from_disk(mapping_with(b"xyz"), ()).unwrap();
    assert_eq!(loaded.to_vec(), b"xyz".to_vec());
    let mut memory = memory;
    memory.copy_from(b"def");
    assert_eq!(memory.to_vec(), b"def".to_vec());
    let r = Buffer::<u8, ()>::new_on_disk(4, blank_mapping(3), ());
    assert!(matches!(r, Err(BufferError::LayoutMismatch)));
    let empty = Buffer::<i32, ()>::new_in_memory(0);
    assert_eq!(empty.len(), 0);
}

#[test]
fn zero_fill_blocks() {
    assert_eq!(zero_fill_plan(0), Vec::<usize>::new());
    assert_eq!(zero_fill_plan(10), vec![10]);
    assert_eq!(zero_fill_plan(ZERO_BLOCK), vec![4096]);
    assert_eq!(zero_fill_plan(2 * 4096 + 5), vec![4096, 4096, 5]);
}

#[test]
fn capacity_in_bytes() {
    assert_eq!(capacity_bytes::<i32>(100), Some(400));
    assert_eq!(capacity_bytes::<u8>(13), Some(13));
    assert_eq!(capacity_bytes::<u64>(usize::MAX / 4), None);
}

#[test]
fn layout_check_outcome_decides() {
    let map = mapping_with(&[1, 0, 2, 0]);
    let buf = BackedBuffer::<u16, ()>::from_layout_check(map, (), Ok(2)).unwrap();
    assert_eq!(buf.to_vec(), vec![1u16, 2]);
    let refused = Err(bytemuck::PodCastError::TargetAlignmentGreaterAndInputNotAligned);
    let r = BackedBuffer::<u16, ()>::from_layout_check(blank_mapping(4), (), refused);
    assert!(matches!(r, Err(BufferError::LayoutMismatch)));
}

#[test]
fn layout_check_counts_elements() {
    assert_eq!(check_layout::<u8>(&blank_mapping(13)).unwrap(), 13);
    assert_eq!(check_layout::<u32>(&blank_mapping(12)).unwrap(), 3);
    assert!(check_layout::<u64>(&blank_mapping(12)).is_err());
    assert_eq!(check_layout::<i16>(&blank_mapping(0)).unwrap(), 0);
}

#[test]
fn new_decides_on_check_outcome() {
    let buf = BackedBuffer::<i32, ()>::new_from_layout_check(2, mapping_with(&[9; 8]), (), Ok(2)).unwrap();
    assert_eq!(buf.to_vec(), vec![0, 0]);
    let r = BackedBuffer::<i32, ()>::new_from_layout_check(3, blank_mapping(8), (), Ok(2));
    assert!(matches!(r, Err(BufferError::LayoutMismatch)));
    let refused = Err(bytemuck::PodCastError::OutputSliceWouldHaveSlop);
    let r = BackedBuffer::<i32, ()>::new_from_layout_check(2, blank_mapping(8), (), refused);
    assert!(matches!(r, Err(BufferError::LayoutMismatch)));
}

#[test]
fn copy_decides_on_check_outcome() {
    let data: [i16; 2] = [-1, 258];
    let buf = BackedBuffer::<i16, ()>::copy_from_slice_from_layout_check(&data, blank_mapping(4), (), Ok(2)).unwrap();
    assert_eq!(buf.to_vec(), data.to_vec());
    let (map, ()) = buf.into_parts();
    assert_eq!(&map[..], &[0xff, 0xff, 2, 1]);
    let r = BackedBuffer::<i16, ()>::copy_from_slice_from_layout_check(&data, blank_mapping(6), (), Ok(3));
    assert!(matches!(r, Err(BufferError::LayoutMismatch)));
    let r = BackedBuffer::<i16, ()>::copy_from_slice_from_layout_check(
        &data,
        blank_mapping(4),
        (),
        Err(bytemuck::PodCastError::SizeMismatch),
    );
    assert!(matches!(r, Err(BufferError::LayoutMismatch)));
}

#[test]
fn copy_hello_world_bytes() {
    let buf = BackedBuffer::<u8, ()>::copy_from_slice(b"hello, world!", blank_mapping(13), ()).unwrap();
    assert_eq!(buf.len(), 13);
    let (map, ()) = buf.into_parts();
    assert_eq!(&map[..], b"hello, world!");
}

#[test]
fn signed_elements_round_trip() {
    let mut a = BackedBuffer::<i8, ()>::new(2, blank_mapping(2), ()).unwrap();
    a.set(1, -128);
    assert_eq!(a.to_vec(), vec![0, -128]);
    let (map, ()) = a.into_parts();
    assert_eq!(&map[..], &[0, 0x80]);
    let mut b = BackedBuffer::<i64, ()>::new(1, blank_mapping(8), ()).unwrap();
    b.set(0, -2);
    assert_eq!(b.get(0), -2);
    let (map, ()) = b.into_parts();
    assert_eq!(&map[..], &[0xfe, 0xff, 0xff, 0xff, 0xff, 0xff, 0xff, 0xff]);
    let loaded = BackedBuffer::<i16, ()>::load(mapping_with(&[0x00, 0x80]), ()).unwrap();
    assert_eq!(loaded.get(0), i16::MIN);
}
