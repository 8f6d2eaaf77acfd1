use fluxdb::disk::{num_pages, page_offset, DiskError, IoFault};
use fluxdb::page::{read_u16, read_u32, read_u64, write_u16, write_u32, write_u64, PageBuffer};
use fluxdb::text::with_number;

#[test]
fn page_offsets_are_multiples_of_the_page_size() {
    assert_eq!(page_offset(0, 4096, 4096).ok(), Some(0));
    assert_eq!(page_offset(3, 4096, 4096).ok(), Some(12288));
    assert_eq!(page_offset(5, 512, 512).ok(), Some(2560));
}

#[test]
fn wrong_buffer_length_is_refused() {
    assert!(matches!(page_offset(3, 4096, 4095), Err(DiskError::InvalidPageSize)));
    assert!(matches!(page_offset(3, 4096, 0), Err(DiskError::InvalidPageSize)));
    assert!(matches!(page_offset(u64::MAX, 4096, 8), Err(DiskError::InvalidPageSize)));
}

#[test]
fn pages_lie_side_by_side() {
    let a = page_offset(6, 4096, 4096).ok().unwrap();
    let b = page_offset(7, 4096, 4096).ok().unwrap();
    assert_eq!(a + 4096, b);
}

#[test]
fn only_whole_pages_count() {
    assert_eq!(num_pages(0, 4096), 0);
    assert_eq!(num_pages(4095, 4096), 0);
    assert_eq!(num_pages(8192, 4096), 2);
    assert_eq!(num_pages(8193, 4096), 2);
}

#[test]
fn disk_errors_wrap_faults() {
    assert!(matches!(
        DiskError::from(IoFault::UnexpectedEof),
        DiskError::Io(IoFault::UnexpectedEof)
    ));
}

#[test]
fn integers_are_little_endian() {
    let mut buf = PageBuffer::new();
    let bytes = buf.memory_mut();
    write_u16(bytes, 1, 0x0102);
    write_u32(bytes, 3, 0x0304_0506);
    write_u64(bytes, 7, 0x0708_090a_0b0c_0d0e);
    assert_eq!(&bytes[0..16], &[0, 2, 1, 6, 5, 4, 3, 0xe, 0xd, 0xc, 0xb, 0xa, 9, 8, 7, 0]);
    assert_eq!(read_u16(bytes, 1), 0x0102);
    assert_eq!(read_u32(bytes, 3), 0x0304_0506);
    assert_eq!(read_u64(bytes, 7), 0x0708_090a_0b0c_0d0e);
}

#[test]
fn numbers_are_written_in_decimal() {
    assert_eq!(with_number("", 0), "0");
    assert_eq!(with_number("n = ", 1020), "n = 1020");
    assert_eq!(with_number("", u64::MAX), "18446744073709551615");
}
