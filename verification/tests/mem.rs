use fast3d::mem::RdramImage;

#[test]
fn read_i8_sign_extends() {
    let r = RdramImage::new(&[0x7f, 0x80, 0xff]);
    assert_eq!(r.read_i8(0), 127);
    assert_eq!(r.read_i8(1), -128);
    assert_eq!(r.read_i8(2), -1);
}

#[test]
fn rdramimage_dlmemory_basics() {
    let bytes = vec![0x12, 0x34, 0x56, 0x78, 0x9A, 0xBC, 0xDE, 0xF0, 0xAA, 0xBB];
    let r = RdramImage::new(&bytes);
    let c = r.read_command(0);
    assert_eq!((c.w0, c.w1, c.w1_addr), (0x1234_5678, 0x9ABC_DEF0, 0x9ABC_DEF0u64));
    assert_eq!(r.command_stride(), 8);
    assert!(r.in_bounds(0, 8));
    assert!(!r.in_bounds(8, 8));
    assert_eq!(r.read_u16(8), 0xAABB);
    assert_eq!(r.read_bytes(8, 2), &[0xAA, 0xBB]);
}

#[test]
fn segments_resolve_with_wrapping_base_plus_offset() {
    let bytes = [0u8; 4];
    let mut r = RdramImage::new(&bytes);
    assert_eq!(r.from_segmented(0x0412_3456), 0x0012_3456);
    r.set_segment(4, 0x8000_0000);
    assert_eq!(r.from_segmented(0x0400_0010), 0x8000_0010);
    r.set_segment(0x14, 0xFFFF_FFF0);
    assert_eq!(r.from_segmented(0x0400_0020), 0x0000_0010);
    assert_eq!(r.from_segmented_masked(0x0400_0027), 0x0000_0010);
    assert_eq!(r.resolve(0x0000_0001_0400_0020), 0x0000_0010);
}

#[test]
fn fixed_matrix_reads_integer_and_fraction_halves() {
    let mut bytes = vec![0u8; 64];
    bytes[0] = 0x00;
    bytes[1] = 0x01; // entry 0 integer 1
    bytes[32] = 0x80;
    bytes[33] = 0x00; // entry 0 fraction 0x8000
    bytes[2] = 0xFF;
    bytes[3] = 0xFF; // entry 1 integer -1
    let r = RdramImage::new(&bytes);
    let m = r.read_matrix_fixed(0);
    assert_eq!(m[0][0], 0x0001_8000);
    assert_eq!(m[0][1], -65536);
    assert_eq!(m[3][3], 0);
}

#[test]
fn read_bytes_is_cut_at_the_end_of_memory() {
    let bytes = [1u8, 2, 3];
    let r = RdramImage::new(&bytes);
    assert_eq!(r.read_bytes(1, 5), &[2, 3]);
    assert_eq!(r.read_slice(0, 2), &[1, 2]);
}
