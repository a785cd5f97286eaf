use fast3d::capture::{host_matrix_fixed, host_resolve, MemoryError, MemoryErrorKind};

#[test]
fn host_resolution_adds_nonzero_segment_bases() {
    let mut segments = [0u64; 16];
    // a zero base leaves the whole address as it is
    assert_eq!(host_resolve(&segments, 0x0612_3456), Ok(0x0612_3456));
    segments[6] = 0x7f00_0000_1000;
    assert_eq!(host_resolve(&segments, 0x0612_3456), Ok(0x7f00_0012_4456));
    segments[6] = u64::MAX;
    assert_eq!(
        host_resolve(&segments, 0x0600_0001),
        Err(MemoryError { address: 0x0600_0001, length: 0, kind: MemoryErrorKind::AddressOverflow })
    );
}

#[test]
fn host_fixed_matrix_joins_integer_and_fraction_halves() {
    let mut integer = [0u32; 8];
    let mut fraction = [0u32; 8];
    integer[0] = 0x0001_FFFF; // entries (0,0) = 1.x, (0,1) = -1.x
    fraction[0] = 0x8000_4000;
    integer[7] = 0x0002_0000;
    let m = host_matrix_fixed(&integer, &fraction);
    assert_eq!(m[0][0], 0x0001_8000);
    assert_eq!(m[0][1], 0xFFFF_4000u32 as i32);
    assert_eq!(m[3][2], 0x0002_0000);
    assert_eq!(m[3][3], 0);
}
