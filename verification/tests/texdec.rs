use fast3d::combiner::decode_rgba16;
use fast3d::texdec::{
    decode_ci4, decode_ci8, decode_i4, decode_i8, decode_ia16, decode_ia4, decode_ia8,
    decode_rgba32, FormatInfo,
};

#[test]
fn i8_replicates_intensity_to_all_channels_incl_alpha() {
    let out = decode_i8(&[0x00, 0x80], 2, 1);
    assert_eq!(out, vec![0, 0, 0, 0, 128, 128, 128, 128]);
}

#[test]
fn i4_high_nibble_is_even_column_multirow() {
    let out = decode_i4(&[0xF0, 0x0F], 2, 2);
    assert_eq!(&out[0..4], &[255, 255, 255, 255]);
    assert_eq!(&out[4..8], &[0, 0, 0, 0]);
    assert_eq!(&out[8..12], &[0, 0, 0, 0]);
    assert_eq!(&out[12..16], &[255, 255, 255, 255]);
}

#[test]
fn rgba16_dispatch_is_byte_identical() {
    let src: Vec<u8> = (0u8..8).collect();
    let src = &src[..8];
    assert_eq!(FormatInfo { fmt: 0, siz: 2 }.decode(src, 2, 2, &[], 0, 2), decode_rgba16(src));
}

#[test]
fn format_info_tmem_bytes() {
    assert_eq!(FormatInfo { fmt: 4, siz: 1 }.tmem_bytes(4, 4), 16);
    assert_eq!(FormatInfo { fmt: 4, siz: 0 }.tmem_bytes(4, 4), 8);
    assert_eq!(FormatInfo { fmt: 0, siz: 2 }.tmem_bytes(4, 4), 32);
    assert_eq!(FormatInfo { fmt: 0, siz: 3 }.tmem_bytes(4, 4), 64);
}

#[test]
fn rgba32_direct_copy_and_dispatch() {
    let src: Vec<u8> = (0u8..16).collect();
    assert_eq!(decode_rgba32(&src, 2, 2), src);
    assert_eq!(FormatInfo { fmt: 0, siz: 3 }.decode(&src, 2, 2, &[], 0, 0), src);
}

#[test]
fn rgba32_short_src_zero_pads() {
    let out = decode_rgba32(&[0xAA, 0xBB], 1, 1);
    assert_eq!(out, vec![0xAA, 0xBB, 0x00, 0x00]);
}

#[test]
fn ia16_splits_intensity_and_alpha() {
    let out = decode_ia16(&[0x80, 0xFF], 1, 1);
    assert_eq!(out, vec![0x80, 0x80, 0x80, 0xFF]);
}

#[test]
fn ia8_expands_4bit_nibbles() {
    assert_eq!(decode_ia8(&[0xF0], 1, 1), vec![255, 255, 255, 0]);
}

#[test]
fn ia8_expands_4bit_nibbles_both_channels() {
    assert_eq!(decode_ia8(&[0x8A], 1, 1), vec![0x88, 0x88, 0x88, 0xAA]);
}

#[test]
fn ia4_3bit_intensity_1bit_alpha() {
    let out = decode_ia4(&[0xF0], 2, 1);
    assert_eq!(out[3], 255);
    assert!(out[0] > 200);
    assert_eq!(&out[4..8], &[0, 0, 0, 0]);
}

#[test]
fn ia4_alpha_zero_when_bit_clear() {
    let out = decode_ia4(&[0xE0], 2, 1);
    assert_eq!(out[0], 255);
    assert_eq!(out[3], 0);
}

#[test]
fn ia4_multirow_swizzle_canary() {
    let out = decode_ia4(&[0xF0, 0x0F], 2, 2);
    assert_eq!(&out[0..4], &[255, 255, 255, 255]);
    assert_eq!(&out[4..8], &[0, 0, 0, 0]);
    assert_eq!(&out[8..12], &[0, 0, 0, 0]);
    assert_eq!(&out[12..16], &[255, 255, 255, 255]);
}

#[test]
fn ia16_multirow_swizzle_canary() {
    let out = decode_ia16(&[0xFF, 0xFF, 0x00, 0x00, 0x00, 0x00, 0xFF, 0xFF], 2, 2);
    assert_eq!(&out[0..4], &[255, 255, 255, 255]);
    assert_eq!(&out[4..8], &[0, 0, 0, 0]);
    assert_eq!(&out[8..12], &[0, 0, 0, 0]);
    assert_eq!(&out[12..16], &[255, 255, 255, 255]);
}

#[test]
fn ia_alpha_is_not_intensity() {
    let out = decode_ia16(&[0x80, 0x40], 1, 1);
    assert_eq!(out, vec![0x80, 0x80, 0x80, 0x40]);
    let out8 = decode_ia8(&[0xF8], 1, 1);
    assert_eq!(out8, vec![0xFF, 0xFF, 0xFF, 0x88]);
}

#[test]
fn format_info_ia_tmem_bytes() {
    assert_eq!(FormatInfo { fmt: 3, siz: 2 }.tmem_bytes(4, 4), 32);
    assert_eq!(FormatInfo { fmt: 3, siz: 1 }.tmem_bytes(4, 4), 16);
    assert_eq!(FormatInfo { fmt: 3, siz: 0 }.tmem_bytes(4, 4), 8);
}

#[test]
fn ci8_rgba16_entry_lookup() {
    let mut tlut = vec![0u8; 16];
    tlut[8] = 0xF8;
    tlut[9] = 0x01;
    let out = decode_ci8(&[0, 1], 2, 1, &tlut, 2);
    assert_eq!(&out[0..4], &[0, 0, 0, 0]);
    assert_eq!(&out[4..8], &[255, 0, 0, 255]);
}

#[test]
fn ci8_ia16_entry_lookup() {
    let mut tlut = vec![0u8; 16];
    tlut[8] = 0x80;
    tlut[9] = 0xFF;
    let out = decode_ci8(&[1], 1, 1, &tlut, 3);
    assert_eq!(out, vec![0x80, 0x80, 0x80, 0xFF]);
}

#[test]
fn ci4_high_nibble_even_column() {
    let mut tlut = vec![0u8; 256];
    tlut[8] = 0xF8;
    tlut[9] = 0x01;
    let out = decode_ci4(&[0x10], 2, 1, &tlut, 0, 2);
    assert_eq!(&out[0..4], &[255, 0, 0, 255]);
    assert_eq!(&out[4..8], &[0, 0, 0, 0]);
}

#[test]
fn ci4_palette_bank_offset() {
    let mut tlut = vec![0u8; 256];
    tlut[8] = 0xF8;
    tlut[9] = 0x01;
    tlut[(1 << 7) + 8] = 0x07;
    tlut[(1 << 7) + 9] = 0xC1;
    let p0 = decode_ci4(&[0x10], 2, 1, &tlut, 0, 2);
    let p1 = decode_ci4(&[0x10], 2, 1, &tlut, 1, 2);
    assert_eq!(&p0[0..3], &[255, 0, 0]);
    assert_eq!(&p1[0..3], &[0, 255, 0]);
    assert_ne!(p0, p1);
}

#[test]
fn ci8_entry_outside_the_palette_reads_as_zero_and_unknown_tlut_is_transparent() {
    let tlut = vec![0xFFu8; 8];
    assert_eq!(decode_ci8(&[1], 1, 1, &tlut, 2), vec![0, 0, 0, 0]);
    assert_eq!(decode_ci8(&[0], 1, 1, &tlut, 0), vec![0, 0, 0, 0]);
}

#[test]
fn unknown_format_decodes_as_rgba16() {
    let src = [0xF8u8, 0x01, 0x00, 0x3F];
    assert_eq!(FormatInfo { fmt: 1, siz: 2 }.decode(&src, 2, 1, &[], 0, 0), decode_rgba16(&src));
    assert_eq!(decode_rgba16(&src), vec![255, 0, 0, 255, 0, 0, 255, 255]);
}
