use fast3d::combiner::decode_rgba16;
use fast3d::interp::Cmd;
use fast3d::mem::RdramImage;
use fast3d::rdp::{execute_rdp, ColorImage, KeyChannel, Rdp, RdpOutcome, Scissor};
use fast3d::rsp::Rsp;

fn run_cmd(rdram_bytes: &[u8], rdp_in: Rdp, w0: u32, w1: u32) -> (Rdp, RdpOutcome) {
    let rdram = RdramImage::new(rdram_bytes);
    let mut rdp = rdp_in;
    let cmd = Cmd { w0, w1, w1_addr: w1 as u64 };
    let outcome = execute_rdp(&cmd, &mut rdp, &rdram);
    (rdp, outcome)
}

fn clean(o: RdpOutcome) -> bool {
    matches!(o, RdpOutcome::Applied { .. } | RdpOutcome::LoadedBlock { .. } | RdpOutcome::LoadedTile { .. } | RdpOutcome::LoadTlut { .. })
}

#[test]
fn tile_size_subtracts_origin() {
    for (ul, lr, expected) in [
        ([12u32, 20], [24u32, 28], [4u16, 3]),
        ([3, 7], [6, 14], [1, 2]),
        ([20, 40], [4, 0], [1, 1]),
    ] {
        let (rdp, o) = run_cmd(&[], Rdp::default(), 0xf200_0000 | (ul[0] << 12) | ul[1], (lr[0] << 12) | lr[1]);
        assert!(clean(o));
        let tile = &rdp.tiles[0];
        assert_eq!([tile.width, tile.height], expected);
        assert_eq!(
            [tile.uls, tile.ult, tile.lrs, tile.lrt],
            [ul[0] as u16, ul[1] as u16, lr[0] as u16, lr[1] as u16]
        );
    }
}

#[test]
fn set_combine_stores_l_equals_w0_h_equals_w1() {
    let (rdp, o) = run_cmd(&[], Rdp::default(), 0xFC12_7E24, 0xFFFF_F9FC);
    assert!(clean(o));
    assert_eq!(rdp.combine_l, 0xFC12_7E24);
    assert_eq!(rdp.combine_h, 0xFFFF_F9FC);
}

#[test]
fn prim_env_decode_be() {
    let (rdp, _) = run_cmd(&[], Rdp::default(), 0xFA00_0000, 0xFFFF_FFFF);
    assert_eq!(rdp.prim, [255, 255, 255, 255]);
    let (rdp2, _) = run_cmd(&[], Rdp::default(), 0xFB00_0000, 0x0000_00FF);
    assert_eq!(rdp2.env, [0, 0, 0, 255]);
}

#[test]
fn set_prim_color_captures_lod_frac_and_min_level() {
    let w0 = (0xFAu32 << 24) | (5u32 << 8) | 128u32;
    let (rdp, _) = run_cmd(&[], Rdp::default(), w0, 0xFFFF_FFFF);
    assert_eq!(rdp.prim_lod_frac as f32 / 256.0, 128.0 / 256.0);
    assert_eq!(rdp.prim_min_level as f32 / 32.0, 5.0 / 32.0);
    let w0_hi = (0xFAu32 << 24) | (0xFFu32 << 8);
    let (rdp2, _) = run_cmd(&[], Rdp::default(), w0_hi, 0);
    assert_eq!(rdp2.prim_min_level as f32 / 32.0, 31.0 / 32.0, "only low 5 lodMin bits used");
}

#[test]
fn othermode_lod_helpers_read_textlod_and_textdetail() {
    let rdp = Rdp { other_mode_h: (1 << 16) | (0b10 << 17), ..Rdp::default() };
    assert!(rdp.lod_enable());
    assert_eq!(rdp.text_detail(), 0b10);
    assert!(!Rdp::default().lod_enable());
    assert_eq!(Rdp::default().text_detail(), 0);
}

#[test]
fn set_tile_size_fills_render_tile() {
    let (rdp, _) = run_cmd(&[], Rdp::default(), 0xF200_0000, 0x0007_C07C);
    assert_eq!(rdp.tiles[0].lrs, 124);
    assert_eq!(rdp.tiles[0].lrt, 124);
}

#[test]
fn load_block_byte_count_matches_hardware_formula() {
    let rdp = Rdp { tex_image: (0, 2, 1, 0), ..Rdp::default() };
    let rdram_bytes = vec![0u8; 4096];
    let w0 = 0xF300_0000u32;
    let w1 = (7u32 << 24) | (1021u32 << 12);
    let (rdp, o) = run_cmd(&rdram_bytes, rdp, w0, w1);
    assert!(clean(o));
    assert_eq!(rdp.tmem.len(), 2048);
}

#[test]
fn set_tile_parses_all_fields() {
    let w0 = (0xF5u32 << 24) | (3 << 21) | (1 << 19) | (8 << 9);
    let w1 = (5u32 << 20) | (5 << 14) | (1 << 8) | (5 << 4);
    let (rdp, o) = run_cmd(&[], Rdp::default(), w0, w1);
    assert!(clean(o));
    let t = &rdp.tiles[0];
    assert_eq!((t.fmt, t.siz), (3, 1));
    assert_eq!(t.palette, 5);
    assert_eq!((t.cms, t.cmt), (1, 0));
    assert_eq!((t.masks, t.maskt), (5, 5));
    assert_eq!((t.shifts, t.shiftt), (0, 0));
    assert_eq!((t.line, t.tmem_addr), (8, 0));
}

fn palette_state(tile: usize, destination: u16) -> Rdp {
    let mut rdp = Rdp { tex_image: (0, 2, 1, 0), ..Rdp::default() };
    rdp.tiles[tile].tmem_addr = destination;
    rdp
}

#[test]
fn tlut_legacy_row_fields_diagnosed() {
    for (w0, w1) in [
        (0xf000_0001, 0x0700_0000),
        (0xf000_1000, 0x0700_0000),
        (0xf000_0000, 0x0700_0001),
        (0xf000_0000, 0x0700_000c),
        (0xf000_0000, 0x0700_1000),
        (0xf000_0000, 0x0700_2000),
    ] {
        let before = palette_state(7, 0x100);
        let (after, o) = run_cmd(&[], before.clone(), w0, w1);
        assert_eq!(after, before);
        assert_eq!(o, RdpOutcome::UnsupportedParameters);
    }
    let (rdp, o) = run_cmd(&[0x12, 0x34], palette_state(7, 0x100), 0xf000_0000, 0x0700_0000);
    assert_eq!(o, RdpOutcome::LoadTlut { addr: 0, count: 1, dst_word: 0x100 });
    assert_eq!(rdp, palette_state(7, 0x100));
}

#[test]
fn tlut_count_comes_from_the_high_index_field() {
    let source: Vec<u8> = (0..512u16).map(|i| i as u8).collect();
    let (_, o) = run_cmd(&source, palette_state(5, 0x100), 0xf000_0000, 0x053f_c000);
    assert_eq!(o, RdpOutcome::LoadTlut { addr: 0, count: 256, dst_word: 0x100 });
    let (_, o) = run_cmd(&source[..511], palette_state(5, 0x100), 0xf000_0000, 0x053f_c000);
    assert_eq!(o, RdpOutcome::MemoryUnavailable);
}

#[test]
fn set_other_mode_l_writes_rendermode_field() {
    let mut rsp = Rsp::default();
    let mut rdp = Rdp::default();
    rsp.set_other_mode_l(0, 28, 0x0044_2078, &mut rdp);
    assert_eq!(rdp.other_mode_l, 0x0044_2078);
}

#[test]
fn rdp_set_other_mode_writes_both_words() {
    let (rdp, o) = run_cmd(&[], Rdp::default(), 0xEF00_0A01, 0x0044_2078);
    assert!(clean(o));
    assert_eq!(rdp.other_mode_l, 0x0044_2078);
    assert_eq!(rdp.other_mode_h & 0x00FF_FFFF, 0x0000_0A01);
}

#[test]
fn load_block_linear_decode_two_rows() {
    let mut src = vec![0u8; 2048];
    src[0] = 0xF8;
    src[1] = 0x01;
    src[64] = 0x00;
    src[65] = 0x3F;
    let rdp = Rdp { tex_image: (0, 2, 1, 0), ..Rdp::default() };
    let w0 = 0xF300_0000u32;
    let w1 = (7u32 << 24) | (1023u32 << 12) | 256u32;
    let (rdp, o) = run_cmd(&src, rdp, w0, w1);
    assert!(clean(o));
    assert_eq!(rdp.tmem.len(), 2048);
    let decoded = decode_rgba16(&rdp.tmem);
    assert_eq!(&decoded[0..4], &[0xFF, 0x00, 0x00, 0xFF]);
    assert_eq!(&decoded[32 * 4..32 * 4 + 4], &[0x00, 0x00, 0xFF, 0xFF]);
}

#[test]
fn set_color_image_stores_fields_and_sets_changed() {
    let w0 = (0xFFu32 << 24) | (2u32 << 21) | (1u32 << 19) | 9u32;
    let (rdp, o) = run_cmd(&[], Rdp::default(), w0, 0);
    assert!(clean(o));
    assert_eq!(rdp.color_image, ColorImage { fmt: 2, siz: 1, width: 10, addr: 0 });
    assert!(rdp.color_changed, "color_changed must be set on first write");
}

#[test]
fn set_color_image_diff_guard_no_change_on_same() {
    let w0 = (0xFFu32 << 24) | (2u32 << 21) | (1u32 << 19) | 9u32;
    let (mut rdp, _) = run_cmd(&[], Rdp::default(), w0, 0);
    rdp.color_changed = false;
    let (rdp2, _) = run_cmd(&[], rdp, w0, 0);
    assert!(!rdp2.color_changed, "identical write keeps color_changed false");
}

#[test]
fn set_depth_image_stores_addr_and_sets_changed() {
    let (rdp, o) = run_cmd(&[], Rdp::default(), 0xFE00_0000, 0x0010_0000);
    assert!(clean(o));
    assert_eq!(rdp.depth_image, 0x0010_0000u64);
    assert!(rdp.depth_changed, "depth_changed must be set on first write");
}

#[test]
fn set_scissor_decodes_10p2_fields() {
    let ulx_raw: u32 = 4 << 2;
    let uly_raw: u32 = 8 << 2;
    let lrx_raw: u32 = 316 << 2;
    let lry_raw: u32 = 236 << 2;
    let mode: u32 = 1;
    let w0 = (0xEDu32 << 24) | (ulx_raw << 12) | uly_raw;
    let w1 = (mode << 24) | (lrx_raw << 12) | lry_raw;
    let (rdp, o) = run_cmd(&[], Rdp::default(), w0, w1);
    assert!(clean(o));
    assert_eq!(rdp.scissor, Scissor { ulx: 4, uly: 8, lrx: 316, lry: 236, mode: 1 });
}

#[test]
fn set_fill_color_stores_raw_w1() {
    let (rdp, o) = run_cmd(&[], Rdp::default(), 0xF700_0000, 0xDEAD_BEEF);
    assert!(clean(o));
    assert_eq!(rdp.fill_color_raw, 0xDEAD_BEEF);
}

// The README: six signed nine-bit convert coefficients, and key channels that keep
// centre, scale and 12-bit width.
#[test]
fn convert_and_key_registers_keep_their_fields() {
    // K0 = 0x1FF (-1), K1 = 0x0FF (255), K2 = 0x100 (-256) split across the words
    let w0 = 0xEC00_0000 | (0x1FF << 13) | (0x0FF << 4) | (0x100 >> 5);
    let w1 = ((0x100 & 31) << 27) | (0x001 << 18) | (0x1FE << 9) | 0x080;
    let (rdp, o) = run_cmd(&[], Rdp::default(), w0, w1);
    assert_eq!(o, RdpOutcome::Applied { material_dirty: true });
    assert_eq!(rdp.convert, [-1, 255, -256, 1, -2, 128]);
    let (rdp, _) = run_cmd(&[], Rdp::default(), 0xEB00_0000, 0x0ABC_1234);
    assert_eq!(rdp.key[0], KeyChannel { center: 0x12, scale: 0x34, width: 0xABC });
    let (rdp, _) = run_cmd(&[], Rdp::default(), 0xEA12_3456, 0x789A_BCDE);
    assert_eq!(rdp.key[1], KeyChannel { center: 0x78, scale: 0x9A, width: 0x123 });
    assert_eq!(rdp.key[2], KeyChannel { center: 0xBC, scale: 0xDE, width: 0x456 });
}

#[test]
fn material_dirty_only_for_draw_state() {
    for (w0, dirty) in [
        (0xFC00_0000u32, true),
        (0xF800_0000, false),
        (0xEE00_0000, false),
        (0xF900_0000, true),
        (0xE700_0000, false),
        (0xED00_0000, false),
    ] {
        let (_, o) = run_cmd(&[], Rdp::default(), w0, 0);
        assert_eq!(o, RdpOutcome::Applied { material_dirty: dirty }, "{w0:#x}");
    }
}

#[test]
fn stray_rdphalf_and_non_rdp_opcodes_leave_state_alone() {
    for w0 in [0xE100_0000u32, 0xF100_0000] {
        let (rdp, o) = run_cmd(&[], Rdp::default(), w0, 7);
        assert_eq!(o, RdpOutcome::StrayRdphalf);
        assert_eq!(rdp, Rdp::default());
    }
    let (rdp, o) = run_cmd(&[], Rdp::default(), 0x0100_0000, 7);
    assert_eq!(o, RdpOutcome::NotRdp);
    assert_eq!(rdp, Rdp::default());
}

#[test]
fn loads_outside_memory_change_nothing() {
    let rdp = Rdp { tex_image: (0, 2, 1, 100), ..Rdp::default() };
    let (after, o) = run_cmd(&[0u8; 64], rdp.clone(), 0xF300_0000, 7 << 24);
    assert_eq!(o, RdpOutcome::MemoryUnavailable);
    assert_eq!(after, rdp);
    let (after, o) = run_cmd(&[0u8; 64], rdp.clone(), 0xF400_0000, 7 << 24);
    assert_eq!(o, RdpOutcome::MemoryUnavailable);
    assert_eq!(after, rdp);
}

#[test]
fn load_tile_copies_the_strided_region() {
    // 4-texel-wide RGBA16 image (8-byte rows); load texels (1..2, 1..2)
    let image: Vec<u8> = (0..64u8).collect();
    let rdp = Rdp { tex_image: (0, 2, 3, 0), ..Rdp::default() };
    let w0 = 0xF400_0000 | ((1 << 2) << 12) | (1 << 2);
    let w1 = (7 << 24) | ((2 << 2) << 12) | (2 << 2);
    let (after, o) = run_cmd(&image, rdp, w0, w1);
    assert_eq!(
        o,
        RdpOutcome::LoadedTile { dst_words: 0, line_words: 0, row_count: 2, words_per_row: 1, bytes_per_row: 8, siz: 2 }
    );
    assert!(after.load_via_tile);
    // offset 2 + 8 * 1, length 8 + 8
    assert_eq!(after.tmem, (10..26u8).collect::<Vec<_>>());
}
