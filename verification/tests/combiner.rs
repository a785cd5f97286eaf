use fast3d::combiner::{
    alpha_c, bits, color_a, color_ab_provably_equal, color_b, color_c, cyc_sel_uses_texel1,
    decode_combine, decode_rgba16, decode_tile_linear, tile_takes_faithful_path, AlphaIn, ColorIn,
};
use fast3d::rdp::{Rdp, TileDescriptor};

#[test]
fn decode_modulate_all_16_selectors() {
    let cs = decode_combine(0xFC12_7E24, 0xFFFF_F9FC);
    assert_eq!(cs.raw_l, 0xFC12_7E24);
    assert_eq!(cs.raw_h, 0xFFFF_F9FC);
    assert_eq!(cs.cyc1.ca, ColorIn::Texel0);
    assert_eq!(cs.cyc1.cb, ColorIn::Zero);
    assert_eq!(cs.cyc1.cc, ColorIn::Shade);
    assert_eq!(cs.cyc1.cd, ColorIn::Zero);
    assert_eq!(cs.cyc1.aa, AlphaIn::Zero);
    assert_eq!(cs.cyc1.ab, AlphaIn::Zero);
    assert_eq!(cs.cyc1.ac, AlphaIn::Zero);
    assert_eq!(cs.cyc1.ad, AlphaIn::Shade);
    assert!(cs.cyc1.unwired().is_empty());
    assert_eq!(cs.cyc0.ca, ColorIn::Texel0);
    assert_eq!(cs.cyc0.cc, ColorIn::Shade);
    assert_eq!(cs.cyc0.ad, AlphaIn::Shade);
}

#[test]
fn alpha_c_index0_is_lod_fraction_not_combined() {
    assert_eq!(alpha_c(0), AlphaIn::LodFraction);
    assert!(AlphaIn::LodFraction.wired());
}

#[test]
fn lod_selectors_are_wired() {
    assert!(ColorIn::LodFraction.wired());
    assert!(ColorIn::PrimLodFrac.wired());
    assert!(AlphaIn::LodFraction.wired());
    assert!(AlphaIn::PrimLodFrac.wired());
    assert_eq!(color_c(13), ColorIn::LodFraction);
    assert_eq!(color_c(14), ColorIn::PrimLodFrac);
    assert_eq!(alpha_c(0), AlphaIn::LodFraction);
    assert_eq!(alpha_c(6), AlphaIn::PrimLodFrac);
}

#[test]
fn color_ab_idx6_pair_is_not_provably_equal_and_guard_flags_it() {
    assert_eq!(color_a(6), ColorIn::One);
    assert_eq!(color_b(6), ColorIn::KeyCenter);
    assert!(!ColorIn::KeyCenter.wired());
    assert!(!color_ab_provably_equal(6, 6));
    let l = (6u32 << 5) | 13u32;
    let h = 6u32 << 24;
    let sel = decode_combine(l, h);
    assert_eq!(sel.cyc1.ca, ColorIn::One);
    assert_eq!(sel.cyc1.cb, ColorIn::KeyCenter);
    assert_eq!(sel.cyc1.cc, ColorIn::LodFraction);
    let c_idx = bits(l, 0, 5);
    let a_idx = bits(l, 5, 4);
    let b_idx = bits(h, 24, 4);
    assert_eq!((c_idx, a_idx, b_idx), (13, 6, 6));
    let guard_flags_it = (c_idx == 13 || c_idx == 14) && !color_ab_provably_equal(a_idx, b_idx);
    assert!(guard_flags_it);
}

#[test]
fn normal_modulate_reports_no_unwired_alpha_c() {
    let cs = decode_combine(0xFC12_7E24, 0xFFFF_F9FC);
    assert!(!cs.cyc1.unwired().contains(&"AC"));
}

#[test]
fn texel1_is_now_wired_but_tracked_by_texel1_mask() {
    let cs = decode_combine(0xFC00_0002, 0x001C_0000);
    assert_eq!(cs.cyc1.cc, ColorIn::Texel1);
    assert!(cs.cyc1.unwired().is_empty());
    assert_eq!(cs.cyc1.texel1_mask(), 0b0000_0100);
    assert!(cyc_sel_uses_texel1(&cs.cyc1));
}

#[test]
fn short_tmem_zero_pads_to_correct_decode_len() {
    let tex_w: u32 = 8;
    let tex_h: u32 = 8;
    let needed = (tex_w * tex_h * 2) as usize;
    let short_tmem: Vec<u8> = vec![0xAB; needed / 2];
    assert!(short_tmem.len() < needed, "precondition: tmem IS short");
    let mut padded = short_tmem.to_vec();
    padded.resize(needed, 0);
    let texture = decode_rgba16(&padded);
    assert_eq!(texture.len(), (tex_w * tex_h * 4) as usize);
}

// The README's unwired combiner inputs: KEY_CENTER (B/6), KEY_SCALE (C/6), K4 (B/7),
// K5 (C/15).
#[test]
fn readme_unwired_key_and_convert_inputs() {
    assert_eq!(color_b(6), ColorIn::KeyCenter);
    assert_eq!(color_c(6), ColorIn::KeyScale);
    assert_eq!(color_b(7), ColorIn::K4);
    assert_eq!(color_c(15), ColorIn::K5);
    for c in [ColorIn::KeyCenter, ColorIn::KeyScale, ColorIn::K4, ColorIn::K5] {
        assert!(!c.wired());
    }
}

#[test]
fn linear_tile_decode_pads_short_loads_to_the_tile_extent() {
    let mut rdp = Rdp::default();
    rdp.tmem = vec![0xF8, 0x01];
    let tile = TileDescriptor { fmt: 0, siz: 2, width: 2, height: 2, ..TileDescriptor::default() };
    let out = decode_tile_linear(&rdp, &tile, 2, 2, &[], 0);
    assert_eq!(out.len(), 16);
    assert_eq!(&out[0..4], &[255, 0, 0, 255]);
    assert_eq!(&out[4..16], &[0; 12]);
    // a longer load is cut to the tile's bytes
    rdp.tmem = vec![0xFF; 64];
    assert_eq!(decode_tile_linear(&rdp, &tile, 2, 2, &[], 0).len(), 16);
}

#[test]
fn faithful_path_needs_a_sampled_format_and_word_rows_or_a_tile_load() {
    let mut rdp = Rdp::default();
    let rgba16 = TileDescriptor { fmt: 0, siz: 2, ..TileDescriptor::default() };
    assert!(tile_takes_faithful_path(&rdp, &rgba16, 4)); // 8-byte rows
    assert!(!tile_takes_faithful_path(&rdp, &rgba16, 3)); // 6-byte rows
    rdp.load_via_tile = true;
    assert!(tile_takes_faithful_path(&rdp, &rgba16, 3));
    let yuv = TileDescriptor { fmt: 1, siz: 2, ..TileDescriptor::default() };
    assert!(!tile_takes_faithful_path(&rdp, &yuv, 4));
}
