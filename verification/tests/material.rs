use fast3d::combiner::{build_material, build_rect_material, draw_rejection, Material, TextureRef};
use fast3d::interp::walk::{ConvertInput, DiagKind, Diagnostic, KeyInput};
use fast3d::rdp::{Rdp, TileDescriptor};
use fast3d::rsp::Rsp;
use fast3d::texture_request::{request_recipe, Representation};

const FLAT: [u32; 8] = [8, 8, 16, 3, 7, 7, 7, 6];
const SLOTS: [&str; 8] = ["CA", "CB", "CC", "CD", "AA", "AB", "AC", "AD"];

fn support(slot: usize) -> Vec<bool> {
    match slot {
        0 => (0..16).map(|e| e != 7).collect(),
        1 => (0..16).map(|e| e != 6 && e != 7).collect(),
        2 => (0..32).map(|e| e != 6 && e != 7 && e != 15).collect(),
        _ => vec![true; 8],
    }
}

/// The SetCombine words of two cycles, each given as A, B, C, D color then alpha inputs.
fn combine(cycles: [[u32; 8]; 2]) -> (u32, u32) {
    let [c0, c1] = cycles;
    let l = 0xFC00_0000
        | (c0[0] & 15) << 20
        | (c0[2] & 31) << 15
        | (c0[4] & 7) << 12
        | (c0[6] & 7) << 9
        | (c1[0] & 15) << 5
        | (c1[2] & 31);
    let h = (c0[1] & 15) << 28
        | (c1[1] & 15) << 24
        | (c1[4] & 7) << 21
        | (c1[6] & 7) << 18
        | (c0[3] & 7) << 15
        | (c0[5] & 7) << 12
        | (c0[7] & 7) << 9
        | (c1[3] & 7) << 6
        | (c1[5] & 7) << 3
        | (c1[7] & 7);
    (l, h)
}

fn state(cycles: [[u32; 8]; 2], cycle_type: u32) -> Rdp {
    let (combine_l, combine_h) = combine(cycles);
    let mut rdp = Rdp::default();
    rdp.combine_l = combine_l;
    rdp.combine_h = combine_h;
    rdp.other_mode_h = cycle_type << 20;
    rdp.tmem = vec![48; 16];
    rdp.prim = [64, 96, 128, 80];
    rdp.env = [160, 192, 224, 208];
    rdp.prim_lod_frac = 112;
    for i in 0..2 {
        rdp.tiles[i] = TileDescriptor {
            fmt: 0,
            siz: 3,
            width: 2,
            height: 1,
            line: 1,
            tmem_addr: i as u16,
            cms: 2,
            cmt: 2,
            ..TileDescriptor::default()
        };
    }
    rdp
}

fn material(rdp: &Rdp, rect: bool) -> (Option<Material>, Vec<Diagnostic>) {
    let mut rsp = Rsp::default();
    rsp.texture_state.on = !rect;
    let mut diags = Vec::new();
    let result = if rect {
        build_rect_material(rdp, &rsp, &mut diags, 0x1234)
    } else {
        build_material(rdp, &rsp, &mut diags, 0x1234)
    };
    (result, diags)
}

fn tile_ref(tile: u8) -> TextureRef {
    TextureRef { tile, w: 2, h: 1, faithful: true }
}

#[test]
fn combiner_support_matrix_all_slots() {
    let mut failures = Vec::new();
    for cycle_type in 0..=1 {
        for cycle in 0..2 {
            for slot in 0..8 {
                for (encoding, supported) in support(slot).into_iter().enumerate() {
                    let mut cycles = [FLAT; 2];
                    cycles[cycle][slot] = encoding as u32;
                    let rdp = state(cycles, cycle_type);
                    let texel1 = encoding == 2 || (slot == 2 && encoding == 9);
                    let rejected = (cycle_type == 1 || cycle == 1)
                        && (!supported || (cycle_type == 0 && texel1));
                    let expected = if rejected {
                        let kind = match (slot, encoding) {
                            (1, 6) => DiagKind::UnsupportedKeyInput { selector: KeyInput::Center },
                            (2, 6) => DiagKind::UnsupportedKeyInput { selector: KeyInput::Scale },
                            (1, 7) => DiagKind::UnsupportedConvertInput { selector: ConvertInput::K4 },
                            (2, 15) => DiagKind::UnsupportedConvertInput { selector: ConvertInput::K5 },
                            _ => DiagKind::UnwiredSelector {
                                slots: 1 << (slot + if cycle == 0 { 8 } else { 0 }),
                            },
                        };
                        vec![Diagnostic { at: 0x1234, kind }]
                    } else {
                        Vec::new()
                    };
                    for rect in [false, true] {
                        let (mat, diags) = material(&rdp, rect);
                        if diags != expected || mat.is_some() == rejected {
                            failures.push(format!(
                                "type {cycle_type} cycle {cycle} {}={encoding} rect={rect}: {diags:?}, expected {expected:?}, material={}",
                                SLOTS[slot],
                                mat.is_some()
                            ));
                        }
                    }
                }
            }
        }
    }
    assert!(failures.is_empty(), "support matrix mismatches:\n{}", failures.join("\n"));
}

#[test]
fn combiner_rejects_unwired_cycle0() {
    let mut cycles = [FLAT; 2];
    cycles[0][0] = 7;
    cycles[0][2] = 7;
    cycles[1][0] = 7;
    for loaded in [false, true] {
        let mut rdp = state(cycles, 1);
        if !loaded {
            rdp.tmem.clear();
        }
        let (mat, diags) = material(&rdp, false);
        assert!(mat.is_none());
        assert_eq!(
            diags,
            vec![Diagnostic { at: 0x1234, kind: DiagKind::UnwiredSelector { slots: 0x0501 } }],
            "both active cycles must contribute diagnostic slots before TMEM checks"
        );
        let sel = fast3d::combiner::decode_combine(rdp.combine_l, rdp.combine_h);
        assert_eq!(sel.cyc0.unwired(), vec!["CA", "CC"]);
        assert_eq!(sel.cyc1.unwired(), vec!["CA"]);
    }
}

#[test]
fn combiner_ignores_inactive_selectors() {
    let poison = [7, 6, 7, 2, 2, 2, 2, 2];
    for cycle_type in [0, 2, 3] {
        let active = if cycle_type == 0 { [6, 8, 10, 7, 7, 7, 7, 6] } else { poison };
        for rect in [false, true] {
            let (mat, diags) = material(&state([poison, active], cycle_type), rect);
            assert!(
                mat.is_some() && diags.is_empty(),
                "inactive selectors must be ignored for type {cycle_type}, rect={rect}: {diags:?}"
            );
        }
    }
}

#[test]
fn combiner_texrect_uses_shared_validation() {
    for cycle_type in 0..=1 {
        let mut cycles = [FLAT; 2];
        cycles[cycle_type as usize ^ 1][0] = 7;
        let mut rdp = state(cycles, cycle_type);
        rdp.tmem.clear();
        let triangle = material(&rdp, false);
        let rect = material(&rdp, true);
        assert!(rect.0.is_none(), "TexRect must refuse an active NOISE selector before decoding");
        assert_eq!(rect.1, triangle.1, "triangle and TexRect validation must agree");
    }
}

#[test]
fn combiner_cycle1_texel1_reads_only_physical0() {
    for slot in [0, 1, 2, 3, 4, 5, 6, 7] {
        for encoding in if slot == 2 { &[2, 9][..] } else { &[2][..] } {
            let mut cycles = [FLAT; 2];
            cycles[1][slot] = *encoding;
            for rect in [false, true] {
                let (mat, diags) = material(&state(cycles, 1), rect);
                assert!(diags.is_empty(), "{diags:?}");
                let mat = mat.unwrap();
                assert!(mat.tex_enable, "cycle 1 {}={encoding} must enable physical 0, rect={rect}", SLOTS[slot]);
                assert_eq!(mat.tile_count, 1);
                assert!(mat.tex1.is_none());
                assert_eq!(mat.texture, Some(tile_ref(0)));
            }
        }
    }
    for cycle in 0..2 {
        for token in [1, 2] {
            let mut cycles = [FLAT; 2];
            cycles[cycle][3] = token;
            for rect in [false, true] {
                let (mat, diags) = material(&state(cycles, 1), rect);
                assert!(diags.is_empty(), "{diags:?}");
                let mat = mat.unwrap();
                let physical0 = [(0, 1), (1, 2)].contains(&(cycle, token));
                assert_eq!(mat.tex_enable, physical0);
                if physical0 {
                    assert_eq!(mat.texture, Some(tile_ref(0)));
                } else {
                    assert_eq!(mat.texture, None, "unused physical 0 must not be decoded");
                    assert_eq!(mat.tex1.unwrap().texture, tile_ref(1));
                    assert_eq!(mat.tile_count, 2);
                }
            }
        }
    }
}

#[test]
fn combiner_missing_texture_checks_both_cycles() {
    for cycle in 0..2 {
        for slot in 0..8 {
            for token in if slot == 2 { &[1, 2, 8, 9][..] } else { &[1, 2][..] } {
                let mut cycles = [FLAT; 2];
                cycles[cycle][slot] = *token;
                let mut rdp = state(cycles, 1);
                rdp.tmem.clear();
                for rect in [false, true] {
                    let (mat, diags) = material(&rdp, rect);
                    assert!(
                        mat.is_none(),
                        "missing TMEM must reject cycle {cycle} {}={token}, rect={rect}",
                        SLOTS[slot]
                    );
                    assert_eq!(diags, vec![Diagnostic { at: 0x1234, kind: DiagKind::NoTextureLoaded }]);
                }
            }
        }
    }
}

#[test]
fn texture_conversion_and_chroma_key_reject_draws() {
    let mut rdp = state([FLAT; 2], 0);
    rdp.texture_conversion_set = true;
    rdp.other_mode_h |= 6 << 9; // G_TC_FILT
    assert_eq!(draw_rejection(&rdp), None);
    rdp.other_mode_h &= !(7 << 9); // G_TC_CONV
    let (mat, diags) = material(&rdp, false);
    assert!(mat.is_none());
    assert_eq!(diags, vec![Diagnostic { at: 0x1234, kind: DiagKind::UnsupportedTextureConversion }]);
    // an unwritten TEXTCONV field keeps the draw
    rdp.texture_conversion_set = false;
    assert!(material(&rdp, false).0.is_some());
    rdp.other_mode_h |= 1 << 8; // G_CK_KEY
    let (mat, diags) = material(&rdp, true);
    assert!(mat.is_none());
    assert_eq!(diags, vec![Diagnostic { at: 0x1234, kind: DiagKind::UnsupportedChromaKey }]);
}

#[test]
fn textureless_and_unset_combiners_without_tmem() {
    // SHADE-only combiner: a 1x1 placeholder material
    let mut rdp = state([FLAT; 2], 0);
    rdp.tmem.clear();
    let (mat, diags) = material(&rdp, false);
    assert!(diags.is_empty());
    let mat = mat.unwrap();
    assert_eq!((mat.texture, mat.tex_w, mat.tex_h, mat.tile_count, mat.tex_enable), (None, 1, 1, 0, false));
    assert_eq!((mat.wrap_s, mat.wrap_t), (2, 2));
    assert_eq!(mat.prim_lod_frac, 112);
    // a combiner never set: dropped silently
    rdp.combine_l = 0;
    rdp.combine_h = 0;
    let (mat, diags) = material(&rdp, false);
    assert!(mat.is_none() && diags.is_empty());
}

#[test]
fn second_texture_needs_the_tmem_sampler() {
    let mut cycles = [FLAT; 2];
    cycles[0][0] = 2; // cycle 0 TEXEL1 samples the second texture
    let mut rdp = state(cycles, 1);
    rdp.tiles[1].width = 3; // 12-byte RGBA32 rows after a LoadBlock
    let (mat, diags) = material(&rdp, false);
    assert!(mat.is_none());
    assert_eq!(diags, vec![Diagnostic { at: 0x1234, kind: DiagKind::SecondTextureUndecodable }]);
    rdp.load_via_tile = true;
    let (mat, diags) = material(&rdp, false);
    assert!(diags.is_empty());
    let tex1 = mat.unwrap().tex1.unwrap();
    assert_eq!(tex1.texture, TextureRef { tile: 1, w: 3, h: 1, faithful: true });
    assert_eq!((tex1.wrap_s, tex1.fmt, tex1.siz), (2, 0, 3));
}

#[test]
fn lod_levels_come_from_consecutive_tiles() {
    let mut cycles = [FLAT; 2];
    cycles[1][0] = 1; // TEXEL0
    let mut rdp = state(cycles, 0);
    rdp.other_mode_h |= 1 << 16; // G_TL_LOD
    rdp.other_mode_h |= 2 << 17; // detail
    for i in 0..8 {
        rdp.tiles[i] = TileDescriptor { fmt: 0, siz: 2, width: 4, height: 4, ..TileDescriptor::default() };
    }
    let mut rsp = Rsp::default();
    rsp.texture_state.tile = 6;
    rsp.texture_state.level = 2;
    rsp.texture_state.on = true;
    let mut diags = Vec::new();
    let mat = build_material(&rdp, &rsp, &mut diags, 8).unwrap();
    assert!(diags.is_empty());
    assert!(mat.lod && mat.tex_enable);
    assert_eq!(mat.num_levels, 3);
    let tiles: Vec<u8> = mat.mip_levels.iter().map(|t| t.tile).collect();
    assert_eq!(tiles, vec![6, 7, 0]);
    assert_eq!(mat.text_detail, 2);
    assert_eq!(mat.detail_tex.map(|t| t.tile), Some(0));
    // a level the TMEM sampler does not take turns LOD off
    rdp.tiles[7].width = 3;
    let mat = build_material(&rdp, &rsp, &mut diags, 8).unwrap();
    assert!(!mat.lod);
    assert_eq!((mat.num_levels, mat.mip_levels.len(), mat.text_detail), (1, 0, 0));
    // a texture rectangle takes no LOD
    let mat = build_rect_material(&rdp, &rsp, &mut diags, 8).unwrap();
    assert!(!mat.lod && mat.tex_enable);
}

#[test]
fn request_recipe_picks_the_representation() {
    let mut rdp = Rdp::default();
    let tile = TileDescriptor { fmt: 0, siz: 2, width: 4, height: 2, line: 1, ..TileDescriptor::default() };
    let (_, recipe) = request_recipe(&rdp, &tile, 0);
    assert_eq!(recipe.representation, Representation::Tile);
    assert_eq!(recipe.output, [4, 2]);
    let odd = TileDescriptor { width: 3, ..tile };
    assert_eq!(request_recipe(&rdp, &odd, 0).1.representation, Representation::LinearCompat);
    rdp.load_via_tile = true;
    assert_eq!(request_recipe(&rdp, &odd, 0).1.representation, Representation::Tile);
    // a wrap period longer than the image samples through the lookup image
    let wrap = TileDescriptor { masks: 4, cms: 0, ..tile };
    let (sampling, recipe) = request_recipe(&rdp, &wrap, 0);
    assert_eq!(sampling.image[2], 1);
    assert_eq!(recipe.representation, Representation::Lookup4096x4);
    assert_eq!(recipe.output, [4096, 4]);
}

fn rdp_two_distinct_rgba16_tiles(combine_l: u32, combine_h: u32, cycle_type: u32) -> Rdp {
    let mut rdp = Rdp::default();
    rdp.tmem = vec![0u8; 8];
    rdp.combine_l = combine_l;
    rdp.combine_h = combine_h;
    rdp.other_mode_h = cycle_type << 20;
    let mk = |tmem_words: u16| TileDescriptor {
        fmt: 0,
        siz: 2,
        width: 4,
        height: 1,
        line: 1,
        tmem_addr: tmem_words,
        cms: 2,
        cmt: 2,
        ..TileDescriptor::default()
    };
    rdp.tiles[0] = mk(0);
    rdp.tiles[1] = mk(8);
    rdp
}

fn textured_rsp(tile: u8, level: u8) -> Rsp {
    let mut rsp = Rsp::default();
    rsp.texture_state.tile = tile;
    rsp.texture_state.level = level;
    rsp.texture_state.on = true;
    rsp
}

fn rgba16_ref(tile: u8, w: u32, h: u32) -> TextureRef {
    TextureRef { tile, w, h, faithful: true }
}

#[test]
fn two_cycle_two_texture_builds_tex1_from_base_plus_one() {
    let (cl, ch, ct) = (0x0088_7F10u32, 0x88FC_FC7Eu32, 1u32);
    let rdp = rdp_two_distinct_rgba16_tiles(cl, ch, ct);
    let sel = fast3d::combiner::decode_combine(cl, ch);
    assert_eq!(sel.cyc1.cd, fast3d::combiner::ColorIn::Texel0);
    assert!(fast3d::combiner::cycle_uses_texel1(&sel, ct));
    let mut diags = Vec::new();
    let mat = build_material(&rdp, &textured_rsp(0, 0), &mut diags, 0).expect("2-cycle two-texture must draw");
    assert!(diags.is_empty(), "{diags:?}");
    assert_eq!(mat.tile_count, 2);
    let tex1 = mat.tex1.expect("tex1 built when tileCount == 2");
    assert_eq!(tex1.texture, rgba16_ref(1, 4, 1));
    assert_ne!(mat.texture, Some(tex1.texture));
    assert_eq!(mat.texture, Some(rgba16_ref(0, 4, 1)));
}

#[test]
fn one_cycle_texel1_reference_is_refused_not_drawn() {
    let (cl, ch, ct) = (0xFC00_0002u32, 0x001C_0000u32, 0u32);
    let rdp = rdp_two_distinct_rgba16_tiles(cl, ch, ct);
    assert!(!fast3d::combiner::cycle_uses_texel1(&fast3d::combiner::decode_combine(cl, ch), ct));
    let mut diags = Vec::new();
    let mat = build_material(&rdp, &textured_rsp(0, 0), &mut diags, 0);
    assert!(mat.is_none());
    assert!(diags.iter().any(|d| d.kind == DiagKind::UnwiredSelector { slots: 0b0000_0100 }), "{diags:?}");
}

#[test]
fn single_texture_texel0_only_has_tilecount_1_and_no_tex1() {
    let (cl, ch, ct) = (0xFC12_7E24u32, 0xFFFF_F9FCu32, 0u32);
    let rdp = rdp_two_distinct_rgba16_tiles(cl, ch, ct);
    assert!(!fast3d::combiner::cycle_uses_texel1(&fast3d::combiner::decode_combine(cl, ch), ct));
    let mut diags = Vec::new();
    let mat = build_material(&rdp, &textured_rsp(0, 0), &mut diags, 0).expect("single-texture draws");
    assert!(diags.is_empty());
    assert_eq!(mat.tile_count, 1);
    assert!(mat.tex1.is_none());
    assert!(mat.tex_enable);
}

#[test]
fn two_cycle_cyc1_texel1_is_single_texture_not_refused() {
    let (cl, ch, ct) = (0x0088_7F10u32, 0x88FC_FCBEu32, 1u32);
    let rdp = rdp_two_distinct_rgba16_tiles(cl, ch, ct);
    let sel = fast3d::combiner::decode_combine(cl, ch);
    assert_eq!(sel.cyc1.cd, fast3d::combiner::ColorIn::Texel1);
    assert_eq!(sel.cyc0.cd, fast3d::combiner::ColorIn::Texel0);
    assert!(fast3d::combiner::cyc_sel_uses_texel1(&sel.cyc1));
    assert!(!fast3d::combiner::cycle_uses_texel1(&sel, ct));
    let mut diags = Vec::new();
    let mat = build_material(&rdp, &textured_rsp(0, 0), &mut diags, 0).expect("single-texture must draw");
    assert!(diags.is_empty(), "{diags:?}");
    assert_eq!(mat.tile_count, 1);
    assert!(mat.tex1.is_none());
}

#[test]
fn two_cycle_second_texture_non_faithful_refuses_to_draw() {
    let (cl, ch, ct) = (0x0088_7F10u32, 0x88FC_FC7Eu32, 1u32);
    let mut rdp = rdp_two_distinct_rgba16_tiles(cl, ch, ct);
    rdp.tiles[1] = TileDescriptor {
        fmt: 4,
        siz: 1,
        width: 4,
        height: 1,
        line: 1,
        tmem_addr: 8,
        cms: 2,
        cmt: 2,
        ..TileDescriptor::default()
    };
    assert!(fast3d::combiner::cycle_uses_texel1(&fast3d::combiner::decode_combine(cl, ch), ct));
    assert!(fast3d::combiner::tile_takes_faithful_path(&rdp, &rdp.tiles[0], 4));
    assert!(!fast3d::combiner::tile_takes_faithful_path(&rdp, &rdp.tiles[1], 4));
    let mut diags = Vec::new();
    let mat = build_material(&rdp, &textured_rsp(0, 0), &mut diags, 0);
    assert!(mat.is_none());
    assert!(diags.iter().any(|d| d.kind == DiagKind::SecondTextureUndecodable), "{diags:?}");
}

#[test]
fn two_cycle_cyc1_texel1_reads_base_tile_marks_texture0_used() {
    let (cl, ch, ct) = (0x0088_7F10u32, 0x88FD_7CBEu32, 1u32);
    let rdp = rdp_two_distinct_rgba16_tiles(cl, ch, ct);
    let sel = fast3d::combiner::decode_combine(cl, ch);
    assert_eq!(sel.cyc0.cd, fast3d::combiner::ColorIn::Texel1);
    assert_eq!(sel.cyc1.cd, fast3d::combiner::ColorIn::Texel1);
    assert!(!fast3d::combiner::cycle_uses_texel0(&sel.cyc0) && !fast3d::combiner::cycle_uses_texel0(&sel.cyc1));
    assert!(fast3d::combiner::cycle_uses_texel1(&sel, ct));
    let mut diags = Vec::new();
    let mat = build_material(&rdp, &textured_rsp(0, 0), &mut diags, 0).expect("must draw");
    assert!(diags.is_empty(), "{diags:?}");
    assert_eq!(mat.tile_count, 2);
    assert!(mat.tex_enable);
    assert!(mat.tex1.is_some());
}

fn rdp_three_level_chain(detail_bit: bool) -> Rdp {
    let mut rdp = Rdp::default();
    rdp.tmem = vec![0u8; 8];
    rdp.combine_l = 0xFC12_7E24;
    rdp.combine_h = 0xFFFF_F9FC;
    rdp.other_mode_h = 1 << 16;
    if detail_bit {
        rdp.other_mode_h |= 0b10 << 17;
    }
    rdp.load_via_tile = true;
    let mk = |w: u16, h: u16, tmem_words: u16| TileDescriptor {
        fmt: 0,
        siz: 2,
        width: w,
        height: h,
        line: 1,
        tmem_addr: tmem_words,
        cms: 2,
        cmt: 2,
        ..TileDescriptor::default()
    };
    rdp.tiles[0] = mk(4, 4, 0);
    rdp.tiles[1] = mk(2, 2, 4);
    rdp.tiles[2] = mk(1, 1, 6);
    rdp
}

#[test]
fn lod_decodes_n_halving_levels_with_distinct_content() {
    let rdp = rdp_three_level_chain(false);
    let mut diags = Vec::new();
    let mat = build_material(&rdp, &textured_rsp(0, 2), &mut diags, 0).expect("LOD material must build");
    assert!(diags.is_empty(), "{diags:?}");
    assert!(mat.lod);
    assert_eq!(mat.num_levels, 3);
    assert_eq!(mat.mip_levels, vec![rgba16_ref(0, 4, 4), rgba16_ref(1, 2, 2), rgba16_ref(2, 1, 1)]);
    assert_eq!((mat.tex_w, mat.tex_h), (4, 4));
    assert_eq!(Some(mat.mip_levels[0]), mat.texture);
    assert!(mat.detail_tex.is_none());
}

#[test]
fn lod_detail_mode_decodes_detail_tile_index0() {
    let rdp = rdp_three_level_chain(true);
    assert_eq!(rdp.text_detail(), 0b10);
    let mut diags = Vec::new();
    let mat = build_material(&rdp, &textured_rsp(0, 2), &mut diags, 0).expect("LOD+detail material must build");
    assert!(mat.lod);
    assert_eq!(mat.num_levels, 3);
    assert_eq!(mat.text_detail, 0b10);
    assert_eq!(mat.detail_tex, Some(rgba16_ref(0, 4, 4)));
}

#[test]
fn lod_engages_for_non_halving_same_size_levels() {
    let mut rdp = rdp_three_level_chain(false);
    rdp.tiles[1].width = 4;
    rdp.tiles[1].height = 4;
    let mut diags = Vec::new();
    let mat = build_material(&rdp, &textured_rsp(0, 1), &mut diags, 0).expect("must build");
    assert!(mat.lod);
    assert_eq!(mat.num_levels, 2);
    assert_eq!(mat.mip_levels, vec![rgba16_ref(0, 4, 4), rgba16_ref(1, 4, 4)]);
}

#[test]
fn lod_falls_back_to_single_level_when_a_level_is_not_faithfully_decodable() {
    let mut rdp = rdp_three_level_chain(false);
    rdp.load_via_tile = false;
    rdp.tiles[1].fmt = 5;
    let mut diags = Vec::new();
    let mat = build_material(&rdp, &textured_rsp(0, 2), &mut diags, 0).expect("must still build (single level)");
    assert!(!mat.lod);
    assert_eq!(mat.num_levels, 1);
    assert!(mat.mip_levels.is_empty());
    assert!(mat.detail_tex.is_none());
}

#[test]
fn lod_wraps_tile_index_for_nonzero_base_tile() {
    let mut rdp = rdp_three_level_chain(false);
    rdp.tiles[7] = TileDescriptor {
        fmt: 0,
        siz: 2,
        width: 2,
        height: 2,
        line: 1,
        tmem_addr: 4,
        cms: 2,
        cmt: 2,
        ..TileDescriptor::default()
    };
    let mut diags = Vec::new();
    let mat = build_material(&rdp, &textured_rsp(7, 1), &mut diags, 0).expect("LOD material must build");
    assert!(mat.lod);
    assert_eq!(mat.num_levels, 2);
    assert_eq!(mat.mip_levels, vec![rgba16_ref(7, 2, 2), rgba16_ref(0, 4, 4)]);
}

#[test]
fn linear_material_textures_decode_to_full_rgba() {
    // An I8 tile with 4-byte rows after a LoadBlock: the linear decoder's, w * h * 4 bytes.
    let mut rdp = Rdp::default();
    rdp.tmem = vec![0x10, 0x20, 0x30, 0x40];
    rdp.tiles[0] = TileDescriptor { fmt: 4, siz: 1, width: 4, height: 1, ..TileDescriptor::default() };
    let linear = TextureRef { tile: 0, w: 4, h: 1, faithful: false };
    let out = fast3d::combiner::decode_material_texture(&rdp, &linear, &[], 0).unwrap();
    assert_eq!(out.len(), 16);
    assert_eq!(&out[0..4], &[0x10, 0x10, 0x10, 0x10]);
    // the TMEM sampler's textures are not decoded here
    assert!(fast3d::combiner::decode_material_texture(&rdp, &rgba16_ref(0, 4, 1), &[], 0).is_none());
}
