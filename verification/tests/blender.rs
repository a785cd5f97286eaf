use fast3d::blender::{decode_render_mode, AlphaCompare, BlendClass, RenderMode, ZMode};
use fast3d::consts::{
    gbl_c1, gbl_c2, A_0, A_IN, A_SHADE, AC_DITHER, AC_THRESHOLD, B_1, B_1MA, B_A_MEM, CLR_FOG,
    CLR_IN, CLR_MEM, FORCE_BL, G_FOG, G_RM_AA_ZB_OPA_DECAL, G_RM_AA_ZB_OPA_DECAL2,
    G_RM_AA_ZB_OPA_SURF, G_RM_AA_ZB_OPA_SURF2, G_RM_AA_ZB_TEX_EDGE, G_RM_AA_ZB_TEX_EDGE2,
    G_RM_AA_ZB_XLU_DECAL, G_RM_AA_ZB_XLU_DECAL2, G_RM_AA_ZB_XLU_SURF, G_RM_AA_ZB_XLU_SURF2,
    G_RM_CLD_SURF, G_RM_CLD_SURF2, G_RM_OPA_SURF, G_RM_OPA_SURF2,
};

fn rm(l: u32) -> RenderMode {
    decode_render_mode(l, 0, 0)
}

#[test]
fn aa_zb_opa_surf_depth_flags() {
    let r = rm(0x2078);
    assert!(r.z_test && r.z_write);
    assert_eq!(r.z_mode, ZMode::Opa);
    assert!(!r.cvg_x_alpha);
    assert!(!r.force_blend);
    assert_eq!(r.alpha_compare, AlphaCompare::Disabled);
}

#[test]
fn aa_zb_xlu_surf_is_xlu_no_zwrite_forced() {
    let r = rm(0x49D8);
    assert!(r.z_test && !r.z_write);
    assert_eq!(r.z_mode, ZMode::Xlu);
    assert!(r.force_blend);
}

#[test]
fn aa_zb_opa_decal_is_decal_no_zwrite() {
    let r = rm(0x2D58);
    assert_eq!(r.z_mode, ZMode::Decal);
    assert!(r.z_test && !r.z_write);
}

#[test]
fn tex_edge_sets_cvg_x_alpha() {
    assert!(rm(0x3078).cvg_x_alpha);
}

#[test]
fn threshold_alpha_compare_bit() {
    assert_eq!(
        rm(0x2078 | AC_THRESHOLD).alpha_compare,
        AlphaCompare::Threshold
    );
    assert_eq!(rm(0x2078 | AC_DITHER).alpha_compare, AlphaCompare::Dither);
}

#[test]
fn fog_from_geom_bit() {
    assert!(decode_render_mode(0x2078, 0, G_FOG).fog);
    assert!(!decode_render_mode(0x2078, 0, 0).fog);
}

#[test]
fn fog_from_mux_clr_fog_source() {
    assert!(decode_render_mode(0xC800_0000, 1 << 20, 0).fog);
    assert!(!decode_render_mode(0x2078, 1 << 20, 0).fog);
}

#[test]
fn blender_mux_is_high_word() {
    assert_eq!(decode_render_mode(0x00AB_0010, 0, 0).blender_mux, 0x00AB);
}

#[test]
fn opa_surf_trap_is_replace_not_blend() {
    let mux =
        (gbl_c1(CLR_IN, A_IN, CLR_MEM, B_A_MEM) | gbl_c2(CLR_IN, A_IN, CLR_MEM, B_A_MEM)) >> 16;
    let r = decode_render_mode(((mux as u32) << 16) | 0x2078, 0, 0);
    assert_eq!(r.blend_class, BlendClass::Replace);
    assert_eq!(r.fallback_class, BlendClass::Replace);
}

#[test]
fn xlu_surf_is_dualsrc_with_alphaover_fallback() {
    let mux = (gbl_c1(CLR_IN, A_IN, CLR_MEM, B_1MA) | gbl_c2(CLR_IN, A_IN, CLR_MEM, B_1MA)) >> 16;
    let r = decode_render_mode(((mux as u32) << 16) | 0x49D8, 0, 0);
    assert_eq!(r.blend_class, BlendClass::DualSrc);
    assert_eq!(r.fallback_class, BlendClass::AlphaOver);
}

#[test]
fn opa_surf_no_force_is_replace() {
    let mux = (gbl_c1(CLR_IN, A_0, CLR_IN, B_1) | gbl_c2(CLR_IN, A_0, CLR_IN, B_1)) >> 16;
    let r = decode_render_mode(((mux as u32) << 16) | FORCE_BL, 0, 0);
    assert_eq!(r.blend_class, BlendClass::Replace);
}

#[test]
fn all_presets_match_spec_table() {
    type PresetRow = (u32, u32, u32, bool, bool, ZMode, bool, BlendClass);
    let cases: &[PresetRow] = &[
        (G_RM_OPA_SURF, G_RM_OPA_SURF2, 0x4040, false, false, ZMode::Opa, false, BlendClass::Replace),
        (G_RM_AA_ZB_OPA_SURF, G_RM_AA_ZB_OPA_SURF2, 0x2078, true, true, ZMode::Opa, false, BlendClass::Replace),
        (G_RM_AA_ZB_XLU_SURF, G_RM_AA_ZB_XLU_SURF2, 0x49D8, true, false, ZMode::Xlu, false, BlendClass::DualSrc),
        (G_RM_AA_ZB_TEX_EDGE, G_RM_AA_ZB_TEX_EDGE2, 0x3078, true, true, ZMode::Opa, true, BlendClass::Replace),
        (G_RM_CLD_SURF, G_RM_CLD_SURF2, 0x4340, false, false, ZMode::Opa, false, BlendClass::DualSrc),
        (G_RM_AA_ZB_OPA_DECAL, G_RM_AA_ZB_OPA_DECAL2, 0x2D58, true, false, ZMode::Decal, false, BlendClass::Replace),
        (G_RM_AA_ZB_XLU_DECAL, G_RM_AA_ZB_XLU_DECAL2, 0x4DD8, true, false, ZMode::Decal, false, BlendClass::DualSrc),
    ];
    for &(m1, m2, low, zt, zw, zm, cva, bc) in cases {
        assert_eq!((m1 | m2) & 0xFFFF, low, "low word for {m1:#x} must match exactly");
        let r = decode_render_mode(m1 | m2, 0, 0);
        assert_eq!(r.z_test, zt, "z_test for {m1:#x}");
        assert_eq!(r.z_write, zw, "z_write for {m1:#x}");
        assert_eq!(r.z_mode, zm, "z_mode for {m1:#x}");
        assert_eq!(r.cvg_x_alpha, cva, "cvg_x_alpha for {m1:#x}");
        assert_eq!(r.blend_class, bc, "blend_class for {m1:#x}");
    }
}

#[test]
fn fog_shade_a_2cycle_uses_cycle2_selectors() {
    let mux =
        (gbl_c1(CLR_FOG, A_SHADE, CLR_IN, B_1MA) | gbl_c2(CLR_IN, A_IN, CLR_MEM, B_1MA)) >> 16;
    let omh = 1u32 << 20;
    let r = decode_render_mode(((mux as u32) << 16) | 0x49D8, omh, G_FOG);
    assert!(r.fog, "G_FOG geom bit drives fog");
    assert_eq!(r.blend_class, BlendClass::DualSrc);
    assert!(!r.non_canonical_blend);
}

#[test]
fn additive_blend_is_flagged_non_canonical_canonical_lerp_is_not() {
    let canon = (gbl_c1(CLR_IN, A_IN, CLR_MEM, B_1MA) | gbl_c2(CLR_IN, A_IN, CLR_MEM, B_1MA)) >> 16;
    let rc = decode_render_mode(((canon as u32) << 16) | 0x49D8, 0, 0);
    assert_eq!(rc.blend_class, BlendClass::DualSrc);
    assert!(!rc.non_canonical_blend, "canonical lerp must not be flagged");
    let add = (gbl_c1(CLR_IN, A_0, CLR_MEM, B_1) | gbl_c2(CLR_IN, A_0, CLR_MEM, B_1)) >> 16;
    let ra = decode_render_mode(((add as u32) << 16) | FORCE_BL, 0, 0);
    assert_eq!(ra.blend_class, BlendClass::DualSrc);
    assert!(ra.non_canonical_blend, "additive blend must be flagged");
}

// A blended primary class always has the lossy AlphaOver fallback; nothing falls back to
// DualSrc, and a primary class is never AlphaOver.
#[test]
fn fallback_class_law_on_sample_modes() {
    for l in [0x2078u32, 0x49D8, 0x0055_4000, 0xC800_0000, 0x0050_4340, 0xFFFF_FFFF, 0] {
        for h in [0u32, 1 << 20, 2 << 20] {
            let r = decode_render_mode(l, h, 0);
            assert_ne!(r.blend_class, BlendClass::AlphaOver);
            assert_eq!(r.blend_class == BlendClass::DualSrc, r.fallback_class == BlendClass::AlphaOver);
            assert_eq!(r.blender_mux as u32, l >> 16);
        }
    }
}
