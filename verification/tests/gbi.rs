use fast3d::consts;
use fast3d::consts::rsp_f3d as f3d;
use fast3d::gbi::{detect_from_ucode_hash, lookup_hash, GbiUcode};

const FIXTURE_RECORDS: &[(u64, GbiUcode)] = &[
    (0xF3D2_0000_0000_0001, GbiUcode::F3dex2),
    (0xF3D0_0000_0000_0003, GbiUcode::F3d),
];

#[test]
fn fixture_hashes_resolve_in_test_table() {
    assert_eq!(lookup_hash(0xF3D2_0000_0000_0001, FIXTURE_RECORDS), Some(GbiUcode::F3dex2));
    assert_eq!(lookup_hash(0xF3D0_0000_0000_0003, FIXTURE_RECORDS), Some(GbiUcode::F3d));
}

#[test]
fn unknown_hash_is_none() {
    assert_eq!(lookup_hash(0xDEAD_BEEF, FIXTURE_RECORDS), None);
}

#[test]
fn production_detection_knows_no_hash_yet() {
    assert_eq!(detect_from_ucode_hash(0xF3D2_0000_0000_0001), None);
    assert_eq!(detect_from_ucode_hash(0), None);
}

#[test]
fn f3dex2_consts_match_gbi_consts_source() {
    let c = GbiUcode::F3dex2.constants();
    assert_eq!(c.g_dl, consts::G_DL);
    assert_eq!(c.g_enddl, consts::G_ENDDL);
    assert_eq!(c.mtx_param_xor, 0x01);
    assert_eq!(c.g_mtx_projection, consts::G_MTX_PROJECTION);
    assert_eq!(c.g_mtx_load, consts::G_MTX_LOAD);
    assert_eq!(c.g_mtx_push, consts::G_MTX_PUSH);
    assert_eq!(c.g_mv_viewport, consts::G_MV_VIEWPORT);
    assert_eq!(c.g_mv_light, consts::G_MV_LIGHT);
    assert_eq!(c.g_mw_segment, consts::G_MW_SEGMENT);
    assert_eq!(c.g_mw_perspnorm, consts::G_MW_PERSPNORM);
    assert_eq!(c.g_mw_numlight, consts::G_MW_NUMLIGHT);
    assert_eq!(c.g_mw_fog, consts::G_MW_FOG);
    assert_eq!(c.g_fog_geom, consts::G_FOG);
    assert_eq!(c.g_clipping, consts::G_CLIPPING);
    assert_eq!(c.g_lighting, consts::G_LIGHTING);
    assert_eq!(c.g_texture_gen, consts::G_TEXTURE_GEN);
    assert_eq!(c.g_texture_gen_linear, consts::G_TEXTURE_GEN_LINEAR);
    assert_eq!(c.g_cull_front, consts::G_CULL_FRONT);
    assert_eq!(c.g_cull_back, consts::G_CULL_BACK);
    assert_eq!(c.g_cull_both, consts::G_CULL_BOTH);
    assert_eq!(c.g_mw_clip, consts::G_MW_CLIP);
}

#[test]
fn f3d_consts_match_original_microcode() {
    let c = GbiUcode::F3d.constants();
    assert_eq!(c.g_dl, f3d::G_DL);
    assert_eq!(c.g_enddl, f3d::G_ENDDL);
    assert_eq!(c.mtx_param_xor, 0x00);
    assert_eq!(c.g_mtx_projection, f3d::G_MTX_PROJECTION);
    assert_eq!(c.g_mtx_load, f3d::G_MTX_LOAD);
    assert_eq!(c.g_mtx_push, f3d::G_MTX_PUSH);
    assert_eq!(c.g_mv_viewport, f3d::G_MV_VIEWPORT);
    assert_eq!(c.g_mv_light, f3d::G_MV_LIGHT);
    assert_eq!(c.g_mw_segment, f3d::G_MW_SEGMENT);
    assert_eq!(c.g_mw_perspnorm, f3d::G_MW_PERSPNORM);
    assert_eq!(c.g_mw_clip, f3d::G_MW_CLIP);
    assert_eq!(c.g_mw_numlight, f3d::G_MW_NUMLIGHT);
    assert_eq!(c.g_mw_fog, f3d::G_MW_FOG);
    assert_eq!(c.g_fog_geom, f3d::G_FOG);
    assert_eq!(c.g_clipping, f3d::G_CLIPPING);
    assert_eq!(c.g_lighting, f3d::G_LIGHTING);
    assert_eq!(c.g_texture_gen, f3d::G_TEXTURE_GEN);
    assert_eq!(c.g_texture_gen_linear, f3d::G_TEXTURE_GEN_LINEAR);
    assert_eq!(c.g_cull_front, f3d::G_CULL_FRONT);
    assert_eq!(c.g_cull_back, f3d::G_CULL_BACK);
    assert_eq!(c.g_cull_both, f3d::G_CULL_BOTH);
    assert_eq!(c.g_dl, 0x06);
    assert_eq!(c.g_cull_front, 0x0000_1000);
}
