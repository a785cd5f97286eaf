use fast3d::consts::{G_CLIPPING, G_LIGHTING, G_MTX_LOAD, G_MTX_PROJECTION, G_MTX_PUSH};
use fast3d::gbi::{GbiConstants, GbiUcode};
use fast3d::mem::GbiDataFormat;
use fast3d::rdp::Rdp;
use fast3d::rsp::{bpp, LightSlot, MatrixTarget, Rsp, RSP_MATRIX_STACK_SIZE, RSP_MAX_LIGHTS};

#[test]
fn rsp_seeds_initial_geom_from_consts_clipping() {
    let base = GbiUcode::F3dex2.constants();
    let tweaked = GbiConstants {
        g_clipping: 0x1234,
        ..base
    };
    assert_eq!(Rsp::new(tweaked, GbiDataFormat::Fixed).geometry_mode(), 0x1234);
    assert_eq!(Rsp::new(base, GbiDataFormat::Fixed).geometry_mode(), G_CLIPPING);
}

#[test]
fn rsp_new_carries_data_format() {
    assert_eq!(
        Rsp::new(GbiUcode::F3dex2.constants(), GbiDataFormat::Float).data_format,
        GbiDataFormat::Float
    );
    assert_eq!(Rsp::default().data_format, GbiDataFormat::Fixed);
}

#[test]
fn set_num_lights_clamps_to_rsp_max_lights() {
    let mut rsp = Rsp::default();
    rsp.set_num_lights(9 * 24);
    assert_eq!(rsp.num_dir, RSP_MAX_LIGHTS, "num_dir must clamp to RSP_MAX_LIGHTS");
}

#[test]
fn direct_num_lights_matches_f3dex2_encoded_path() {
    let mut direct = Rsp::default();
    let mut encoded = Rsp::default();

    direct.set_num_lights_direct(3);
    encoded.set_num_lights(3 * 24);

    assert_eq!(direct.num_dir, encoded.num_dir);
    assert_eq!(direct.light_version, encoded.light_version);
}

#[test]
fn raw_and_transformed_other_mode_paths_are_equivalent() {
    let mut raw_rsp = Rsp::default();
    let mut transformed_rsp = Rsp::default();
    let mut raw_rdp = Rdp::default();
    let mut transformed_rdp = Rdp::default();
    let cycle_type = 1u32 << 20;

    raw_rsp.set_other_mode_h_raw(20, 2, cycle_type, &mut raw_rdp);
    transformed_rsp.set_other_mode_h(10, 1, cycle_type, &mut transformed_rdp);
    assert_eq!(raw_rdp.other_mode_h, transformed_rdp.other_mode_h);

    let render_mode = 0x4411_2230;
    raw_rsp.set_other_mode_l_raw(3, 29, render_mode, &mut raw_rdp);
    transformed_rsp.set_other_mode_l(0, 28, render_mode, &mut transformed_rdp);
    assert_eq!(raw_rdp.other_mode_l, transformed_rdp.other_mode_l);
}

#[test]
fn other_mode_field_replaces_only_its_bits() {
    let mut rsp = Rsp::default();
    let mut rdp = Rdp::default();
    rdp.other_mode_h = 0xFFFF_FFFF;
    // Cycle type: two bits at 20.
    rsp.set_other_mode_h_raw(20, 2, 1 << 20, &mut rdp);
    assert_eq!(rdp.other_mode_h, 0xFFDF_FFFF);
    // A field that does not fit leaves the word alone.
    rsp.set_other_mode_h_raw(31, 2, 0, &mut rdp);
    assert_eq!(rdp.other_mode_h, 0xFFDF_FFFF);
    // A full-width field replaces the whole word.
    rsp.set_other_mode_l_raw(0, 32, 0x1234_5678, &mut rdp);
    assert_eq!(rdp.other_mode_l, 0x1234_5678);
}

#[test]
fn lighting_toggle_bumps_light_version_only_on_change() {
    let mut rsp = Rsp::default();
    let v0 = rsp.light_version;
    rsp.modify_geometry_mode(!0, G_LIGHTING);
    assert_eq!(rsp.geometry_mode(), G_CLIPPING | G_LIGHTING);
    assert_eq!(rsp.light_version, v0 + 1);
    // Setting it again changes nothing.
    rsp.modify_geometry_mode(!0, G_LIGHTING);
    assert_eq!(rsp.light_version, v0 + 1);
    // Clearing it bumps again.
    rsp.modify_geometry_mode(!G_LIGHTING, 0);
    assert_eq!(rsp.geometry_mode(), G_CLIPPING);
    assert_eq!(rsp.light_version, v0 + 2);
}

#[test]
fn light_write_picks_ambient_directional_or_nothing() {
    let mut rsp = Rsp::default();
    rsp.set_num_lights_direct(2);
    assert_eq!(rsp.light_write(2), LightSlot::Ambient);
    assert_eq!(rsp.light_write(1), LightSlot::Directional(1));
    assert_eq!(rsp.light_write(9), LightSlot::Ignored);
    assert_eq!(rsp.light_version, 4);
    assert!(rsp.lookat_write(1));
    assert!(!rsp.lookat_write(2));
    assert_eq!(rsp.lookat_version, 2);
}

#[test]
fn matrix_push_grows_the_stack_until_full_and_pop_stops_at_one() {
    let mut rsp = Rsp::default();
    assert_eq!(
        rsp.matrix_target(G_MTX_PROJECTION | G_MTX_LOAD),
        MatrixTarget::Projection { load: true }
    );
    assert_eq!(rsp.model_stack_size, 1);
    assert_eq!(
        rsp.matrix_target(G_MTX_PUSH),
        MatrixTarget::Modelview { top: 1, pushed: true, load: false }
    );
    for _ in 0..40 {
        rsp.matrix_target(G_MTX_PUSH | G_MTX_LOAD);
    }
    assert_eq!(rsp.model_stack_size, RSP_MATRIX_STACK_SIZE);
    assert_eq!(
        rsp.matrix_target(G_MTX_PUSH),
        MatrixTarget::Modelview { top: RSP_MATRIX_STACK_SIZE - 1, pushed: false, load: false }
    );
    assert!(rsp.pop_matrix(3));
    assert_eq!(rsp.model_stack_size, RSP_MATRIX_STACK_SIZE - 3);
    assert!(rsp.pop_matrix(100));
    assert_eq!(rsp.model_stack_size, 1);
    assert!(!rsp.pop_matrix(1));
}

#[test]
fn texture_state_and_image_are_recorded() {
    let mut rsp = Rsp::default();
    let mut rdp = Rdp::default();
    rsp.set_texture(2, 1, true, 0x8000, 0x4000);
    assert_eq!(rsp.texture_state.tile, 2);
    assert_eq!(rsp.texture_state.sc, 0x8000);
    rsp.set_texture_image(0, 2, 64, 0x1000, &mut rdp);
    assert_eq!(rdp.tex_image, (0, 2, 64, 0x1000));
}

#[test]
fn bytes_per_pixel_by_size_code() {
    assert_eq!(bpp(0), 0);
    assert_eq!(bpp(1), 1);
    assert_eq!(bpp(2), 2);
    assert_eq!(bpp(3), 4);
}
