use fast3d::consts::{
    G_BRANCH_Z, G_DL, G_ENDDL, G_FILLRECT, G_RDPHALF_1, G_SETCIMG, G_SPECIAL_1, G_TEXRECT, G_VTX,
};
use fast3d::gbi::GbiUcode;
use fast3d::interp::walk::{DiagKind, Diagnostic, Interp, RectBounds, StepAction, WalkOutcome};
use fast3d::mem::{GbiDataFormat, RdramImage};

fn push(buf: &mut Vec<u8>, (w0, w1): (u32, u32)) {
    buf.extend_from_slice(&w0.to_be_bytes());
    buf.extend_from_slice(&w1.to_be_bytes());
}

/// Runs a walk whose floating-point geometry commands do nothing, collecting the rectangle
/// actions.
fn run_with(bytes: &[u8], entry: u64, ucode: GbiUcode, fmt: GbiDataFormat) -> (WalkOutcome, Vec<StepAction>) {
    let mut mem = RdramImage::new(bytes);
    let mut w = Interp::new(entry, ucode, fmt);
    let mut actions = Vec::new();
    loop {
        match w.step(&mem, Ok(false)) {
            StepAction::Ended => break,
            StepAction::Next => {}
            StepAction::Rsp(c) => {
                w.dispatch_state(&mut mem, &c);
                if w.finish_dispatch() == StepAction::Ended {
                    break;
                }
            }
            a => actions.push(a),
        }
    }
    (w.outcome(), actions)
}

fn interpret_rdram(bytes: &[u8], entry: u32) -> WalkOutcome {
    run_with(bytes, entry as u64, GbiUcode::F3dex2, GbiDataFormat::Fixed).0
}

#[test]
fn unknown_opcode_is_diagnosed_at_its_byte_address() {
    let mut rdram = vec![0u8; 16];
    rdram[0] = 0xAB;
    rdram[8] = G_ENDDL;
    let r = interpret_rdram(&rdram, 0);
    assert_eq!(
        r.diags,
        vec![Diagnostic {
            at: 0,
            kind: DiagKind::UnknownOpcode(0xAB),
        }]
    );
}

#[test]
fn repeated_unknown_opcode_is_deduped_by_value() {
    let mut rdram = Vec::new();
    for _ in 0..100 {
        push(&mut rdram, (0xABu32 << 24, 0));
    }
    push(&mut rdram, ((G_ENDDL as u32) << 24, 0));
    let r = interpret_rdram(&rdram, 0);
    let n = r
        .diags
        .iter()
        .filter(|d| matches!(d.kind, DiagKind::UnknownOpcode(0xAB)))
        .count();
    assert_eq!(n, 1, "repeated identical unknown opcode must dedup: {:?}", r.diags);
}

#[test]
fn commands_counts_dispatches() {
    let mut b = Vec::new();
    push(&mut b, ((G_SETCIMG as u32) << 24 | (2 << 19) | 319, 0x10000));
    push(&mut b, ((G_ENDDL as u32) << 24, 0));
    let r = interpret_rdram(&b, 0);
    assert_eq!(r.commands, 2, "SETCIMG + ENDDL == 2 dispatches");
}

#[test]
fn draw_before_cimg_counts_a_dropped_run() {
    let mut b = Vec::new();
    push(&mut b, ((G_TEXRECT as u32) << 24 | (1280 << 12) | 960, 0));
    push(&mut b, (0, 0));
    push(&mut b, (0, 0));
    push(&mut b, ((G_ENDDL as u32) << 24, 0));
    let r = interpret_rdram(&b, 0);
    assert!(r.diags.iter().any(|d| d.kind == DiagKind::DrawBeforeCimg));
    assert_eq!(r.dropped_runs, 1);
}

#[test]
fn truncated_texrect_diagnoses_without_panic() {
    let mut b = Vec::new();
    push(&mut b, ((G_SETCIMG as u32) << 24 | (2 << 19) | 319, 0x10000));
    push(&mut b, ((G_TEXRECT as u32) << 24 | (1280 << 12) | 960, 0));
    let (r, actions) = run_with(&b, 0, GbiUcode::F3dex2, GbiDataFormat::Fixed);
    assert!(
        r.diags.iter().any(|d| d.kind == DiagKind::TruncatedRect { fill: false }),
        "expected a truncation diag, got {:?}",
        r.diags
    );
    assert!(actions.is_empty());
}

#[test]
fn texrect_after_cimg_is_handed_out_with_its_corners() {
    let mut b = Vec::new();
    push(&mut b, ((G_SETCIMG as u32) << 24 | (2 << 19) | 319, 0x10000));
    push(&mut b, ((G_TEXRECT as u32) << 24 | (1280 << 12) | 960, (3 << 24) | (16 << 12) | 8));
    push(&mut b, ((G_RDPHALF_1 as u32) << 24, 0x0010_0020));
    push(&mut b, ((0xF1u32) << 24, 0x0400_0400));
    push(&mut b, ((G_ENDDL as u32) << 24, 0));
    let (r, actions) = run_with(&b, 0, GbiUcode::F3dex2, GbiDataFormat::Fixed);
    assert!(r.diags.is_empty(), "{:?}", r.diags);
    assert_eq!(r.commands, 3);
    match actions.as_slice() {
        [StepAction::TexRect { rect, tile, flip, cmd1, .. }] => {
            assert_eq!(*rect, RectBounds { ulx: 16, uly: 8, lrx: 1280, lry: 960 });
            assert_eq!(*tile, 3);
            assert!(!*flip);
            assert_eq!(cmd1.w1, 0x0010_0020);
        }
        other => panic!("unexpected actions {other:?}"),
    }
}

#[test]
fn fill_rectangles_use_one_word_fixed_and_two_words_float() {
    let mut fixed = Vec::new();
    push(&mut fixed, ((G_SETCIMG as u32) << 24, 0x10000));
    push(&mut fixed, ((G_FILLRECT as u32) << 24 | (40 << 12) | 20, (8 << 12) | 4));
    push(&mut fixed, ((G_ENDDL as u32) << 24, 0));
    let (r, actions) = run_with(&fixed, 0, GbiUcode::F3dex2, GbiDataFormat::Fixed);
    assert_eq!(r.commands, 3);
    assert_eq!(actions, vec![StepAction::FillRect { rect: RectBounds { ulx: 2, uly: 1, lrx: 10, lry: 5 } }]);

    let mut float = Vec::new();
    push(&mut float, ((G_SETCIMG as u32) << 24, 0x10000));
    push(&mut float, ((G_FILLRECT as u32) << 24 | 40, 20));
    push(&mut float, (0x00FF_FFF8, 4));
    push(&mut float, ((G_ENDDL as u32) << 24, 0));
    let (r, actions) = run_with(&float, 0, GbiUcode::F3dex2, GbiDataFormat::Float);
    assert_eq!(r.commands, 3);
    assert_eq!(actions, vec![StepAction::FillRect { rect: RectBounds { ulx: -2, uly: 1, lrx: 10, lry: 5 } }]);
}

#[test]
fn nested_lists_return_and_walk_ends_at_top_level_return() {
    let mut b = Vec::new();
    push(&mut b, ((G_DL as u32) << 24, 0x18));
    push(&mut b, ((G_SETCIMG as u32) << 24, 0x10000));
    push(&mut b, ((G_ENDDL as u32) << 24, 0));
    push(&mut b, ((G_ENDDL as u32) << 24, 0));
    let r = interpret_rdram(&b, 0);
    assert_eq!(r.commands, 4);
    assert!(!r.rejected);
    assert_eq!(r.rdp.color_image.addr, 0x10000);
}

#[test]
fn branch_z_without_target_rejects_the_walk() {
    let mut b = Vec::new();
    push(&mut b, ((G_BRANCH_Z as u32) << 24, 0));
    push(&mut b, ((G_ENDDL as u32) << 24, 0));
    let r = interpret_rdram(&b, 0);
    assert!(r.rejected);
    assert_eq!(r.diags, vec![Diagnostic { at: 0, kind: DiagKind::MissingBranchTarget }]);

    let mut b = Vec::new();
    push(&mut b, ((G_RDPHALF_1 as u32) << 24, 0x20));
    push(&mut b, ((G_BRANCH_Z as u32) << 24, 0));
    push(&mut b, ((G_ENDDL as u32) << 24, 0));
    push(&mut b, ((G_ENDDL as u32) << 24, 0));
    push(&mut b, ((G_SETCIMG as u32) << 24, 0x5000));
    push(&mut b, ((G_ENDDL as u32) << 24, 0));
    let mem = RdramImage::new(&b);
    let mut w = Interp::new(0, GbiUcode::F3dex2, GbiDataFormat::Fixed);
    while w.step(&mem, Ok(true)) != StepAction::Ended {}
    let r = w.outcome();
    assert!(!r.rejected && r.diags.is_empty());
    assert_eq!(r.rdp.color_image.addr, 0x5000);
    assert_eq!(r.commands, 4);
}

#[test]
fn geometry_commands_go_to_the_caller_and_special_commands_reject() {
    let mut b = Vec::new();
    push(&mut b, ((G_VTX as u32) << 24, 0x100));
    push(&mut b, ((G_SPECIAL_1 as u32) << 24, 7));
    push(&mut b, ((G_ENDDL as u32) << 24, 0));
    let mem = RdramImage::new(&b);
    let mut w = Interp::new(0, GbiUcode::F3dex2, GbiDataFormat::Fixed);
    match w.step(&mem, Ok(false)) {
        StepAction::Rsp(c) => assert_eq!(c.w1, 0x100),
        other => panic!("{other:?}"),
    }
    assert_eq!(w.finish_dispatch(), StepAction::Next);
    assert_eq!(w.step(&mem, Ok(false)), StepAction::Ended);
    let r = w.outcome();
    assert!(r.rejected);
    assert_eq!(
        r.diags,
        vec![Diagnostic { at: 8, kind: DiagKind::UnsupportedCommand { opcode: G_SPECIAL_1, w0: 0xD500_0000, w1: 7 } }]
    );
}

#[test]
fn list_running_off_memory_is_diagnosed() {
    let mut b = Vec::new();
    push(&mut b, ((G_SETCIMG as u32) << 24, 0x10000));
    let r = interpret_rdram(&b, 0);
    assert_eq!(r.diags, vec![Diagnostic { at: 8, kind: DiagKind::DlPastRdram }]);
    assert_eq!(r.commands, 1);
}

fn state_walk() -> Interp {
    Interp::new(0, GbiUcode::F3dex2, GbiDataFormat::Fixed)
}

fn cmd(w0: u32, w1: u32) -> fast3d::interp::Cmd {
    fast3d::interp::Cmd { w0, w1, w1_addr: w1 as u64 }
}

#[test]
fn moveword_sets_segments_fog_and_lights() {
    let bytes = [0u8; 16];
    let mut mem = RdramImage::new(&bytes);
    let mut w = state_walk();
    // G_MW_SEGMENT: segment 6 (offset 0x18)
    assert!(w.dispatch_state(&mut mem, &cmd(0xDB06_0018, 0x0020_0000)));
    assert_eq!(mem.segments[6], 0x0020_0000);
    assert_eq!(mem.from_segmented(0x0600_0010), 0x0020_0010);
    // G_MW_FOG
    assert!(w.dispatch_state(&mut mem, &cmd(0xDB08_0000, 0x1234_FF00)));
    assert_eq!((w.rdp.fog_mul, w.rdp.fog_offset), (0x1234, -256));
    // G_MW_NUMLIGHT: 24 bytes per light
    let version = w.rsp.light_version;
    assert!(w.dispatch_state(&mut mem, &cmd(0xDB02_0000, 48)));
    assert_eq!(w.rsp.num_dir, 2);
    assert_eq!(w.rsp.light_version, version + 1);
    assert!(w.diags.is_empty());
    // an index nothing handles is reported and ends the walk
    assert!(w.dispatch_state(&mut mem, &cmd(0xDB0A_0000, 0)));
    assert_eq!(w.diags, vec![Diagnostic { at: 0, kind: DiagKind::UnhandledMoveword(0x0A) }]);
    assert_eq!(w.finish_dispatch(), StepAction::Ended);
}

#[test]
fn state_commands_update_texture_and_other_modes() {
    let bytes = [0u8; 16];
    let mut mem = RdramImage::new(&bytes);
    let mut w = state_walk();
    // gsSPTexture(0x8000, 0x4000, level 2, tile 1, on)
    assert!(w.dispatch_state(&mut mem, &cmd(0xD700_1102, 0x8000_4000)));
    let ts = w.rsp.texture_state;
    assert_eq!((ts.tile, ts.level, ts.on, ts.sc, ts.tc), (1, 2, true, 0x8000, 0x4000));
    // G_SETOTHERMODE_H: two bits at 20 (shift field 32 - 20 - 2 = 10, length field 1)
    assert!(w.dispatch_state(&mut mem, &cmd(0xE300_0A01, 1 << 20)));
    assert_eq!((w.rdp.other_mode_h >> 20) & 3, 1);
    // G_GEOMETRYMODE: clear nothing, set bit 0
    assert!(w.dispatch_state(&mut mem, &cmd(0xD9FF_FFFF, 1)));
    assert_eq!(w.rsp.geom & 1, 1);
    // G_SETTIMG: RGBA16, 32 wide, segmented address
    mem.set_segment(2, 0x1000);
    assert!(w.dispatch_state(&mut mem, &cmd(0xFD10_001F, 0x0200_0040)));
    assert_eq!(w.rdp.tex_image, (0, 2, 31, 0x1040));
    // a transform command is left to the geometry layer
    assert!(!w.dispatch_state(&mut mem, &cmd(0x0100_0000, 0)));
    // F3D: a segment move word is state, a vertex-point one and a matrix are geometry
    let mut f3d = Interp::new(0, GbiUcode::F3d, GbiDataFormat::Fixed);
    assert!(f3d.dispatch_state(&mut mem, &cmd(0xBC00_0806, 0x0030_0000)));
    assert_eq!(mem.segments[2], 0x0030_0000);
    assert!(!f3d.dispatch_state(&mut mem, &cmd(0xBC00_000C, 0)));
    assert!(!f3d.dispatch_state(&mut mem, &cmd(0x0100_0000, 0)));
    // F3D G_MW_NUMLIGHT: w1 = 0x80000000 + 32 * (n + 1)
    assert!(f3d.dispatch_state(&mut mem, &cmd(0xBC00_0002, 0x8000_0060)));
    assert_eq!(f3d.rsp.num_dir, 2);
}

#[test]
fn final_color_image_follows_nested_lists_and_segments() {
    let words: [(u32, u32); 7] = [
        (0xff10_013f, 0x0010_0000),
        (0x0600_0000, 0x0400_0018),
        (0xb800_0000, 0),
        (0xbc00_0806, 0x0020_0000),
        (0xff18_00ff, 0x0200_0100),
        (0xb800_0000, 0),
        (0xff10_003f, 0x0030_0000),
    ];
    let mut bytes = vec![0u8; 0x100];
    for w in words {
        push(&mut bytes, w);
    }
    let run = |bytes: &[u8]| {
        let mut mem = RdramImage::new(bytes);
        mem.set_segment(4, 0x100);
        let mut w = Interp::new(0x100, GbiUcode::F3d, GbiDataFormat::Fixed);
        loop {
            match w.step(&mem, Ok(false)) {
                StepAction::Ended => break,
                StepAction::Rsp(c) => {
                    assert!(w.dispatch_state(&mut mem, &c));
                    if w.finish_dispatch() == StepAction::Ended {
                        break;
                    }
                }
                _ => {}
            }
        }
        w.outcome()
    };
    let out = run(&bytes);
    assert!(out.diags.is_empty(), "{:?}", out.diags);
    let color = out.rdp.color_image;
    assert_eq!((color.addr, color.width, color.fmt, color.siz), (0x0020_0100, 256, 0, 3));
    // memory cut after the fourth word: the called list runs past the end
    let out = run(&bytes[..0x100 + 32]);
    assert!(!out.diags.is_empty());
}

fn list(words: &[(u32, u32)]) -> Vec<u8> {
    let mut b = Vec::new();
    for &w in words {
        push(&mut b, w);
    }
    b
}

#[test]
fn unknown_opcode_maps_to_structured_kind() {
    let mut rdram = vec![0u8; 16];
    rdram[0] = 0xAB;
    rdram[8] = G_ENDDL;
    let r = interpret_rdram(&rdram, 0);
    assert_eq!(r.diags, vec![Diagnostic { at: 0, kind: DiagKind::UnknownOpcode(0xAB) }]);
}

#[test]
fn rect_before_first_cimg_is_dropped_with_diag() {
    let b = list(&[
        ((G_TEXRECT as u32) << 24 | (1280 << 12) | 960, 0),
        (0xE100_0000, 0),
        (0xF100_0000, (1024u32 << 16) | 1024),
        (0xFA00_0000, 0x1122_3344),
        ((G_ENDDL as u32) << 24, 0),
    ]);
    let r = interpret_rdram(&b, 0);
    assert!(r.diags.iter().any(|d| d.kind == DiagKind::DrawBeforeCimg), "{:?}", r.diags);
    assert_eq!(r.dropped_runs, 1);
    assert_eq!(r.rdp.prim, [0x11, 0x22, 0x33, 0x44], "the primitive color still decodes after the dropped rect");
}

#[test]
fn other_mode_h_decodes_cycle_type_for_both_words() {
    for (w1, cycle_type) in [(0x0000_0000, 0), (0x0010_0000, 1)] {
        let r = interpret_rdram(&list(&[(0xE300_0A01, w1), ((G_ENDDL as u32) << 24, 0)]), 0);
        assert_eq!((r.rdp.other_mode_h >> 20) & 3, cycle_type);
    }
}

#[test]
fn persp_normalize_is_a_silent_no_op() {
    let r = interpret_rdram(&list(&[(0xDB0E_0000, 129), ((G_ENDDL as u32) << 24, 0)]), 0);
    assert!(r.diags.is_empty(), "perspNorm must be a no-op, got: {:?}", r.diags);
}

#[test]
fn move_word_reads_g_mw_fog_from_consts() {
    let bytes = [0u8; 8];
    let fog = cmd(0xDB08_0000, 0x0002_0000);
    let mut mem = RdramImage::new(&bytes);
    let mut w = state_walk();
    assert!(w.dispatch_state(&mut mem, &fog));
    assert_eq!(w.rdp.fog_mul, 2);
    // with another G_MW_FOG index the word is not fog
    let mut w = state_walk();
    w.consts.g_mw_fog = 0x7F;
    assert!(w.dispatch_state(&mut mem, &fog));
    assert_eq!(w.rdp.fog_mul, 0);
}

#[test]
fn fog_position_and_color_reach_rdp() {
    // gsSPFogPosition(900, 1000): fm = 128000 / 100 = 1280, fo = (500 - 900) * 256 / 100 = -1024
    let r = interpret_rdram(
        &list(&[(0xDB08_0000, 0x0500_FC00), (0xF800_0000, 0x8090_A0FF), ((G_ENDDL as u32) << 24, 0)]),
        0,
    );
    assert_eq!(r.rdp.fog_mul, 1280);
    assert_eq!(r.rdp.fog_offset, -1024);
    assert_eq!(r.rdp.fog_color, [0x80, 0x90, 0xA0, 0xFF]);
}

#[test]
fn pending_condition_names_the_conditional_command() {
    let b = list(&[(0x0300_0000, 0x0000_0002), ((G_ENDDL as u32) << 24, 0)]);
    let mem = RdramImage::new(&b);
    let mut w = Interp::new(0, GbiUcode::F3dex2, GbiDataFormat::Fixed);
    let c = w.pending_condition(&mem).unwrap();
    assert_eq!((c.w0, c.w1), (0x0300_0000, 2));
    w.step(&mem, Ok(false));
    assert!(w.pending_condition(&mem).is_none());
    let f3d = Interp::new(0, GbiUcode::F3d, GbiDataFormat::Fixed);
    assert!(f3d.pending_condition(&mem).is_none());
}

#[test]
fn refused_rectangle_material_counts_a_dropped_run() {
    let mut w = state_walk();
    // NOISE in cycle 1's color A of a one-cycle combiner: the rectangle is refused
    w.rdp.other_mode_h = 0;
    w.rdp.combine_l = 7 << 5;
    w.rdp.combine_h = 0;
    w.rdp.tmem = vec![0; 8];
    assert!(w.rect_material(0x40).is_none());
    assert_eq!(w.dropped_runs, 1);
    assert_eq!(w.diags, vec![Diagnostic { at: 0x40, kind: DiagKind::UnwiredSelector { slots: 1 } }]);
    // an accepted one counts nothing
    w.rdp.combine_l = 1 << 5; // TEXEL0
    assert!(w.rect_material(0x58).is_some());
    assert_eq!(w.dropped_runs, 1);
    assert_eq!(w.diags.len(), 1);
}
