use fast3d::consts::{
    G_ENDDL, G_FILLRECT, G_RDPHALF_1, G_RDPHALF_2, G_SETCIMG, G_SETFILLCOLOR, G_SETPRIMCOLOR,
    G_SETSCISSOR, G_TEXRECT, G_TEXRECTFLIP,
};
use fast3d::gbi::GbiUcode;
use fast3d::interp::walk::{DiagKind, Interp, RectBounds, StepAction, WalkOutcome};
use fast3d::mem::{GbiDataFormat, RdramImage};
use fast3d::rdp::{ColorImage, PrimitiveDepth, Scissor};
use fast3d::scene::{Scene, SceneOp};

const SENTINEL: [u8; 4] = [0xDE, 0xAD, 0xBE, 0xEF];

fn push(buf: &mut Vec<u8>, (w0, w1): (u32, u32)) {
    buf.extend_from_slice(&w0.to_be_bytes());
    buf.extend_from_slice(&w1.to_be_bytes());
}

fn cimg(addr: u32) -> (u32, u32) {
    ((G_SETCIMG as u32) << 24 | (2 << 19) | 319, addr)
}

fn prim_sentinel() -> (u32, u32) {
    ((G_SETPRIMCOLOR as u32) << 24, u32::from_be_bytes(SENTINEL))
}

fn fill_color(rgba: u32) -> (u32, u32) {
    ((G_SETFILLCOLOR as u32) << 24, rgba)
}

fn enddl() -> (u32, u32) {
    ((G_ENDDL as u32) << 24, 0)
}

fn scissor(ulx: u32, uly: u32, lrx: u32, lry: u32, mode: u32) -> (u32, u32) {
    (
        (G_SETSCISSOR as u32) << 24 | ((ulx << 2) << 12) | (uly << 2),
        (mode << 24) | ((lrx << 2) << 12) | (lry << 2),
    )
}

/// Walks `buf` with no floating-point geometry, recording rectangles in a scene.
fn run_with(buf: &[u8], fmt: GbiDataFormat) -> (WalkOutcome, Scene) {
    let mut mem = RdramImage::new(buf);
    let mut walk = Interp::new(0, GbiUcode::F3dex2, fmt);
    let mut scene = Scene::new();
    loop {
        let cond = Ok(false);
        match walk.step(&mem, cond) {
            StepAction::Ended => break,
            StepAction::Next => {}
            StepAction::Rsp(c) => {
                walk.dispatch_state(&mut mem, &c);
                if walk.finish_dispatch() == StepAction::Ended {
                    break;
                }
            }
            StepAction::FillRect { rect } => scene.fill_rect(&mut walk.rdp, rect),
            action @ StepAction::TexRect { .. } => {
                scene.tex_rect(&mut walk, &action);
            }
        }
    }
    if walk.rejected {
        scene.discard(&mut walk);
    }
    (walk.outcome(), scene)
}

fn run(buf: &[u8]) -> (WalkOutcome, Scene) {
    run_with(buf, GbiDataFormat::Fixed)
}

fn texrect_op(rect: RectBounds, flip: bool) -> SceneOp {
    SceneOp::TexRect {
        rect,
        tile: 0,
        uls: 11,
        ult: 13,
        dsdx: 1024,
        dtdy: 512,
        flip,
        copy_mode: false,
        material_index: 0,
        render_mode_index: 0,
        fog_color: [0; 4],
        prim_depth: PrimitiveDepth { z: 0, dz: 0 },
        fb_source: None,
    }
}

#[test]
fn fixed_texrect_records_op_and_sentinel_decodes() {
    let mut b = Vec::new();
    push(&mut b, cimg(0x10000));
    push(&mut b, ((G_TEXRECT as u32) << 24 | (1280 << 12) | 960, (20u32 << 12) | 28));
    push(&mut b, ((G_RDPHALF_1 as u32) << 24, (11u32 << 16) | 13));
    push(&mut b, ((G_RDPHALF_2 as u32) << 24, (1024u32 << 16) | 512));
    push(&mut b, prim_sentinel());
    push(&mut b, enddl());
    let (r, scene) = run(&b);
    assert!(r.diags.is_empty(), "diags: {:?}", r.diags);
    let pairs = scene.pairs();
    assert_eq!(pairs.len(), 1);
    assert_eq!(pairs[0].color_image, ColorImage { fmt: 0, siz: 2, width: 320, addr: 0x10000 });
    assert_eq!(pairs[0].ops, vec![texrect_op(RectBounds { ulx: 20, uly: 28, lrx: 1280, lry: 960 }, false)]);
    assert_eq!(scene.materials().len(), 1);
    assert_eq!(scene.render_modes().len(), 1);
    assert_eq!(r.rdp.prim, SENTINEL, "3-word TEXRECT: the sentinel decodes");
}

#[test]
fn fixed_texrectflip_sets_flip() {
    let mut b = Vec::new();
    push(&mut b, cimg(0x10000));
    push(&mut b, ((G_TEXRECTFLIP as u32) << 24 | (1280 << 12) | 960, (20u32 << 12) | 28));
    push(&mut b, ((G_RDPHALF_1 as u32) << 24, (11u32 << 16) | 13));
    push(&mut b, ((G_RDPHALF_2 as u32) << 24, (1024u32 << 16) | 512));
    push(&mut b, prim_sentinel());
    push(&mut b, enddl());
    let (r, scene) = run(&b);
    assert!(r.diags.is_empty(), "diags: {:?}", r.diags);
    assert_eq!(scene.pairs()[0].ops, vec![texrect_op(RectBounds { ulx: 20, uly: 28, lrx: 1280, lry: 960 }, true)]);
    assert_eq!(r.rdp.prim, SENTINEL);
}

#[test]
fn fixed_fillrect_one_word_records_fill_color() {
    let mut b = Vec::new();
    push(&mut b, cimg(0x10000));
    push(&mut b, fill_color(0xCAFE_F00D));
    push(&mut b, ((G_FILLRECT as u32) << 24 | (1280 << 12) | 960, ((10u32 << 2) << 12) | (20u32 << 2)));
    push(&mut b, prim_sentinel());
    push(&mut b, enddl());
    let (r, scene) = run(&b);
    assert!(r.diags.is_empty(), "diags: {:?}", r.diags);
    assert_eq!(
        scene.pairs()[0].ops,
        vec![SceneOp::FillRect { rect: RectBounds { ulx: 10, uly: 20, lrx: 320, lry: 240 }, color_raw: 0xCAFE_F00D }]
    );
    assert_eq!(r.rdp.prim, SENTINEL, "1-word FILLRECT: the sentinel decodes");
}

#[test]
fn float_texrect_records_op_and_sentinel_decodes() {
    let mut b = Vec::new();
    push(&mut b, cimg(0x10000));
    push(&mut b, ((G_TEXRECT as u32) << 24 | 1280, 960));
    push(&mut b, ((G_RDPHALF_1 as u32) << 24 | 20, (11u32 << 16) | 13));
    push(&mut b, ((G_RDPHALF_2 as u32) << 24 | 28, (1024u32 << 16) | 512));
    push(&mut b, prim_sentinel());
    push(&mut b, enddl());
    let (r, scene) = run_with(&b, GbiDataFormat::Float);
    assert!(r.diags.is_empty(), "diags: {:?}", r.diags);
    assert_eq!(scene.pairs()[0].ops, vec![texrect_op(RectBounds { ulx: 20, uly: 28, lrx: 1280, lry: 960 }, false)]);
    assert_eq!(r.rdp.prim, SENTINEL, "3-word float TEXRECT: the sentinel decodes");
}

#[test]
fn float_fillrect_two_words_records_fill_color() {
    let mut b = Vec::new();
    push(&mut b, cimg(0x10000));
    push(&mut b, fill_color(0x1234_5678));
    push(&mut b, ((G_FILLRECT as u32) << 24 | 1280, 960));
    push(&mut b, ((G_RDPHALF_1 as u32) << 24, 0));
    push(&mut b, prim_sentinel());
    push(&mut b, enddl());
    let (r, scene) = run_with(&b, GbiDataFormat::Float);
    assert!(r.diags.is_empty(), "diags: {:?}", r.diags);
    assert_eq!(
        scene.pairs()[0].ops,
        vec![SceneOp::FillRect { rect: RectBounds { ulx: 0, uly: 0, lrx: 320, lry: 240 }, color_raw: 0x1234_5678 }]
    );
    assert_eq!(r.rdp.prim, SENTINEL, "2-word float FILLRECT: the sentinel decodes");
}

#[test]
fn mid_pair_scissor_change_emits_setscissor_op() {
    let mut b = Vec::new();
    push(&mut b, cimg(0x10000));
    push(&mut b, scissor(0, 0, 320, 240, 0));
    push(&mut b, fill_color(0x1111_1111));
    push(&mut b, ((G_FILLRECT as u32) << 24 | (400 << 12) | 320, 0));
    push(&mut b, scissor(10, 20, 300, 220, 1));
    push(&mut b, ((G_FILLRECT as u32) << 24 | (800 << 12) | 600, ((50u32 << 2) << 12) | (40u32 << 2)));
    push(&mut b, prim_sentinel());
    push(&mut b, enddl());
    let (r, scene) = run(&b);
    assert!(r.diags.is_empty(), "diags: {:?}", r.diags);
    let pairs = scene.pairs();
    assert_eq!(pairs.len(), 1);
    let p = &pairs[0];
    assert_eq!(p.active_scissor, Scissor { ulx: 0, uly: 0, lrx: 320, lry: 240, mode: 0 });
    assert_eq!(p.size_extent, (320, 240));
    assert_eq!(
        p.ops,
        vec![
            SceneOp::FillRect { rect: RectBounds { ulx: 0, uly: 0, lrx: 100, lry: 80 }, color_raw: 0x1111_1111 },
            SceneOp::SetScissor(Scissor { ulx: 10, uly: 20, lrx: 300, lry: 220, mode: 1 }),
            SceneOp::FillRect { rect: RectBounds { ulx: 50, uly: 40, lrx: 200, lry: 150 }, color_raw: 0x1111_1111 },
        ]
    );
    assert_eq!(r.rdp.prim, SENTINEL);
}

#[test]
fn draws_before_a_color_image_record_no_pair() {
    let mut b = Vec::new();
    push(&mut b, ((G_TEXRECT as u32) << 24 | (1280 << 12) | 960, 0));
    push(&mut b, ((G_RDPHALF_1 as u32) << 24, 0));
    push(&mut b, ((G_RDPHALF_2 as u32) << 24, (1024u32 << 16) | 1024));
    push(&mut b, prim_sentinel());
    push(&mut b, enddl());
    let (r, scene) = run(&b);
    assert!(r.diags.iter().any(|d| d.kind == DiagKind::DrawBeforeCimg));
    assert_eq!((r.dropped_runs, r.commands), (1, 3));
    assert!(scene.pairs().is_empty());
}

#[test]
fn a_new_color_image_opens_a_new_pair_and_equal_materials_are_shared() {
    let mut b = Vec::new();
    push(&mut b, scissor(0, 0, 320, 240, 0));
    for addr in [0x10000, 0x40000] {
        push(&mut b, cimg(addr));
        push(&mut b, ((G_TEXRECT as u32) << 24 | (1280 << 12) | 960, (20u32 << 12) | 28));
        push(&mut b, ((G_RDPHALF_1 as u32) << 24, (11u32 << 16) | 13));
        push(&mut b, ((G_RDPHALF_2 as u32) << 24, (1024u32 << 16) | 512));
    }
    // a texture rectangle reading from inside the first color image
    push(&mut b, (0xFD10_0000, 0x10010));
    push(&mut b, ((G_TEXRECT as u32) << 24 | (1280 << 12) | 960, (20u32 << 12) | 28));
    push(&mut b, ((G_RDPHALF_1 as u32) << 24, (11u32 << 16) | 13));
    push(&mut b, ((G_RDPHALF_2 as u32) << 24, (1024u32 << 16) | 512));
    push(&mut b, enddl());
    let (r, scene) = run(&b);
    assert!(r.diags.is_empty(), "diags: {:?}", r.diags);
    let pairs = scene.pairs();
    assert_eq!(pairs.len(), 2);
    assert_eq!(pairs[1].color_image.addr, 0x40000);
    assert_eq!(scene.materials().len(), 1);
    match pairs[1].ops[1] {
        SceneOp::TexRect { fb_source, material_index, .. } => {
            assert_eq!(fb_source, Some(0x10000), "the texture lies in the first color image");
            assert_eq!(material_index, 0);
        }
        other => panic!("expected a TexRect, got {other:?}"),
    }
}
