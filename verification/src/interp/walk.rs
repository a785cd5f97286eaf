//! One step of the display-list walk: the dispatch guards, control flow, the RDPHALF
//! branch target, rectangle continuation words, RDP command execution and the
//! diagnostics that end or reject a walk. RSP geometry commands (vertices, triangles,
//! matrices, lights, moves, modes) are handed to the caller, which runs them on its
//! geometry state and then calls `finish_dispatch`.
use vstd::prelude::*;
use crate::consts::{
    G_BRANCH_Z, G_CULLDL, G_DMA_IO, G_FILLRECT, G_LINE3D, G_LOAD_UCODE, G_MODIFYVTX, G_MOVEMEM,
    G_MOVEWORD, G_MTX, G_POPMTX, G_QUAD, G_RDPHALF_1, G_SETCIMG, G_SETOTHERMODE_H, G_SETOTHERMODE_L,
    G_SETTIMG, G_SPECIAL_1, G_SPECIAL_2, G_SPECIAL_3, G_SPNOOP, G_TEXRECT, G_TEXRECTFLIP, G_TEXTURE,
    G_TRI1, G_TRI2, G_VTX, G_GEOMETRYMODE,
};
use crate::consts::rsp_f3d;
use crate::gbi::{GbiConstants, GbiUcode};
use crate::interp::{
    Cmd, Control, DlWalk, WalkEnd, DISPATCH_CAP, decide_control, spec_control, spec_apply, field,
    sext24, spec_sext24,
};
use crate::mem::{GbiDataFormat, RdramImage, be_u32};
use crate::rdp::{Rdp, RdpOutcome, execute_rdp, execute_rdp_post};
use crate::rsp::Rsp;
use crate::combiner::{Material, build_rect_material, diag_at, opt_view, spec_build};

verus! {

/// A color-key combiner input.
#[derive(Clone, Copy, Debug, PartialEq, Eq, Structural)]
pub enum KeyInput {
    Center,
    Scale,
}

/// A YUV-conversion combiner input.
#[derive(Clone, Copy, Debug, PartialEq, Eq, Structural)]
pub enum ConvertInput {
    K4,
    K5,
}

/// What a diagnostic reports.
#[derive(Clone, Copy, Debug, PartialEq, Eq, Structural)]
pub enum DiagKind {
    /// The dispatch cap was reached.
    RunawayDl { cap: u64 },
    /// The next command lies outside memory.
    DlPastRdram,
    /// An opcode no handler takes (reported once per opcode).
    UnknownOpcode(u8),
    /// A BRANCH_Z without a preceding RDPHALF_1 target.
    MissingBranchTarget,
    /// A microcode load, which the walk cannot follow.
    UnsupportedMicrocodeLoad { w0: u32, w1: u64, data_address: Option<u64> },
    /// An RDPHALF continuation word reached dispatch.
    StrayRdphalf,
    /// A rectangle whose continuation words lie outside memory.
    TruncatedRect { fill: bool },
    /// A rectangle before the first color image.
    DrawBeforeCimg,
    /// A microcode command the renderer does not support (reported once per opcode).
    UnsupportedCommand { opcode: u8, w0: u32, w1: u64 },
    /// A command with parameters the renderer does not support.
    UnsupportedCommandParameters { opcode: u8 },
    /// A texture load whose source bytes are not all in memory.
    TextureMemoryUnavailable { opcode: u8 },
    /// A G_MOVEMEM index the geometry layer does not handle.
    UnhandledMovemem(u8),
    /// A G_MOVEWORD index the geometry layer does not handle.
    UnhandledMoveword(u8),
    /// A CULLDL vertex range that is not valid.
    InvalidCullRange { first: u32, last: u32 },
    /// A conditional command naming a vertex that is not loaded.
    InvalidConditionalVertex { index: u32 },
    /// A conditional command naming a vertex with no transformed depth.
    InvalidVertexTransform { index: u32 },
    /// Combiner slots whose selectors the renderer does not draw: bits 0-7 cycle 1's CA..AD,
    /// bits 8-15 cycle 0's.
    UnwiredSelector { slots: u16 },
    /// A color-key input selected in an active combiner cycle.
    UnsupportedKeyInput { selector: KeyInput },
    /// A YUV-conversion input selected in an active combiner cycle.
    UnsupportedConvertInput { selector: ConvertInput },
    /// A texture-sampling combiner with no texture loaded.
    NoTextureLoaded,
    /// A second texture that only the linear decoder could read.
    SecondTextureUndecodable,
    /// TEXTCONV was written with a value other than G_TC_FILT.
    UnsupportedTextureConversion,
    /// Chroma keying (G_CK_KEY) is enabled.
    UnsupportedChromaKey,
}

/// A diagnostic at the byte address of the command it concerns.
#[derive(Clone, Copy, Debug, PartialEq, Eq, Structural)]
pub struct Diagnostic {
    pub at: u64,
    pub kind: DiagKind,
}

/// Rectangle corners in the units the command gives (10.2 for textured rectangles, pixels
/// for fill rectangles).
#[derive(Clone, Copy, Debug, PartialEq, Eq, Structural)]
pub struct RectBounds {
    pub ulx: i32,
    pub uly: i32,
    pub lrx: i32,
    pub lry: i32,
}

/// What a step leaves to the caller.
#[derive(Clone, Copy, Debug, PartialEq, Eq, Structural)]
pub enum StepAction {
    /// The walk has ended.
    Ended,
    /// The command was handled; take the next step.
    Next,
    /// A command for the microcode's geometry handlers: run it, then call `finish_dispatch`.
    Rsp(Cmd),
    /// A textured rectangle at byte address `at` to record, with its two continuation
    /// words; the walk has moved past all three. Its material comes from
    /// `Interp::rect_material`.
    TexRect { at: u64, cmd: Cmd, cmd1: Cmd, cmd2: Cmd, rect: RectBounds, tile: u8, flip: bool },
    /// A fill rectangle to record, in pixels; the walk has moved past it.
    FillRect { rect: RectBounds },
}

/// The state of one display-list walk.
pub struct Interp {
    /// The RSP state the geometry handlers work on; the step itself leaves it alone.
    pub rsp: Rsp,
    pub ucode: GbiUcode,
    pub consts: GbiConstants,
    pub data_format: GbiDataFormat,
    pub walk: DlWalk,
    pub rdp: Rdp,
    pub diags: Vec<Diagnostic>,
    /// Draw runs discarded during the walk.
    pub dropped_runs: u32,
    /// Unknown opcodes already reported.
    pub unknown_seen: [bool; 256],
    /// Unsupported commands already reported.
    pub unsupported_seen: [bool; 256],
    /// The address word of the latest RDPHALF_1 (F3DEX2), BRANCH_Z's target.
    pub rdphalf_1: Option<u64>,
    /// Whether a G_SETCIMG has been dispatched.
    pub seen_cimg: bool,
    pub ended: bool,
    /// Whether the walk was rejected (its drawing is dropped).
    pub rejected: bool,
}

/// Whether the microcode's handler table takes `op` (the RSP commands and, for F3D, the
/// commands it treats as no-ops); every other opcode goes to the RDP table.
pub open spec fn spec_rsp_handled(ucode: GbiUcode, op: u8) -> bool {
    match ucode {
        GbiUcode::F3dex2 => op == G_VTX || op == G_MODIFYVTX || op == G_QUAD || op == G_TRI1 || op
            == G_TRI2 || op == G_GEOMETRYMODE || op == G_MTX || op == G_MOVEMEM || op == G_TEXTURE
            || op == G_SETOTHERMODE_H || op == G_SETOTHERMODE_L || op == G_SETTIMG || op == G_MOVEWORD
            || op == G_POPMTX || op == G_SPNOOP || spec_unsupported(op),
        GbiUcode::F3d => op == rsp_f3d::G_SPNOOP || op == rsp_f3d::G_MTX || op == rsp_f3d::G_MOVEMEM
            || op == rsp_f3d::G_VTX || op == rsp_f3d::G_DL || op == rsp_f3d::G_SPRITE2D_BASE || op
            == rsp_f3d::G_RDPHALF_2 || op == rsp_f3d::G_RDPHALF_1 || op == rsp_f3d::G_QUAD || op
            == rsp_f3d::G_CLEARGEOMETRYMODE || op == rsp_f3d::G_SETGEOMETRYMODE || op
            == rsp_f3d::G_ENDDL || op == rsp_f3d::G_SETOTHERMODE_L || op == rsp_f3d::G_SETOTHERMODE_H
            || op == rsp_f3d::G_TEXTURE || op == rsp_f3d::G_MOVEWORD || op == rsp_f3d::G_POPMTX || op
            == rsp_f3d::G_CULLDL || op == rsp_f3d::G_TRI1 || op == rsp_f3d::G_RDPNOOP || op
            == G_SETTIMG,
    }
}

/// The F3DEX2 commands the renderer does not support: LINE3D, DMA_IO and the three
/// SPECIAL commands.
pub open spec fn spec_unsupported(op: u8) -> bool {
    op == G_LINE3D || op == G_DMA_IO || op == G_SPECIAL_1 || op == G_SPECIAL_2 || op == G_SPECIAL_3
}

fn rsp_handled(ucode: GbiUcode, op: u8) -> (r: bool)
    ensures
        r == spec_rsp_handled(ucode, op),
{
    match ucode {
        GbiUcode::F3dex2 => op == G_VTX || op == G_MODIFYVTX || op == G_QUAD || op == G_TRI1 || op
            == G_TRI2 || op == G_GEOMETRYMODE || op == G_MTX || op == G_MOVEMEM || op == G_TEXTURE
            || op == G_SETOTHERMODE_H || op == G_SETOTHERMODE_L || op == G_SETTIMG || op == G_MOVEWORD
            || op == G_POPMTX || op == G_SPNOOP || op == G_LINE3D || op == G_DMA_IO || op
            == G_SPECIAL_1 || op == G_SPECIAL_2 || op == G_SPECIAL_3,
        GbiUcode::F3d => op == rsp_f3d::G_SPNOOP || op == rsp_f3d::G_MTX || op == rsp_f3d::G_MOVEMEM
            || op == rsp_f3d::G_VTX || op == rsp_f3d::G_DL || op == rsp_f3d::G_SPRITE2D_BASE || op
            == rsp_f3d::G_RDPHALF_2 || op == rsp_f3d::G_RDPHALF_1 || op == rsp_f3d::G_QUAD || op
            == rsp_f3d::G_CLEARGEOMETRYMODE || op == rsp_f3d::G_SETGEOMETRYMODE || op
            == rsp_f3d::G_ENDDL || op == rsp_f3d::G_SETOTHERMODE_L || op == rsp_f3d::G_SETOTHERMODE_H
            || op == rsp_f3d::G_TEXTURE || op == rsp_f3d::G_MOVEWORD || op == rsp_f3d::G_POPMTX || op
            == rsp_f3d::G_CULLDL || op == rsp_f3d::G_TRI1 || op == rsp_f3d::G_RDPNOOP || op
            == G_SETTIMG,
    }
}

/// Whether a diagnostic, as the latest one after a dispatch, rejects the walk: memory past
/// the end, an unhandled move, or one of the SPECIAL commands.
pub open spec fn spec_rejects(d: Diagnostic) -> bool {
    match d.kind {
        DiagKind::DlPastRdram => true,
        DiagKind::UnhandledMovemem(_) => true,
        DiagKind::UnhandledMoveword(_) => true,
        DiagKind::UnsupportedCommand { opcode, .. } => 0xd3 <= opcode <= 0xd5,
        _ => false,
    }
}

/// The command at `pc` of the image.
pub open spec fn cmd_at(mem: RdramImage, pc: int) -> Cmd {
    Cmd { w0: be_u32(mem.bytes@, pc), w1: be_u32(mem.bytes@, pc + 4), w1_addr: be_u32(mem.bytes@, pc + 4) as u64 }
}

/// The corners of a textured rectangle: fixed-point commands pack them in `w0`/`w1` of the
/// first word; float commands give 24-bit signed values across the three words.
pub open spec fn spec_texrect_bounds(fmt: GbiDataFormat, c: Cmd, c1: Cmd, c2: Cmd) -> RectBounds {
    match fmt {
        GbiDataFormat::Fixed => RectBounds {
            lrx: field(c.w0, 12, 12) as i32,
            lry: field(c.w0, 0, 12) as i32,
            ulx: field(c.w1, 12, 12) as i32,
            uly: field(c.w1, 0, 12) as i32,
        },
        GbiDataFormat::Float => RectBounds {
            lrx: spec_sext24(c.w0),
            lry: spec_sext24(c.w1),
            ulx: spec_sext24(c1.w0),
            uly: spec_sext24(c2.w0),
        },
    }
}

/// The pixel corners of a fill rectangle (10.2 values shifted down by 2).
pub open spec fn spec_fillrect_bounds(fmt: GbiDataFormat, c: Cmd, c1: Cmd) -> RectBounds {
    match fmt {
        GbiDataFormat::Fixed => RectBounds {
            lrx: (field(c.w0, 12, 12) as i32) >> 2i32,
            lry: (field(c.w0, 0, 12) as i32) >> 2i32,
            ulx: (field(c.w1, 12, 12) as i32) >> 2i32,
            uly: (field(c.w1, 0, 12) as i32) >> 2i32,
        },
        GbiDataFormat::Float => RectBounds {
            lrx: spec_sext24(c.w0) >> 2i32,
            lry: spec_sext24(c.w1) >> 2i32,
            ulx: spec_sext24(c1.w0) >> 2i32,
            uly: spec_sext24(c1.w1) >> 2i32,
        },
    }
}

fn texrect_bounds(fmt: GbiDataFormat, c: &Cmd, c1: &Cmd, c2: &Cmd) -> (r: RectBounds)
    ensures
        r == spec_texrect_bounds(fmt, *c, *c1, *c2),
{
    match fmt {
        GbiDataFormat::Fixed => RectBounds {
            lrx: c.p0(12, 12) as i32,
            lry: c.p0(0, 12) as i32,
            ulx: c.p1(12, 12) as i32,
            uly: c.p1(0, 12) as i32,
        },
        GbiDataFormat::Float => RectBounds {
            lrx: sext24(c.w0),
            lry: sext24(c.w1),
            ulx: sext24(c1.w0),
            uly: sext24(c2.w0),
        },
    }
}

fn fillrect_bounds(fmt: GbiDataFormat, c: &Cmd, c1: &Cmd) -> (r: RectBounds)
    ensures
        r == spec_fillrect_bounds(fmt, *c, *c1),
{
    match fmt {
        GbiDataFormat::Fixed => RectBounds {
            lrx: (c.p0(12, 12) as i32) >> 2i32,
            lry: (c.p0(0, 12) as i32) >> 2i32,
            ulx: (c.p1(12, 12) as i32) >> 2i32,
            uly: (c.p1(0, 12) as i32) >> 2i32,
        },
        GbiDataFormat::Float => RectBounds {
            lrx: sext24(c.w0) >> 2i32,
            lry: sext24(c.w1) >> 2i32,
            ulx: sext24(c1.w0) >> 2i32,
            uly: sext24(c1.w1) >> 2i32,
        },
    }
}

/// The walk state as values.
pub struct InterpView {
    pub rsp: Rsp,
    pub ucode: GbiUcode,
    pub consts: GbiConstants,
    pub data_format: GbiDataFormat,
    pub walk: crate::interp::WalkState,
    pub rdp: Rdp,
    pub diags: Seq<Diagnostic>,
    pub dropped_runs: u32,
    pub unknown_seen: Seq<bool>,
    pub unsupported_seen: Seq<bool>,
    pub rdphalf_1: Option<u64>,
    pub seen_cimg: bool,
    pub ended: bool,
    pub rejected: bool,
}

impl View for Interp {
    type V = InterpView;

    open spec fn view(&self) -> InterpView {
        InterpView {
            rsp: self.rsp,
            ucode: self.ucode,
            consts: self.consts,
            data_format: self.data_format,
            walk: self.walk.state(),
            rdp: self.rdp,
            diags: self.diags@,
            dropped_runs: self.dropped_runs,
            unknown_seen: self.unknown_seen@,
            unsupported_seen: self.unsupported_seen@,
            rdphalf_1: self.rdphalf_1,
            seen_cimg: self.seen_cimg,
            ended: self.ended,
            rejected: self.rejected,
        }
    }
}

/// `v` with the walk at `pc`.
pub open spec fn at_pc(v: InterpView, pc: u64) -> InterpView {
    InterpView { walk: (pc, v.walk.1, v.walk.2), ..v }
}

/// `v` ended with diagnostic `d` at the current command.
pub open spec fn end_with(v: InterpView, kind: DiagKind) -> InterpView {
    InterpView { diags: v.diags.push(Diagnostic { at: v.walk.0, kind }), ended: true, ..v }
}

/// `v` with one more dropped draw run (wrapping like the 32-bit counter).
pub open spec fn drop_run(v: InterpView) -> InterpView {
    InterpView { dropped_runs: vstd::wrapping::u32_specs::wrapping_add(v.dropped_runs, 1), ..v }
}

/// The control decision for command `c` at the walk's position, and the diagnostic it
/// raises: a display-list command goes to its resolved address; F3DEX2's CULLDL and BRANCH_Z
/// go by `cond`, the geometry state's answer (an error aborts the walk with it), and
/// BRANCH_Z needs an RDPHALF_1 target; a microcode load aborts.
pub open spec fn spec_decision(v: InterpView, mem: RdramImage, c: Cmd, cond: Result<bool, DiagKind>) -> (Control, Option<DiagKind>) {
    let op = (c.w0 >> 24u32) as u8;
    let f3dex2 = v.ucode == GbiUcode::F3dex2;
    if op == v.consts.g_dl {
        (spec_control(v.ucode, v.consts, c, mem.spec_resolve_masked(c.w1_addr), Option::None), Option::None)
    } else if f3dex2 && op == G_CULLDL {
        match cond {
            Ok(b) => (spec_control(v.ucode, v.consts, c, 0, Option::Some(b)), Option::None),
            Err(k) => (Control::Abort, Option::Some(k)),
        }
    } else if f3dex2 && op == G_BRANCH_Z {
        match v.rdphalf_1 {
            Option::None => (Control::Abort, Option::Some(DiagKind::MissingBranchTarget)),
            Option::Some(t) => match cond {
                Ok(b) => (spec_control(v.ucode, v.consts, c, mem.spec_resolve_masked(t), Option::Some(b)), Option::None),
                Err(k) => (Control::Abort, Option::Some(k)),
            },
        }
    } else if f3dex2 && op == G_LOAD_UCODE {
        (
            Control::Abort,
            Option::Some(DiagKind::UnsupportedMicrocodeLoad { w0: c.w0, w1: c.w1_addr, data_address: v.rdphalf_1 }),
        )
    } else {
        (spec_control(v.ucode, v.consts, c, 0, Option::None), Option::None)
    }
}

/// After a dispatch: the walk ends, rejected, when the latest diagnostic rejects it;
/// otherwise it moves to the next command.
pub open spec fn after_dispatch(v: InterpView) -> (InterpView, StepAction) {
    if v.diags.len() > 0 && spec_rejects(v.diags.last()) {
        (InterpView { ended: true, rejected: true, ..v }, StepAction::Ended)
    } else if v.walk.0 + 8 <= u64::MAX {
        (at_pc(v, (v.walk.0 + 8) as u64), StepAction::Next)
    } else {
        (InterpView { ended: true, ..v }, StepAction::Ended)
    }
}

/// The diagnostics and seen-sets after the RDP table answered `out` for opcode `op`: an
/// opcode without a handler is reported once, a stray RDPHALF word, unreadable texture
/// memory and unsupported parameters each once per command.
pub open spec fn after_rdp(v: InterpView, op: u8, out: RdpOutcome) -> InterpView {
    let d = |k: DiagKind| Diagnostic { at: v.walk.0, kind: k };
    match out {
        RdpOutcome::NotRdp => if v.unknown_seen[op as int] {
            v
        } else {
            InterpView {
                diags: v.diags.push(d(DiagKind::UnknownOpcode(op))),
                unknown_seen: v.unknown_seen.update(op as int, true),
                ..v
            }
        },
        RdpOutcome::StrayRdphalf => InterpView { diags: v.diags.push(d(DiagKind::StrayRdphalf)), ..v },
        RdpOutcome::MemoryUnavailable => InterpView {
            diags: v.diags.push(d(DiagKind::TextureMemoryUnavailable { opcode: op })),
            ..v
        },
        RdpOutcome::UnsupportedParameters => InterpView {
            diags: v.diags.push(d(DiagKind::UnsupportedCommandParameters { opcode: op })),
            ..v
        },
        _ => v,
    }
}

/// An unsupported F3DEX2 command: LINE3D drops its draw run; each opcode is reported once.
pub open spec fn after_unsupported(v: InterpView, c: Cmd) -> InterpView {
    let op = (c.w0 >> 24u32) as u8;
    let v1 = if op == G_LINE3D { drop_run(v) } else { v };
    if v1.unsupported_seen[op as int] {
        v1
    } else {
        InterpView {
            diags: v1.diags.push(
                Diagnostic { at: v1.walk.0, kind: DiagKind::UnsupportedCommand { opcode: op, w0: c.w0, w1: c.w1_addr } },
            ),
            unsupported_seen: v1.unsupported_seen.update(op as int, true),
            ..v1
        }
    }
}


/// A textured rectangle at the walk's position (see `step_post`): truncated continuation
/// words end the walk, a rectangle before the first color image is dropped, any other is
/// handed to the caller; the walk moves past all three words.
pub open spec fn texrect_post(v2: InterpView, mem: RdramImage, c: Cmd, new: InterpView, r: StepAction) -> bool {
    let pc = v2.walk.0;
    let op = (c.w0 >> 24u32) as u8;
    if pc + 24 > mem.bytes@.len() {
        new == end_with(drop_run(v2), DiagKind::TruncatedRect { fill: false }) && r == StepAction::Ended
    } else if !v2.seen_cimg {
        new == at_pc(
            InterpView { diags: v2.diags.push(Diagnostic { at: pc, kind: DiagKind::DrawBeforeCimg }), ..drop_run(v2) },
            (pc + 24) as u64,
        ) && r == StepAction::Next
    } else {
        let c1 = cmd_at(mem, pc + 8);
        let c2 = cmd_at(mem, pc + 16);
        new == at_pc(v2, (pc + 24) as u64) && r == StepAction::TexRect {
            at: pc,
            cmd: c,
            cmd1: c1,
            cmd2: c2,
            rect: spec_texrect_bounds(v2.data_format, c, c1, c2),
            tile: field(c.w1, 24, 3) as u8,
            flip: op == G_TEXRECTFLIP,
        }
    }
}

/// A fill rectangle at the walk's position: one command word in the fixed layout, two in
/// the float layout; otherwise as `texrect_post`.
pub open spec fn fillrect_post(v2: InterpView, mem: RdramImage, c: Cmd, new: InterpView, r: StepAction) -> bool {
    let pc = v2.walk.0;
    let words: int = if v2.data_format == GbiDataFormat::Fixed { 1 } else { 2 };
    if pc + 8 * words > mem.bytes@.len() {
        new == end_with(drop_run(v2), DiagKind::TruncatedRect { fill: true }) && r == StepAction::Ended
    } else if !v2.seen_cimg {
        new == at_pc(
            InterpView { diags: v2.diags.push(Diagnostic { at: pc, kind: DiagKind::DrawBeforeCimg }), ..drop_run(v2) },
            (pc + 8 * words) as u64,
        ) && r == StepAction::Next
    } else {
        new == at_pc(v2, (pc + 8 * words) as u64) && r == StepAction::FillRect {
            rect: spec_fillrect_bounds(v2.data_format, c, cmd_at(mem, pc + 8)),
        }
    }
}

/// A command for the handler tables: F3DEX2's unsupported commands are reported, the
/// microcode's RSP commands go to the caller, everything else runs on the RDP; then the
/// rejection check (see `after_dispatch`).
pub open spec fn table_post(v2: InterpView, mem: RdramImage, c: Cmd, new: InterpView, r: StepAction) -> bool {
    let op = (c.w0 >> 24u32) as u8;
    if v2.ucode == GbiUcode::F3dex2 && spec_unsupported(op) {
        (new, r) == after_dispatch(after_unsupported(v2, c))
    } else if spec_rsp_handled(v2.ucode, op) {
        new == v2 && r == StepAction::Rsp(c)
    } else {
        exists|out: RdpOutcome| #[trigger] execute_rdp_post(c, v2.rdp, new.rdp, mem, out) && (new, r)
            == after_dispatch(after_rdp(InterpView { rdp: new.rdp, ..v2 }, op, out))
    }
}
/// What a step does to the walk state `v` over memory `mem`, given the geometry state's
/// answer `cond` to a conditional command: `new` and `r` are its outcome.
pub open spec fn step_post(v: InterpView, new: InterpView, mem: RdramImage, cond: Result<bool, DiagKind>, r: StepAction) -> bool {
    let (pc, stack, n) = v.walk;
    let len = mem.bytes@.len();
    if v.ended {
        new == v && r == StepAction::Ended
    } else if n >= DISPATCH_CAP {
        new == end_with(v, DiagKind::RunawayDl { cap: DISPATCH_CAP }) && r == StepAction::Ended
    } else if pc + 8 > len {
        new == end_with(v, DiagKind::DlPastRdram) && r == StepAction::Ended
    } else {
        let c = cmd_at(mem, pc as int);
        let op = (c.w0 >> 24u32) as u8;
        let f3dex2 = v.ucode == GbiUcode::F3dex2;
        let (control, diag) = spec_decision(v, mem, c, cond);
        let v1 = InterpView {
            walk: (pc, stack, (n + 1) as u64),
            diags: match diag {
                Option::Some(k) => v.diags.push(Diagnostic { at: pc, kind: k }),
                Option::None => v.diags,
            },
            ..v
        };
        if control != Control::Continue {
            let (w2, e) = spec_apply(v1.walk, control, 8);
            if e is Some {
                new == InterpView {
                    walk: w2,
                    ended: true,
                    rejected: v.rejected || control == Control::Abort,
                    ..v1
                } && r == StepAction::Ended
            } else {
                new == InterpView { walk: w2, ..v1 } && r == StepAction::Next
            }
        } else if f3dex2 && op == G_RDPHALF_1 {
            new == at_pc(InterpView { rdphalf_1: Option::Some(c.w1_addr), ..v1 }, (pc + 8) as u64)
                && r == StepAction::Next
        } else if f3dex2 && (op == G_CULLDL || op == G_BRANCH_Z) {
            new == at_pc(v1, (pc + 8) as u64) && r == StepAction::Next
        } else {
            let v2 = InterpView { seen_cimg: v.seen_cimg || op == G_SETCIMG, ..v1 };
            if op == G_TEXRECT || op == G_TEXRECTFLIP {
                texrect_post(v2, mem, c, new, r)
            } else if op == G_FILLRECT {
                fillrect_post(v2, mem, c, new, r)
            } else {
                table_post(v2, mem, c, new, r)
            }
        }
    }
}

/// What a finished walk reports.
#[derive(Debug)]
pub struct WalkOutcome {
    /// Commands dispatched.
    pub commands: u32,
    pub diags: Vec<Diagnostic>,
    /// RDP state after the walk.
    pub rdp: Rdp,
    /// Geometry mode after the walk.
    pub geometry_mode: u32,
    /// Draw runs discarded during the walk.
    pub dropped_runs: u32,
    /// Whether the walk was rejected.
    pub rejected: bool,
}

impl Interp {
    /// A walk of a display list at `entry` under microcode `ucode` with data layout
    /// `data_format`, from the power-on RSP and RDP state.
    pub fn new(entry: u64, ucode: GbiUcode, data_format: GbiDataFormat) -> (r: Self)
        ensures
            r@.walk == (entry, Seq::<u64>::empty(), 0u64),
            r@.ucode == ucode,
            r@.consts == ucode.spec_constants(),
            r@.data_format == data_format,
            r@.rsp == crate::rsp::spec_rsp_new(ucode.spec_constants(), data_format),
            r@.rdp == Rdp::spec_default(r.rdp.tmem),
            r.rdp.tmem@.len() == 0,
            r@.diags.len() == 0,
            r@.dropped_runs == 0,
            r@.unknown_seen == Seq::new(256, |i: int| false),
            r@.unsupported_seen == Seq::new(256, |i: int| false),
            r@.rdphalf_1 is None,
            !r@.seen_cimg,
            !r@.ended,
            !r@.rejected,
    {
        let consts = ucode.constants();
        let r = Interp {
            rsp: Rsp::new(consts, data_format),
            ucode,
            consts,
            data_format,
            walk: DlWalk::new(entry),
            rdp: Rdp::default(),
            diags: Vec::new(),
            dropped_runs: 0,
            unknown_seen: [false; 256],
            unsupported_seen: [false; 256],
            rdphalf_1: None,
            seen_cimg: false,
            ended: false,
            rejected: false,
        };
        assert(r.unknown_seen@ =~= Seq::new(256, |i: int| false));
        assert(r.unsupported_seen@ =~= Seq::new(256, |i: int| false));
        r
    }

    fn push_diag(&mut self, kind: DiagKind)
        ensures
            final(self)@ == (InterpView {
                diags: old(self)@.diags.push(Diagnostic { at: old(self)@.walk.0, kind }),
                ..old(self)@
            }),
    {
        let at = self.walk.pc;
        self.diags.push(Diagnostic { at, kind });
    }

    fn end_with(&mut self, kind: DiagKind)
        ensures
            final(self)@ == end_with(old(self)@, kind),
    {
        self.push_diag(kind);
        self.ended = true;
    }

    fn drop_run(&mut self)
        ensures
            final(self)@ == drop_run(old(self)@),
    {
        self.dropped_runs = self.dropped_runs.wrapping_add(1);
    }

    fn move_to(&mut self, pc: u64)
        ensures
            final(self)@ == at_pc(old(self)@, pc),
    {
        self.walk.pc = pc;
    }

    /// The rejection check after a dispatch (see `after_dispatch`).
    pub fn finish_dispatch(&mut self) -> (r: StepAction)
        ensures
            (final(self)@, r) == after_dispatch(old(self)@),
    {
        let n = self.diags.len();
        if n > 0 && rejects(&self.diags[n - 1]) {
            self.ended = true;
            self.rejected = true;
            return StepAction::Ended;
        }
        match self.walk.pc.checked_add(8) {
            Some(p) => {
                self.move_to(p);
                StepAction::Next
            },
            None => {
                self.ended = true;
                StepAction::Ended
            },
        }
    }

    /// What the walk reports when it is over.
    pub fn outcome(self) -> (r: WalkOutcome)
        ensures
            r.commands == self.walk.dispatched as u32,
            r.diags@ == self@.diags,
            r.rdp == self.rdp,
            r.geometry_mode == self.rsp.geom,
            r.dropped_runs == self.dropped_runs,
            r.rejected == self.rejected,
    {
        WalkOutcome {
            commands: self.walk.dispatched as u32,
            geometry_mode: self.rsp.geometry_mode(),
            diags: self.diags,
            rdp: self.rdp,
            dropped_runs: self.dropped_runs,
            rejected: self.rejected,
        }
    }

    /// The control decision for `c` (see `spec_decision`).
    fn decision(&self, mem: &RdramImage, c: &Cmd, cond: Result<bool, DiagKind>) -> (r: (Control, Option<DiagKind>))
        ensures
            r == spec_decision(self@, *mem, *c, cond),
    {
        let op = c.opcode();
        let f3dex2 = match self.ucode {
            GbiUcode::F3dex2 => true,
            GbiUcode::F3d => false,
        };
        if op == self.consts.g_dl {
            (decide_control(self.ucode, &self.consts, c, mem.resolve_masked(c.w1_addr), None), None)
        } else if f3dex2 && op == G_CULLDL {
            match cond {
                Ok(b) => (decide_control(self.ucode, &self.consts, c, 0, Some(b)), None),
                Err(k) => (Control::Abort, Some(k)),
            }
        } else if f3dex2 && op == G_BRANCH_Z {
            match self.rdphalf_1 {
                None => (Control::Abort, Some(DiagKind::MissingBranchTarget)),
                Some(t) => match cond {
                    Ok(b) => (decide_control(self.ucode, &self.consts, c, mem.resolve_masked(t), Some(b)), None),
                    Err(k) => (Control::Abort, Some(k)),
                },
            }
        } else if f3dex2 && op == G_LOAD_UCODE {
            (
                Control::Abort,
                Some(DiagKind::UnsupportedMicrocodeLoad { w0: c.w0, w1: c.w1_addr, data_address: self.rdphalf_1 }),
            )
        } else {
            (decide_control(self.ucode, &self.consts, c, 0, None), None)
        }
    }

    /// One walk step over `mem` (see `step_post`). `cond` is the geometry state's answer to
    /// the conditional command at the walk's position, if it is one (culled for CULLDL,
    /// depth test passed for BRANCH_Z).
    #[verifier::spinoff_prover]
    pub fn step(&mut self, mem: &RdramImage, cond: Result<bool, DiagKind>) -> (r: StepAction)
        requires
            old(self).rdp.tex_image.1 <= 4,
        ensures
            step_post(old(self)@, final(self)@, *mem, cond, r),
            final(self).rdp.tex_image.1 <= 4,
    {
        if self.ended {
            return StepAction::Ended;
        }
        let pc = self.walk.pc;
        if self.walk.dispatched >= DISPATCH_CAP {
            self.end_with(DiagKind::RunawayDl { cap: DISPATCH_CAP });
            return StepAction::Ended;
        }
        if !mem.in_bounds(pc, 8) {
            self.end_with(DiagKind::DlPastRdram);
            return StepAction::Ended;
        }
        let len = mem.bytes.len();
        assert(len as int == mem.bytes@.len() && pc + 8 <= len);
        self.walk.enter(true);
        let command = mem.read_command(pc);
        let c = Cmd { w0: command.w0, w1: command.w1, w1_addr: command.w1_addr };
        assert(c == cmd_at(*mem, pc as int));
        let op = c.opcode();
        let f3dex2 = match self.ucode {
            GbiUcode::F3dex2 => true,
            GbiUcode::F3d => false,
        };
        let (control, diag) = self.decision(mem, &c, cond);
        match diag {
            Some(k) => self.push_diag(k),
            None => {},
        }
        match control {
            Control::Continue => {},
            _ => {
                assert(self.walk.pc == pc);
                let e = self.walk.apply(control, 8);
                if e.is_some() {
                    self.ended = true;
                    if control == Control::Abort {
                        self.rejected = true;
                    }
                    return StepAction::Ended;
                }
                return StepAction::Next;
            },
        }
        if f3dex2 && op == crate::consts::G_RDPHALF_1 {
            self.rdphalf_1 = Some(c.w1_addr);
            self.move_to(pc + 8);
            return StepAction::Next;
        }
        if f3dex2 && (op == G_CULLDL || op == G_BRANCH_Z) {
            self.move_to(pc + 8);
            return StepAction::Next;
        }
        if op == G_SETCIMG {
            self.seen_cimg = true;
        }
        if op == G_TEXRECT || op == G_TEXRECTFLIP {
            return self.step_texrect(mem, &c);
        }
        if op == G_FILLRECT {
            return self.step_fillrect(mem, &c);
        }
        self.step_table(mem, &c)
    }

    #[verifier::spinoff_prover]
    fn step_texrect(&mut self, mem: &RdramImage, c: &Cmd) -> (r: StepAction)
        requires
            old(self).walk.pc + 8 <= mem.bytes@.len(),
        ensures
            texrect_post(old(self)@, *mem, *c, final(self)@, r),
    {
        let pc = self.walk.pc;
        let op = c.opcode();
        let len = mem.bytes.len();
        assert(len as int == mem.bytes@.len());
        if !mem.in_bounds(pc + 8, 8) || !mem.in_bounds(pc + 16, 8) {
            self.drop_run();
            self.end_with(DiagKind::TruncatedRect { fill: false });
            return StepAction::Ended;
        }
        let k1 = mem.read_command(pc + 8);
        let k2 = mem.read_command(pc + 16);
        let c1 = Cmd { w0: k1.w0, w1: k1.w1, w1_addr: k1.w1_addr };
        let c2 = Cmd { w0: k2.w0, w1: k2.w1, w1_addr: k2.w1_addr };
        assert(c1 == cmd_at(*mem, pc + 8));
        assert(c2 == cmd_at(*mem, pc + 16));
        if !self.seen_cimg {
            self.drop_run();
            self.push_diag(DiagKind::DrawBeforeCimg);
            self.move_to(pc + 24);
            return StepAction::Next;
        }
        let rect = texrect_bounds(self.data_format, c, &c1, &c2);
        self.move_to(pc + 24);
        StepAction::TexRect { at: pc, cmd: *c, cmd1: c1, cmd2: c2, rect, tile: c.p1(24, 3) as u8, flip: op == G_TEXRECTFLIP }
    }

    #[verifier::spinoff_prover]
    fn step_fillrect(&mut self, mem: &RdramImage, c: &Cmd) -> (r: StepAction)
        requires
            old(self).walk.pc + 8 <= mem.bytes@.len(),
        ensures
            fillrect_post(old(self)@, *mem, *c, final(self)@, r),
    {
        let pc = self.walk.pc;
        let len = mem.bytes.len();
        assert(len as int == mem.bytes@.len());
        let words: u64 = match self.data_format {
            GbiDataFormat::Fixed => 1,
            GbiDataFormat::Float => 2,
        };
        if !mem.in_bounds(pc, 8 * words) {
            self.drop_run();
            self.end_with(DiagKind::TruncatedRect { fill: true });
            return StepAction::Ended;
        }
        if !self.seen_cimg {
            self.drop_run();
            self.push_diag(DiagKind::DrawBeforeCimg);
            self.move_to(pc + 8 * words);
            return StepAction::Next;
        }
        let c1 = if words == 2 {
            let k1 = mem.read_command(pc + 8);
            let c1 = Cmd { w0: k1.w0, w1: k1.w1, w1_addr: k1.w1_addr };
            assert(c1 == cmd_at(*mem, pc + 8));
            c1
        } else {
            *c
        };
        let rect = fillrect_bounds(self.data_format, c, &c1);
        self.move_to(pc + 8 * words);
        StepAction::FillRect { rect }
    }

    #[verifier::spinoff_prover]
    fn step_table(&mut self, mem: &RdramImage, c: &Cmd) -> (r: StepAction)
        requires
            old(self).rdp.tex_image.1 <= 4,
        ensures
            table_post(old(self)@, *mem, *c, final(self)@, r),
    {
        let op = c.opcode();
        let f3dex2 = match self.ucode {
            GbiUcode::F3dex2 => true,
            GbiUcode::F3d => false,
        };
        if f3dex2 && (op == G_LINE3D || op == G_DMA_IO || op == G_SPECIAL_1 || op == G_SPECIAL_2 || op == G_SPECIAL_3) {
            if op == G_LINE3D {
                self.drop_run();
            }
            if !self.unsupported_seen[op as usize] {
                self.push_diag(DiagKind::UnsupportedCommand { opcode: op, w0: c.w0, w1: c.w1_addr });
                self.unsupported_seen[op as usize] = true;
            }
            return self.finish_dispatch();
        }
        if rsp_handled(self.ucode, op) {
            return StepAction::Rsp(*c);
        }
        let out = execute_rdp(c, &mut self.rdp, mem);
        match out {
            RdpOutcome::NotRdp => {
                if !self.unknown_seen[op as usize] {
                    self.push_diag(DiagKind::UnknownOpcode(op));
                    self.unknown_seen[op as usize] = true;
                }
            },
            RdpOutcome::StrayRdphalf => self.push_diag(DiagKind::StrayRdphalf),
            RdpOutcome::MemoryUnavailable => self.push_diag(DiagKind::TextureMemoryUnavailable { opcode: op }),
            RdpOutcome::UnsupportedParameters => self.push_diag(
                DiagKind::UnsupportedCommandParameters { opcode: op },
            ),
            _ => {},
        }
        self.finish_dispatch()
    }
}

fn rejects(d: &Diagnostic) -> (r: bool)
    ensures
        r == spec_rejects(*d),
{
    match d.kind {
        DiagKind::DlPastRdram => true,
        DiagKind::UnhandledMovemem(_) => true,
        DiagKind::UnhandledMoveword(_) => true,
        DiagKind::UnsupportedCommand { opcode, .. } => 0xd3 <= opcode && opcode <= 0xd5,
        _ => false,
    }
}


/// The geometry commands that only change integer state, which `Interp::dispatch_state`
/// runs. F3DEX2: G_GEOMETRYMODE, G_TEXTURE, the two SETOTHERMODE halves, G_SETTIMG,
/// G_MOVEWORD and G_SPNOOP. F3D: the two geometry-mode commands, G_TEXTURE, the two
/// SETOTHERMODE halves, G_SETTIMG, G_MOVEWORD but for its vertex-point and light-color
/// words, and the commands it ignores.
pub open spec fn spec_state_command(ucode: GbiUcode, c: Cmd) -> bool {
    let op = (c.w0 >> 24u32) as u8;
    match ucode {
        GbiUcode::F3dex2 => op == G_GEOMETRYMODE || op == G_TEXTURE || op == G_SETOTHERMODE_H
            || op == G_SETOTHERMODE_L || op == G_SETTIMG || op == G_MOVEWORD || op == G_SPNOOP,
        GbiUcode::F3d => op == rsp_f3d::G_SETGEOMETRYMODE || op == rsp_f3d::G_CLEARGEOMETRYMODE || op
            == rsp_f3d::G_TEXTURE || op == rsp_f3d::G_SETOTHERMODE_H || op == rsp_f3d::G_SETOTHERMODE_L
            || op == G_SETTIMG || (op == rsp_f3d::G_MOVEWORD && field(c.w0, 0, 8) != rsp_f3d::G_MW_POINTS as u32
            && field(c.w0, 0, 8) != rsp_f3d::G_MW_LIGHTCOL as u32) || spec_f3d_ignored(op),
    }
}

/// The F3D commands with no effect on the geometry state (the walk itself follows the
/// display-list ones).
pub open spec fn spec_f3d_ignored(op: u8) -> bool {
    op == rsp_f3d::G_SPNOOP || op == rsp_f3d::G_DL || op == rsp_f3d::G_SPRITE2D_BASE || op
        == rsp_f3d::G_RDPHALF_2 || op == rsp_f3d::G_RDPHALF_1 || op == rsp_f3d::G_ENDDL || op
        == rsp_f3d::G_CULLDL || op == rsp_f3d::G_RDPNOOP
}

/// What an F3D state command does to the walk state and the segment table: the geometry
/// mode is set or cleared by `w1`; G_TEXTURE's switch is its whole low byte; SETOTHERMODE
/// takes the raw shift and length; G_MOVEWORD stores a segment base (index at bit 10), sets
/// the light count from `w1 = 0x80000000 + 32 * (n + 1)`, sets the fog factors, ignores the
/// matrix, clip and perspective words, and reports any other index.
pub open spec fn spec_state_dispatch_f3d(v: InterpView, mem: RdramImage, c: Cmd) -> (InterpView, Seq<u32>) {
    let op = (c.w0 >> 24u32) as u8;
    let segs = mem.segments@;
    if op == rsp_f3d::G_SETGEOMETRYMODE {
        (InterpView { rsp: spec_geometry_mode(v.rsp, u32::MAX, c.w1), ..v }, segs)
    } else if op == rsp_f3d::G_CLEARGEOMETRYMODE {
        (InterpView { rsp: spec_geometry_mode(v.rsp, !c.w1, 0), ..v }, segs)
    } else if op == rsp_f3d::G_TEXTURE {
        let ts = crate::rsp::TextureState {
            tile: field(c.w0, 8, 3) as u8,
            level: field(c.w0, 11, 3) as u8,
            on: field(c.w0, 0, 8) != 0,
            sc: (c.w1 >> 16u32) as u16,
            tc: (c.w1 & 0xffffu32) as u16,
        };
        (InterpView { rsp: Rsp { texture_state: ts, ..v.rsp }, ..v }, segs)
    } else if op == rsp_f3d::G_SETOTHERMODE_H {
        let h = crate::rsp::spec_other_mode_update(v.rdp.other_mode_h, field(c.w0, 8, 8), field(c.w0, 0, 8), c.w1);
        (InterpView { rdp: Rdp { other_mode_h: h, ..v.rdp }, ..v }, segs)
    } else if op == rsp_f3d::G_SETOTHERMODE_L {
        let l = crate::rsp::spec_other_mode_update(v.rdp.other_mode_l, field(c.w0, 8, 8), field(c.w0, 0, 8), c.w1);
        (InterpView { rdp: Rdp { other_mode_l: l, ..v.rdp }, ..v }, segs)
    } else if op == G_SETTIMG {
        let img = (
            field(c.w0, 21, 3) as u8,
            field(c.w0, 19, 2) as u8,
            (c.w0 & 0xfffu32) as u16,
            mem.spec_from_segmented(c.w1_addr as u32) as u64,
        );
        (InterpView { rdp: Rdp { tex_image: img, ..v.rdp }, ..v }, segs)
    } else if op == rsp_f3d::G_MOVEWORD {
        let ty = field(c.w0, 0, 8);
        if ty == rsp_f3d::G_MW_MATRIX as u32 || ty == rsp_f3d::G_MW_CLIP as u32 || ty == rsp_f3d::G_MW_PERSPNORM as u32 {
            (v, segs)
        } else if ty == rsp_f3d::G_MW_NUMLIGHT as u32 {
            let n = vstd::wrapping::u32_specs::wrapping_sub(
                vstd::wrapping::u32_specs::wrapping_sub(c.w1, 0x8000_0000u32) >> 5u32,
                1,
            );
            let rsp = Rsp {
                num_dir: if n < crate::rsp::RSP_MAX_LIGHTS { n } else { crate::rsp::RSP_MAX_LIGHTS },
                light_version: vstd::wrapping::u64_specs::wrapping_add(v.rsp.light_version, 1),
                ..v.rsp
            };
            (InterpView { rsp, ..v }, segs)
        } else if ty == rsp_f3d::G_MW_SEGMENT as u32 {
            (v, segs.update((field(c.w0, 10, 4) & 0xfu32) as int, c.w1))
        } else if ty == rsp_f3d::G_MW_FOG as u32 {
            let rdp = Rdp { fog_mul: (c.w1 >> 16u32) as i16, fog_offset: (c.w1 & 0xffffu32) as i16, ..v.rdp };
            (InterpView { rdp, ..v }, segs)
        } else {
            (
                InterpView {
                    diags: v.diags.push(Diagnostic { at: v.walk.0, kind: DiagKind::UnhandledMoveword(ty as u8) }),
                    ..v
                },
                segs,
            )
        }
    } else {
        (v, segs)
    }
}

/// G_GEOMETRYMODE on `rsp`: `geom = (geom & off) | on`; a change of the lighting bit bumps
/// `light_version`.
pub open spec fn spec_geometry_mode(rsp: Rsp, off: u32, on: u32) -> Rsp {
    let g = (rsp.geom & off) | on;
    Rsp {
        geom: g,
        light_version: if (rsp.geom ^ g) & rsp.consts.g_lighting != 0 {
            vstd::wrapping::u64_specs::wrapping_add(rsp.light_version, 1)
        } else {
            rsp.light_version
        },
        ..rsp
    }
}

/// A SETOTHERMODE half-word write as F3DEX2 encodes it: `len + 1` bits ending `shift` bits
/// below the top; an encoding whose field would run past bit 0 changes nothing.
pub open spec fn spec_other_mode_write(word: u32, shift: u32, len: u32, data: u32) -> u32 {
    if shift + len + 1 <= 32 {
        crate::rsp::spec_other_mode_update(word, (32 - shift - len - 1) as u32, (len + 1) as u32, data)
    } else {
        word
    }
}

/// What a state command does to the walk state and the segment table (see
/// `spec_state_command`; F3D's are in `spec_state_dispatch_f3d`). F3DEX2's G_MOVEWORD stores a segment base, sets the light count or the fog
/// factors, ignores the perspective-normalization and clip words, and reports any other
/// index; every other command leaves both alone.
pub open spec fn spec_state_dispatch(v: InterpView, mem: RdramImage, c: Cmd) -> (InterpView, Seq<u32>) {
    let op = (c.w0 >> 24u32) as u8;
    let segs = mem.segments@;
    if !spec_state_command(v.ucode, c) {
        (v, segs)
    } else if v.ucode == GbiUcode::F3d {
        spec_state_dispatch_f3d(v, mem, c)
    } else if op == G_GEOMETRYMODE {
        (InterpView { rsp: spec_geometry_mode(v.rsp, field(c.w0, 0, 24), c.w1), ..v }, segs)
    } else if op == G_TEXTURE {
        let ts = crate::rsp::TextureState {
            tile: field(c.w0, 8, 3) as u8,
            level: field(c.w0, 11, 3) as u8,
            on: field(c.w0, 1, 1) != 0,
            sc: (c.w1 >> 16u32) as u16,
            tc: (c.w1 & 0xffffu32) as u16,
        };
        (InterpView { rsp: Rsp { texture_state: ts, ..v.rsp }, ..v }, segs)
    } else if op == G_SETOTHERMODE_H {
        let h = spec_other_mode_write(v.rdp.other_mode_h, field(c.w0, 8, 8), field(c.w0, 0, 8), c.w1);
        (InterpView { rdp: Rdp { other_mode_h: h, ..v.rdp }, ..v }, segs)
    } else if op == G_SETOTHERMODE_L {
        let l = spec_other_mode_write(v.rdp.other_mode_l, field(c.w0, 8, 8), field(c.w0, 0, 8), c.w1);
        (InterpView { rdp: Rdp { other_mode_l: l, ..v.rdp }, ..v }, segs)
    } else if op == G_SETTIMG {
        let img = (
            field(c.w0, 21, 3) as u8,
            field(c.w0, 19, 2) as u8,
            (c.w0 & 0xfffu32) as u16,
            mem.spec_from_segmented(c.w1_addr as u32) as u64,
        );
        (InterpView { rdp: Rdp { tex_image: img, ..v.rdp }, ..v }, segs)
    } else if op == G_MOVEWORD {
        let ty = field(c.w0, 16, 8);
        if ty == v.consts.g_mw_segment as u32 {
            (v, segs.update((field(c.w0, 2, 4) & 0xfu32) as int, c.w1))
        } else if ty == v.consts.g_mw_perspnorm as u32 || ty == v.consts.g_mw_clip as u32 {
            (v, segs)
        } else if ty == v.consts.g_mw_numlight as u32 {
            let rsp = Rsp {
                num_dir: if c.w1 / 24 < crate::rsp::RSP_MAX_LIGHTS { c.w1 / 24 } else { crate::rsp::RSP_MAX_LIGHTS },
                light_version: vstd::wrapping::u64_specs::wrapping_add(v.rsp.light_version, 1),
                ..v.rsp
            };
            (InterpView { rsp, ..v }, segs)
        } else if ty == v.consts.g_mw_fog as u32 {
            let rdp = Rdp { fog_mul: (c.w1 >> 16u32) as i16, fog_offset: (c.w1 & 0xffffu32) as i16, ..v.rdp };
            (InterpView { rdp, ..v }, segs)
        } else {
            (
                InterpView {
                    diags: v.diags.push(Diagnostic { at: v.walk.0, kind: DiagKind::UnhandledMoveword(ty as u8) }),
                    ..v
                },
                segs,
            )
        }
    } else {
        (v, segs)
    }
}

impl Interp {
    /// Runs a state command (see `spec_state_dispatch`) and says whether `c` was one;
    /// after it, as after any geometry command, the caller calls `finish_dispatch`.
    #[verifier::spinoff_prover]
    #[verifier::rlimit(80)]
    pub fn dispatch_state(&mut self, mem: &mut RdramImage, c: &Cmd) -> (r: bool)
        ensures
            r == spec_state_command(old(self)@.ucode, *c),
            (final(self)@, final(mem).segments@) == spec_state_dispatch(old(self)@, *old(mem), *c),
            final(mem).bytes@ == old(mem).bytes@,
            old(self).rdp.tex_image.1 <= 4 ==> final(self).rdp.tex_image.1 <= 4,
    {
        let op = (c.w0 >> 24) as u8;
        if self.ucode != GbiUcode::F3dex2 {
            return self.dispatch_state_f3d(mem, c);
        }
        if op == G_GEOMETRYMODE {
            let off = c.p0(0, 24);
            self.rsp.modify_geometry_mode(off, c.w1);
        } else if op == G_TEXTURE {
            let on = c.p0(1, 1) != 0;
            let tile = c.p0(8, 3) as u8;
            let level = c.p0(11, 3) as u8;
            self.rsp.set_texture(tile, level, on, (c.w1 >> 16) as u16, (c.w1 & 0xffff) as u16);
        } else if op == G_SETOTHERMODE_H || op == G_SETOTHERMODE_L {
            let shift = c.p0(8, 8);
            let len = c.p0(0, 8);
            if shift + len + 1 <= 32 {
                if op == G_SETOTHERMODE_H {
                    self.rsp.set_other_mode_h(shift, len, c.w1, &mut self.rdp);
                } else {
                    self.rsp.set_other_mode_l(shift, len, c.w1, &mut self.rdp);
                }
            }
        } else if op == G_SETTIMG {
            let fmt = c.p0(21, 3) as u8;
            let siz = c.p0(19, 2) as u8;
            let addr = mem.resolve(c.w1_addr);
            self.rsp.set_texture_image(fmt, siz, (c.w0 & 0xfff) as u16, addr, &mut self.rdp);
        } else if op == G_MOVEWORD {
            let ty = c.p0(16, 8);
            if ty == self.consts.g_mw_segment as u32 {
                let seg = c.p0(2, 4);
                mem.set_segment(seg, c.w1);
            } else if ty == self.consts.g_mw_perspnorm as u32 || ty == self.consts.g_mw_clip as u32 {
            } else if ty == self.consts.g_mw_numlight as u32 {
                self.rsp.set_num_lights(c.w1);
            } else if ty == self.consts.g_mw_fog as u32 {
                self.rdp.fog_mul = (c.w1 >> 16) as i16;
                self.rdp.fog_offset = (c.w1 & 0xffff) as i16;
            } else {
                let at = self.walk.pc;
                self.diags.push(Diagnostic { at, kind: DiagKind::UnhandledMoveword(ty as u8) });
            }
        } else if op != G_SPNOOP {
            return false;
        }
        true
    }

    #[verifier::spinoff_prover]
    #[verifier::rlimit(80)]
    fn dispatch_state_f3d(&mut self, mem: &mut RdramImage, c: &Cmd) -> (r: bool)
        requires
            old(self).ucode == GbiUcode::F3d,
        ensures
            r == spec_state_command(old(self)@.ucode, *c),
            (final(self)@, final(mem).segments@) == (if r {
                spec_state_dispatch_f3d(old(self)@, *old(mem), *c)
            } else {
                (old(self)@, old(mem).segments@)
            }),
            final(mem).bytes@ == old(mem).bytes@,
            old(self).rdp.tex_image.1 <= 4 ==> final(self).rdp.tex_image.1 <= 4,
    {
        let op = (c.w0 >> 24) as u8;
        if op == rsp_f3d::G_SETGEOMETRYMODE {
            self.rsp.modify_geometry_mode(u32::MAX, c.w1);
        } else if op == rsp_f3d::G_CLEARGEOMETRYMODE {
            self.rsp.modify_geometry_mode(!c.w1, 0);
        } else if op == rsp_f3d::G_TEXTURE {
            let tile = c.p0(8, 3) as u8;
            let level = c.p0(11, 3) as u8;
            let on = c.p0(0, 8) != 0;
            self.rsp.set_texture(tile, level, on, (c.w1 >> 16) as u16, (c.w1 & 0xffff) as u16);
        } else if op == rsp_f3d::G_SETOTHERMODE_H {
            let shift = c.p0(8, 8);
            let len = c.p0(0, 8);
            self.rsp.set_other_mode_h_raw(shift, len, c.w1, &mut self.rdp);
        } else if op == rsp_f3d::G_SETOTHERMODE_L {
            let shift = c.p0(8, 8);
            let len = c.p0(0, 8);
            self.rsp.set_other_mode_l_raw(shift, len, c.w1, &mut self.rdp);
        } else if op == G_SETTIMG {
            let fmt = c.p0(21, 3) as u8;
            let siz = c.p0(19, 2) as u8;
            let addr = mem.resolve(c.w1_addr);
            self.rsp.set_texture_image(fmt, siz, (c.w0 & 0xfff) as u16, addr, &mut self.rdp);
        } else if op == rsp_f3d::G_MOVEWORD {
            let ty = c.p0(0, 8);
            if ty == rsp_f3d::G_MW_POINTS as u32 || ty == rsp_f3d::G_MW_LIGHTCOL as u32 {
                return false;
            } else if ty == rsp_f3d::G_MW_MATRIX as u32 || ty == rsp_f3d::G_MW_CLIP as u32 || ty == rsp_f3d::G_MW_PERSPNORM as u32 {
            } else if ty == rsp_f3d::G_MW_NUMLIGHT as u32 {
                let n = (c.w1.wrapping_sub(0x8000_0000) >> 5).wrapping_sub(1);
                self.rsp.set_num_lights_direct(n);
            } else if ty == rsp_f3d::G_MW_SEGMENT as u32 {
                let seg = c.p0(10, 4);
                mem.set_segment(seg, c.w1);
            } else if ty == rsp_f3d::G_MW_FOG as u32 {
                self.rdp.fog_mul = (c.w1 >> 16) as i16;
                self.rdp.fog_offset = (c.w1 & 0xffff) as i16;
            } else {
                let at = self.walk.pc;
                self.diags.push(Diagnostic { at, kind: DiagKind::UnhandledMoveword(ty as u8) });
            }
        } else if !(op == rsp_f3d::G_SPNOOP || op == rsp_f3d::G_DL || op == rsp_f3d::G_SPRITE2D_BASE
            || op == rsp_f3d::G_RDPHALF_2 || op == rsp_f3d::G_RDPHALF_1 || op == rsp_f3d::G_ENDDL
            || op == rsp_f3d::G_CULLDL || op == rsp_f3d::G_RDPNOOP) {
            return false;
        }
        true
    }
}

/// The command the next step asks the geometry layer about: an F3DEX2 CULLDL or BRANCH_Z
/// at the walk's position, while the walk goes on.
pub open spec fn spec_pending_condition(v: InterpView, mem: RdramImage) -> Option<Cmd> {
    let pc = v.walk.0;
    let op = (cmd_at(mem, pc as int).w0 >> 24u32) as u8;
    if !v.ended && v.ucode == GbiUcode::F3dex2 && pc + 8 <= mem.bytes@.len() && (op == G_CULLDL || op == G_BRANCH_Z) {
        Option::Some(cmd_at(mem, pc as int))
    } else {
        Option::None
    }
}

impl Interp {
    /// The conditional command whose answer the next `step` takes (see
    /// `spec_pending_condition`); for any other command the answer is not read.
    pub fn pending_condition(&self, mem: &RdramImage) -> (r: Option<Cmd>)
        ensures
            r == spec_pending_condition(self@, *mem),
    {
        let pc = self.walk.pc;
        if self.ended || self.ucode != GbiUcode::F3dex2 || !mem.in_bounds(pc, 8) {
            return None;
        }
        let k = mem.read_command(pc);
        let c = Cmd { w0: k.w0, w1: k.w1, w1_addr: k.w1_addr };
        let op = (c.w0 >> 24) as u8;
        if op == G_CULLDL || op == G_BRANCH_Z {
            Some(c)
        } else {
            None
        }
    }

    /// The material of the texture rectangle at `at` (see `build_rect_material`); a refused
    /// rectangle pushes its diagnostic and counts a dropped draw run.
    pub fn rect_material(&mut self, at: u64) -> (r: Option<Material>)
        ensures
            opt_view(r) == spec_build(old(self).rdp, 0, true, 0, true).1,
            final(self)@ == (InterpView {
                diags: old(self)@.diags + diag_at(spec_build(old(self).rdp, 0, true, 0, true).0, at),
                dropped_runs: if r is None {
                    vstd::wrapping::u32_specs::wrapping_add(old(self).dropped_runs, 1)
                } else {
                    old(self).dropped_runs
                },
                ..old(self)@
            }),
    {
        let r = build_rect_material(&self.rdp, &self.rsp, &mut self.diags, at);
        if r.is_none() {
            self.dropped_runs = self.dropped_runs.wrapping_add(1);
        }
        r
    }
}

/// What is left of a walk's dispatch budget: nothing once it has ended, else one more than
/// the dispatches the cap still allows.
pub open spec fn walk_budget(v: InterpView) -> int {
    if v.ended { 0 } else { DISPATCH_CAP + 1 - v.walk.2 }
}

/// A walk ends: every step of a walk that goes on dispatches one command or ends it, never
/// past the cap of 2^20 dispatches, and a step at the cap ends it with `RunawayDl`; so each
/// step uses up budget, and `finish_dispatch` never gives any back. A loop of steps, each
/// followed by `finish_dispatch` where it asks for one, thus ends within `2^20 + 1` steps
/// with at most 2^20 commands dispatched.
pub proof fn lemma_walk_terminates(v: InterpView, new: InterpView, mem: RdramImage, cond: Result<bool, DiagKind>, r: StepAction)
    requires
        step_post(v, new, mem, cond, r),
        v.walk.2 <= DISPATCH_CAP,
    ensures
        new.walk.2 <= DISPATCH_CAP,
        v.ended ==> new == v && r == StepAction::Ended,
        !v.ended ==> new.ended || new.walk.2 == v.walk.2 + 1,
        !v.ended ==> walk_budget(new) < walk_budget(v),
        !v.ended && v.walk.2 == DISPATCH_CAP ==> new.ended && r == StepAction::Ended && new.diags == v.diags.push(
            Diagnostic { at: v.walk.0, kind: DiagKind::RunawayDl { cap: DISPATCH_CAP } },
        ),
        r == StepAction::Ended ==> new.ended,
        after_dispatch(new).0.walk.2 == new.walk.2,
        walk_budget(after_dispatch(new).0) <= walk_budget(new),
        after_dispatch(new).1 == StepAction::Ended ==> after_dispatch(new).0.ended,
{
}

proof fn lemma_walk_words_bv(
    level: u32,
    tile: u32,
    on: u32,
    sc: u32,
    tc: u32,
    w0: u32,
    w1: u32,
    p0: u32,
    p1: u32,
    p2: u32,
    p3: u32,
    op: u32,
    sf: u32,
    lf: u32,
    wo: u32,
)
    by (bit_vector)
    requires
        level < 8,
        tile < 8,
        on < 2,
        sc < 0x1_0000,
        tc < 0x1_0000,
        p0 < 4096,
        p1 < 4096,
        p2 < 4096,
        p3 < 4096,
        w0 == (0xD7u32 << 24u32) | (level << 11u32) | (tile << 8u32) | (on << 1u32),
        w1 == (sc << 16u32) | tc,
    ensures
        (w0 >> 24u32) as u8 == 0xD7u8,
        field(w0, 1, 1) == on,
        field(w0, 8, 3) == tile,
        field(w0, 11, 3) == level,
        (w1 >> 16u32) as u16 == sc,
        (w1 & 0xffffu32) as u16 == tc,
        (w1 >> 16u32) as i16 == sc as i16,
        w1 as i16 == tc as i16,
        (p0 as i32) >> 2i32 == (p0 / 4) as i32,
        (p1 as i32) >> 2i32 == (p1 / 4) as i32,
        (p2 as i32) >> 2i32 == (p2 / 4) as i32,
        (p3 as i32) >> 2i32 == (p3 / 4) as i32,
        op < 256 && sf < 256 && lf < 256 && wo == (op << 24u32) | (sf << 8u32) | lf ==> (wo >> 24u32) as u8 == op as u8
            && field(wo, 8, 8) == sf && field(wo, 0, 8) == lf,
{
}

/// F3DEX2's gsSPTexture packs level [13:11], tile [10:8] and the on switch (bit 1) into
/// `w0` and the S and T scales into the high and low halves of `w1`; the texture state the
/// walk's state dispatch sets is exactly those values, and nothing else changes.
pub proof fn lemma_texture_command_sets_texture_state(
    v: InterpView,
    mem: RdramImage,
    level: u32,
    tile: u32,
    on: bool,
    sc: u32,
    tc: u32,
)
    requires
        v.ucode == GbiUcode::F3dex2,
        level < 8,
        tile < 8,
        sc < 0x1_0000,
        tc < 0x1_0000,
    ensures
        ({
            let w0 = (0xD7u32 << 24u32) | (level << 11u32) | (tile << 8u32) | ((if on { 1u32 } else { 0u32 }) << 1u32);
            let w1 = (sc << 16u32) | tc;
            let (new, segs) = spec_state_dispatch(v, mem, Cmd { w0, w1, w1_addr: w1 as u64 });
            &&& spec_state_command(v.ucode, Cmd { w0, w1, w1_addr: w1 as u64 })
            &&& new == (InterpView {
                rsp: Rsp {
                    texture_state: crate::rsp::TextureState {
                        tile: tile as u8,
                        level: level as u8,
                        on,
                        sc: sc as u16,
                        tc: tc as u16,
                    },
                    ..v.rsp
                },
                ..v
            })
            &&& segs == mem.segments@
        }),
{
    let onv: u32 = if on { 1 } else { 0 };
    let w0 = (0xD7u32 << 24u32) | (level << 11u32) | (tile << 8u32) | (onv << 1u32);
    let w1 = (sc << 16u32) | tc;
    lemma_walk_words_bv(level, tile, onv, sc, tc, w0, w1, 0, 0, 0, 0, 0, 0, 0, 0);
}

/// Fixed-point rectangles: gsSPTextureRectangle packs the lower-right corner into `w0`
/// (x [23:12], y [11:0]) and the tile and upper-left corner into `w1` (tile [26:24],
/// x [23:12], y [11:0]), all 10.2, and the texture origin and steps as the two halves of
/// the continuation words' `w1`; gsDPFillRectangle packs the same corner layout, which the
/// fill rectangle takes as whole pixels.
pub proof fn lemma_fixed_rect_corners(
    tile: u32,
    ulx: u32,
    uly: u32,
    lrx: u32,
    lry: u32,
    s: u32,
    t: u32,
    dsdx: u32,
    dtdy: u32,
)
    requires
        tile < 8,
        ulx < 4096,
        uly < 4096,
        lrx < 4096,
        lry < 4096,
        s < 0x1_0000,
        t < 0x1_0000,
        dsdx < 0x1_0000,
        dtdy < 0x1_0000,
    ensures
        ({
            let c = Cmd {
                w0: (0xE4u32 << 24u32) | ((lrx << 12u32) | lry),
                w1: (tile << 24u32) | (ulx << 12u32) | uly,
                w1_addr: ((tile << 24u32) | (ulx << 12u32) | uly) as u64,
            };
            let f = Cmd {
                w0: (0xF6u32 << 24u32) | ((lrx << 12u32) | lry),
                w1: (0u32 << 24u32) | (ulx << 12u32) | uly,
                w1_addr: 0,
            };
            let c1 = Cmd { w0: 0xE100_0000, w1: (s << 16u32) | t, w1_addr: ((s << 16u32) | t) as u64 };
            let c2 = Cmd { w0: 0xF100_0000, w1: (dsdx << 16u32) | dtdy, w1_addr: ((dsdx << 16u32) | dtdy) as u64 };
            &&& spec_texrect_bounds(GbiDataFormat::Fixed, c, c1, c2) == (RectBounds {
                ulx: ulx as i32,
                uly: uly as i32,
                lrx: lrx as i32,
                lry: lry as i32,
            })
            &&& field(c.w1, 24, 3) == tile
            &&& spec_fillrect_bounds(GbiDataFormat::Fixed, f, c1) == (RectBounds {
                ulx: (ulx / 4) as i32,
                uly: (uly / 4) as i32,
                lrx: (lrx / 4) as i32,
                lry: (lry / 4) as i32,
            })
            &&& (c1.w1 >> 16u32) as i16 == s as i16 && c1.w1 as i16 == t as i16
            &&& (c2.w1 >> 16u32) as i16 == dsdx as i16 && c2.w1 as i16 == dtdy as i16
        }),
{
    let w0 = (0xE4u32 << 24u32) | ((lrx << 12u32) | lry);
    let w1 = (tile << 24u32) | (ulx << 12u32) | uly;
    crate::rdp::lemma_rect_words_bv(0xE4, lrx, lry, tile, ulx, uly, w0, w1);
    let fw0 = (0xF6u32 << 24u32) | ((lrx << 12u32) | lry);
    let fw1 = (0u32 << 24u32) | (ulx << 12u32) | uly;
    crate::rdp::lemma_rect_words_bv(0xF6, lrx, lry, 0, ulx, uly, fw0, fw1);
    let z = (0xD7u32 << 24u32) | (0u32 << 11u32) | (0u32 << 8u32) | (0u32 << 1u32);
    lemma_walk_words_bv(0, 0, 0, s, t, z, (s << 16u32) | t, lrx, lry, ulx, uly, 0, 0, 0, 0);
    lemma_walk_words_bv(0, 0, 0, dsdx, dtdy, z, (dsdx << 16u32) | dtdy, 0, 0, 0, 0, 0, 0, 0, 0);
}

/// A display-list call returns to the command after it: a G_DL step whose push flag
/// (`w0` bit 16) is clear goes to the resolved target with the address after the call on
/// the return stack, and the G_ENDDL that ends the callee then resumes the caller right
/// after the call with the stack it had. With the flag set the G_DL branches: it goes to
/// the target and leaves the return stack as it was.
pub proof fn lemma_call_returns_after_the_call(
    v: InterpView,
    mem: RdramImage,
    v1: InterpView,
    r1: StepAction,
    v2: InterpView,
    r2: StepAction,
    cond1: Result<bool, DiagKind>,
    cond2: Result<bool, DiagKind>,
)
    requires
        v.consts == v.ucode.spec_constants(),
        !v.ended,
        v.walk.2 + 2 <= DISPATCH_CAP,
        v.walk.0 + 8 <= mem.bytes@.len(),
        v.walk.0 + 8 <= u64::MAX,
        (cmd_at(mem, v.walk.0 as int).w0 >> 24u32) as u8 == v.consts.g_dl,
        step_post(v, v1, mem, cond1, r1),
    ensures
        ({
            let c = cmd_at(mem, v.walk.0 as int);
            let target = mem.spec_resolve_masked(c.w1_addr);
            &&& !v1.ended && r1 == StepAction::Next
            &&& v1.walk.0 == target
            &&& field(c.w0, 16, 1) == 0 ==> v1.walk.1 == v.walk.1.push((v.walk.0 + 8) as u64)
            &&& field(c.w0, 16, 1) != 0 ==> v1.walk.1 == v.walk.1
            &&& v1.diags == v.diags
        }),
        ({
            let c = cmd_at(mem, v.walk.0 as int);
            (field(c.w0, 16, 1) == 0 && v1.walk.0 + 8 <= mem.bytes@.len() && (cmd_at(mem, v1.walk.0 as int).w0
                >> 24u32) as u8 == v.consts.g_enddl && step_post(v1, v2, mem, cond2, r2)) ==> !v2.ended && v2.walk.0
                == v.walk.0 + 8 && v2.walk.1 == v.walk.1 && r2 == StepAction::Next
        }),
{
    assert(v.consts.g_dl != v.consts.g_enddl && v.consts.g_dl != G_CULLDL && v.consts.g_dl != G_BRANCH_Z
        && v.consts.g_dl != G_LOAD_UCODE && v.consts.g_enddl != G_CULLDL && v.consts.g_enddl != G_BRANCH_Z
        && v.consts.g_enddl != G_LOAD_UCODE && v.consts.g_enddl != v.consts.g_dl);
    let c = cmd_at(mem, v.walk.0 as int);
    if field(c.w0, 16, 1) == 0 && v1.walk.0 + 8 <= mem.bytes@.len() && (cmd_at(mem, v1.walk.0 as int).w0 >> 24u32) as u8
        == v.consts.g_enddl && step_post(v1, v2, mem, cond2, r2) {
        let c1 = cmd_at(mem, v1.walk.0 as int);
        assert(!v1.ended && v1.walk.2 == v.walk.2 + 1 && v1.consts == v.consts && v1.ucode == v.ucode);
        assert(spec_decision(v1, mem, c1, cond2).0 == Control::Return);
        assert(v1.walk.1.len() > 0);
        assert(v1.walk.1.last() == (v.walk.0 + 8) as u64);
        assert(v1.walk.1.drop_last() =~= v.walk.1);
    }
}

/// F3DEX2's gsSPSetOtherMode packs `32 - shift - length` into `w0[15:8]` and `length - 1`
/// into `w0[7:0]`; the walk's state dispatch then writes `data` into bits
/// `[shift, shift + length)` of the other-mode half the opcode names (0xE3 high, 0xE2 low),
/// as `spec_other_mode_update` describes bit by bit, and changes nothing else.
pub proof fn lemma_set_other_mode_writes_its_field(
    v: InterpView,
    mem: RdramImage,
    high: bool,
    shift: u32,
    length: u32,
    data: u32,
)
    requires
        v.ucode == GbiUcode::F3dex2,
        1 <= length <= 32,
        shift + length <= 32,
    ensures
        ({
            let op: u32 = if high { 0xE3 } else { 0xE2 };
            let w0 = (op << 24u32) | (((32 - shift - length) as u32) << 8u32) | ((length - 1) as u32);
            let (new, segs) = spec_state_dispatch(v, mem, Cmd { w0, w1: data, w1_addr: data as u64 });
            &&& high ==> new == (InterpView {
                rdp: Rdp { other_mode_h: crate::rsp::spec_other_mode_update(v.rdp.other_mode_h, shift, length, data), ..v.rdp },
                ..v
            })
            &&& !high ==> new == (InterpView {
                rdp: Rdp { other_mode_l: crate::rsp::spec_other_mode_update(v.rdp.other_mode_l, shift, length, data), ..v.rdp },
                ..v
            })
            &&& segs == mem.segments@
        }),
{
    let op: u32 = if high { 0xE3 } else { 0xE2 };
    let w0 = (op << 24u32) | (((32 - shift - length) as u32) << 8u32) | ((length - 1) as u32);
    lemma_walk_words_bv(0, 0, 0, 0, 0, (0xD7u32 << 24u32) | (0u32 << 11u32) | (0u32 << 8u32) | (0u32 << 1u32), (0u32 << 16u32) | 0u32,
        0, 0, 0, 0, op, (32 - shift - length) as u32, (length - 1) as u32, w0);
}
} // verus!
