//! The 2D side of a frame's scene: framebuffer pairs opened lazily by the first draw after a
//! color or depth image change, the scissor changes within a pair, and the rectangle ops
//! with their deduplicated materials and render modes.
use vstd::prelude::*;
use crate::blender::{RenderMode, decode_render_mode, spec_decode_render_mode};
use crate::combiner::{Material, MaterialView, opt_view, spec_build};
use crate::consts::G_CYC_COPY;
use crate::interp::walk::{Interp, InterpView, RectBounds, StepAction};
use crate::rdp::{ColorImage, PrimitiveDepth, Rdp, Scissor};
use crate::rsp::spec_bpp;

verus! {

/// One recorded operation of a framebuffer pair, in draw order.
#[derive(Clone, Copy, Debug, PartialEq, Eq)]
pub enum SceneOp {
    /// The scissor changed since the pair opened or since the last change.
    SetScissor(Scissor),
    /// A run of triangles the geometry layer recorded, by its index in that layer's runs.
    Tris(u32),
    /// A textured rectangle: corners, tile, texture origin and steps, its material and
    /// render mode (indices into the scene's lists), the fog color and primitive depth, and
    /// the earlier framebuffer it samples, if its texture lies in one.
    TexRect {
        rect: RectBounds,
        tile: u8,
        uls: i16,
        ult: i16,
        dsdx: i16,
        dtdy: i16,
        flip: bool,
        copy_mode: bool,
        material_index: u32,
        render_mode_index: u32,
        fog_color: [u8; 4],
        prim_depth: PrimitiveDepth,
        fb_source: Option<u64>,
    },
    /// A fill rectangle in pixels with the raw fill color.
    FillRect { rect: RectBounds, color_raw: u32 },
}

/// A color target with its depth target and the ops drawn into them.
pub struct FramebufferPair {
    pub color_image: ColorImage,
    /// The depth image, unless none is set (address 0).
    pub depth_image: Option<u64>,
    pub ops: Vec<SceneOp>,
    /// The scissor when the pair opened.
    pub active_scissor: Scissor,
    /// Color image width and the scissor's lower edge (at least 0).
    pub size_extent: (u32, u32),
    /// The depth image is the color image: the pair clears depth.
    pub is_depth_clear: bool,
}

/// `FramebufferPair` as values.
pub struct PairView {
    pub color_image: ColorImage,
    pub depth_image: Option<u64>,
    pub ops: Seq<SceneOp>,
    pub active_scissor: Scissor,
    pub size_extent: (u32, u32),
    pub is_depth_clear: bool,
}

impl View for FramebufferPair {
    type V = PairView;

    open spec fn view(&self) -> PairView {
        PairView {
            color_image: self.color_image,
            depth_image: self.depth_image,
            ops: self.ops@,
            active_scissor: self.active_scissor,
            size_extent: self.size_extent,
            is_depth_clear: self.is_depth_clear,
        }
    }
}

/// The recorded 2D scene: framebuffer pairs (the last one is open), the materials and
/// render modes rectangles refer to, and the scissor last recorded in the open pair.
pub struct Scene {
    pairs: Vec<FramebufferPair>,
    materials: Vec<Material>,
    render_modes: Vec<RenderMode>,
    last_scissor: Scissor,
}

/// `Scene` as values.
pub struct SceneView {
    pub pairs: Seq<PairView>,
    pub materials: Seq<MaterialView>,
    pub render_modes: Seq<RenderMode>,
    pub last_scissor: Scissor,
}

impl View for Scene {
    type V = SceneView;

    closed spec fn view(&self) -> SceneView {
        SceneView {
            pairs: self.pairs@.map_values(|p: FramebufferPair| p@),
            materials: self.materials@.map_values(|m: Material| m@),
            render_modes: self.render_modes@,
            last_scissor: self.last_scissor,
        }
    }
}

/// The scissor's lower edge as an extent: at least 0.
pub open spec fn spec_extent_rows(s: Scissor) -> u32 {
    if s.lry > 0 { s.lry as u32 } else { 0 }
}

/// The pair a draw opens: the current color image, the depth image unless it is 0, the
/// scissor, the color width by the scissor's lower edge, and whether depth is cleared.
pub open spec fn spec_new_pair(rdp: Rdp) -> PairView {
    let depth = if rdp.depth_image != 0 { Option::Some(rdp.depth_image) } else { Option::None };
    PairView {
        color_image: rdp.color_image,
        depth_image: depth,
        ops: Seq::empty(),
        active_scissor: rdp.scissor,
        size_extent: (rdp.color_image.width as u32, spec_extent_rows(rdp.scissor)),
        is_depth_clear: depth == Option::Some(rdp.color_image.addr),
    }
}

/// `ops` pushed onto the last pair.
pub open spec fn push_last(pairs: Seq<PairView>, op: SceneOp) -> Seq<PairView> {
    pairs.update(pairs.len() - 1, PairView { ops: pairs.last().ops.push(op), ..pairs.last() })
}

/// Before a draw: a new pair opens when none is open or the color or depth image changed
/// since (clearing both change flags); then a scissor that differs from the last one
/// recorded is recorded in the open pair.
pub open spec fn spec_open_pair(s: SceneView, rdp: Rdp) -> (SceneView, Rdp) {
    let (s1, rdp1) = if s.pairs.len() == 0 || rdp.color_changed || rdp.depth_changed {
        (
            SceneView { pairs: s.pairs.push(spec_new_pair(rdp)), last_scissor: rdp.scissor, ..s },
            Rdp { color_changed: false, depth_changed: false, ..rdp },
        )
    } else {
        (s, rdp)
    };
    if rdp1.scissor != s1.last_scissor {
        (SceneView { pairs: push_last(s1.pairs, SceneOp::SetScissor(rdp1.scissor)), last_scissor: rdp1.scissor, ..s1 }, rdp1)
    } else {
        (s1, rdp1)
    }
}

/// The color image bytes of `p`: `[addr, addr + width * rows * bytes per pixel)`.
pub open spec fn pair_holds(p: PairView, a: int) -> bool {
    p.color_image.addr <= a < p.color_image.addr + (p.color_image.width as int) * (p.size_extent.1 as int)
        * (pixel_bytes(p.color_image.siz) as int)
}

/// Bytes per pixel of a size code (4-bit 0, 8-bit 1, 16-bit 2, 32-bit 4); a code no shift
/// can hold counts none.
pub open spec fn pixel_bytes(siz: u8) -> u64 {
    if siz < 64 { spec_bpp(siz) } else { 0 }
}

/// The framebuffer a texture at `a` is read from: the latest of the first `n` pairs that
/// does not clear depth and whose color image holds `a`.
pub open spec fn spec_fb_source(pairs: Seq<PairView>, n: int, a: int) -> Option<u64>
    decreases n,
{
    if n <= 0 {
        Option::None
    } else if !pairs[n - 1].is_depth_clear && pair_holds(pairs[n - 1], a) {
        Option::Some(pairs[n - 1].color_image.addr)
    } else {
        spec_fb_source(pairs, n - 1, a)
    }
}

/// The op a textured rectangle records, given its material and render-mode indices and the
/// scene after its pair opened.
pub open spec fn spec_texrect_op(action: StepAction, rdp: Rdp, mi: u32, ri: u32, pairs: Seq<PairView>) -> SceneOp {
    match action {
        StepAction::TexRect { at, cmd, cmd1, cmd2, rect, tile, flip } => SceneOp::TexRect {
            rect,
            tile,
            uls: (cmd1.w1 >> 16u32) as i16,
            ult: cmd1.w1 as i16,
            dsdx: (cmd2.w1 >> 16u32) as i16,
            dtdy: cmd2.w1 as i16,
            flip,
            copy_mode: (rdp.other_mode_h >> 20u32) & 3u32 == G_CYC_COPY,
            material_index: mi,
            render_mode_index: ri,
            fog_color: rdp.fog_color,
            prim_depth: rdp.prim_depth,
            fb_source: spec_fb_source(pairs, pairs.len() - 1, rdp.tex_image.3 as int),
        },
        _ => SceneOp::Tris(0),
    }
}

impl Scene {
    /// An empty scene.
    pub fn new() -> (r: Self)
        ensures
            r@.pairs.len() == 0,
            r@.materials.len() == 0,
            r@.render_modes.len() == 0,
    {
        let r = Scene {
            pairs: Vec::new(),
            materials: Vec::new(),
            render_modes: Vec::new(),
            last_scissor: Scissor { ulx: 0, uly: 0, lrx: 0, lry: 0, mode: 0 },
        };
        assert(r@.pairs =~= Seq::empty());
        assert(r@.materials =~= Seq::empty());
        r
    }

    /// The framebuffer pairs recorded so far.
    pub fn pairs(&self) -> (r: &Vec<FramebufferPair>)
        ensures
            r@.map_values(|p: FramebufferPair| p@) == self@.pairs,
    {
        &self.pairs
    }

    /// The materials rectangles refer to.
    pub fn materials(&self) -> (r: &Vec<Material>)
        ensures
            r@.map_values(|m: Material| m@) == self@.materials,
    {
        &self.materials
    }

    /// The render modes rectangles refer to.
    pub fn render_modes(&self) -> (r: &Vec<RenderMode>)
        ensures
            r@ == self@.render_modes,
    {
        &self.render_modes
    }

    /// Opens the pair for a draw (see `spec_open_pair`).
    fn open_pair(&mut self, rdp: &mut Rdp)
        ensures
            (final(self)@, *final(rdp)) == spec_open_pair(old(self)@, *old(rdp)),
            final(self)@.pairs.len() > 0,
    {
        if self.pairs.len() == 0 || rdp.color_changed || rdp.depth_changed {
            let depth_image = if rdp.depth_image != 0 { Some(rdp.depth_image) } else { None };
            let is_depth_clear = match depth_image {
                Some(d) => d == rdp.color_image.addr,
                None => false,
            };
            let rows: u32 = if rdp.scissor.lry > 0 { rdp.scissor.lry as u32 } else { 0 };
            let p = FramebufferPair {
                color_image: rdp.color_image,
                depth_image,
                ops: Vec::new(),
                active_scissor: rdp.scissor,
                size_extent: (rdp.color_image.width as u32, rows),
                is_depth_clear,
            };
            assert(p@ =~= spec_new_pair(*rdp));
            self.pairs.push(p);
            self.last_scissor = rdp.scissor;
            rdp.color_changed = false;
            rdp.depth_changed = false;
            assert(self@.pairs =~= old(self)@.pairs.push(spec_new_pair(*old(rdp))));
        }
        let ghost s1 = self@;
        if rdp.scissor != self.last_scissor {
            let op = SceneOp::SetScissor(rdp.scissor);
            self.push_op(op);
            self.last_scissor = rdp.scissor;
            assert(self@.pairs =~= push_last(s1.pairs, op));
        }
    }

    /// Pushes `op` onto the open pair.
    fn push_op(&mut self, op: SceneOp)
        requires
            old(self)@.pairs.len() > 0,
        ensures
            final(self)@ == (SceneView { pairs: push_last(old(self)@.pairs, op), ..old(self)@ }),
    {
        let last = self.pairs.len() - 1;
        let mut p = self.pairs.remove(last);
        p.ops.push(op);
        self.pairs.push(p);
        assert(self@.pairs =~= push_last(old(self)@.pairs, op));
    }

    /// Records a fill rectangle with the current fill color in the pair it opens.
    pub fn fill_rect(&mut self, rdp: &mut Rdp, rect: RectBounds)
        ensures
            ({
                let (s1, rdp1) = spec_open_pair(old(self)@, *old(rdp));
                &&& *final(rdp) == rdp1
                &&& final(self)@ == (SceneView {
                    pairs: push_last(s1.pairs, SceneOp::FillRect { rect, color_raw: old(rdp).fill_color_raw }),
                    ..s1
                })
            }),
    {
        self.open_pair(rdp);
        self.push_op(SceneOp::FillRect { rect, color_raw: rdp.fill_color_raw });
    }
}


/// `s` with `x` appended unless it already ends with `x`.
pub open spec fn dedupe_last<T>(s: Seq<T>, x: T) -> Seq<T> {
    if s.len() > 0 && s.last() == x { s } else { s.push(x) }
}

/// What a textured rectangle at `at` does to the scene and the walk: a refused material
/// counts a dropped run and records nothing; otherwise the material and the render mode
/// are added unless the last ones equal them, the pair opens, and the op is recorded.
pub open spec fn spec_tex_rect(s: SceneView, v: InterpView, action: StepAction) -> (SceneView, InterpView) {
    let at = match action { StepAction::TexRect { at, .. } => at, _ => 0 };
    let (diag, mat) = spec_build(v.rdp, 0, true, 0, true);
    let v1 = InterpView {
        diags: v.diags + crate::combiner::diag_at(diag, at),
        dropped_runs: if mat is None { vstd::wrapping::u32_specs::wrapping_add(v.dropped_runs, 1) } else { v.dropped_runs },
        ..v
    };
    match mat {
        Option::None => (s, v1),
        Option::Some(m) => {
            let mats = dedupe_last(s.materials, m);
            let rms = dedupe_last(s.render_modes, spec_decode_render_mode(v.rdp.other_mode_l, v.rdp.other_mode_h, v.rsp.geom));
            let (s2, rdp2) = spec_open_pair(SceneView { materials: mats, render_modes: rms, ..s }, v.rdp);
            let op = spec_texrect_op(action, v.rdp, (mats.len() - 1) as u32, (rms.len() - 1) as u32, s2.pairs);
            (SceneView { pairs: push_last(s2.pairs, op), ..s2 }, InterpView { rdp: rdp2, ..v1 })
        },
    }
}

fn same4(x: [u8; 4], y: [u8; 4]) -> (r: bool)
    ensures
        r == (x == y),
{
    let r = x[0] == y[0] && x[1] == y[1] && x[2] == y[2] && x[3] == y[3];
    proof {
        broadcast use vstd::array::group_array_axioms;
        if r {
            assert forall|i: int| 0 <= i < 4 implies x[i] == y[i] by {
                if i == 0 {} else if i == 1 {} else if i == 2 {} else {}
            }
            assert(x =~= y);
        }
    }
    r
}

/// Whether two materials are the same value.
pub fn same_material(a: &Material, b: &Material) -> (r: bool)
    ensures
        r == (a@ == b@),
{
    let tex_same = match (a.texture, b.texture) {
        (Some(x), Some(y)) => x == y,
        (None, None) => true,
        _ => false,
    };
    let tex1_same = match (a.tex1, b.tex1) {
        (Some(x), Some(y)) => x == y,
        (None, None) => true,
        _ => false,
    };
    let detail_same = match (a.detail_tex, b.detail_tex) {
        (Some(x), Some(y)) => x == y,
        (None, None) => true,
        _ => false,
    };
    if !(tex_same && tex1_same && detail_same && a.tex_w == b.tex_w && a.tex_h == b.tex_h && a.selectors
        == b.selectors && a.cycle_type == b.cycle_type && same4(a.prim, b.prim) && same4(a.env, b.env)
        && a.tex_enable == b.tex_enable && a.wrap_s == b.wrap_s && a.wrap_t == b.wrap_t && a.fmt == b.fmt
        && a.siz == b.siz && same4(a.blend_color, b.blend_color) && a.tile_count == b.tile_count
        && a.prim_lod_frac == b.prim_lod_frac && a.prim_min_level == b.prim_min_level && a.lod == b.lod
        && a.num_levels == b.num_levels && a.text_detail == b.text_detail && a.mip_levels.len()
        == b.mip_levels.len()) {
        return false;
    }
    let mut i: usize = 0;
    while i < a.mip_levels.len()
        invariant
            a.mip_levels.len() == b.mip_levels.len(),
            i <= a.mip_levels.len(),
            forall|j: int| 0 <= j < i ==> a.mip_levels@[j] == b.mip_levels@[j],
        decreases a.mip_levels.len() - i,
    {
        if a.mip_levels[i] != b.mip_levels[i] {
            return false;
        }
        i = i + 1;
    }
    assert(a.mip_levels@ =~= b.mip_levels@);
    true
}

impl Scene {
    /// Records the textured rectangle of `action`, a `StepAction::TexRect`, for `walk` (see
    /// `spec_tex_rect`); says whether it was recorded.
    pub fn tex_rect(&mut self, walk: &mut Interp, action: &StepAction) -> (r: bool)
        requires
            *action is TexRect,
        ensures
            (final(self)@, final(walk)@) == spec_tex_rect(old(self)@, old(walk)@, *action),
            r == spec_build(old(walk).rdp, 0, true, 0, true).1 is Some,
    {
        let (at, cmd1, cmd2, rect, tile, flip) = match action {
            StepAction::TexRect { at, cmd1, cmd2, rect, tile, flip, .. } => (*at, *cmd1, *cmd2, *rect, *tile, *flip),
            _ => (0, crate::interp::Cmd { w0: 0, w1: 0, w1_addr: 0 }, crate::interp::Cmd { w0: 0, w1: 0, w1_addr: 0 },
                RectBounds { ulx: 0, uly: 0, lrx: 0, lry: 0 }, 0, false),
        };
        let m = match walk.rect_material(at) {
            Some(m) => m,
            None => return false,
        };
        let ghost mv = m@;
        let n = self.materials.len();
        if !(n > 0 && same_material(&self.materials[n - 1], &m)) {
            self.materials.push(m);
        }
        proof {
            assert(self@.materials =~= dedupe_last(old(self)@.materials, mv));
        }
        let rm = decode_render_mode(walk.rdp.other_mode_l, walk.rdp.other_mode_h, walk.rsp.geom);
        let k = self.render_modes.len();
        if !(k > 0 && self.render_modes[k - 1] == rm) {
            self.render_modes.push(rm);
        }
        proof {
            assert(self@.render_modes =~= dedupe_last(old(self)@.render_modes, rm));
        }
        let mi = (self.materials.len() - 1) as u32;
        let ri = (self.render_modes.len() - 1) as u32;
        let ghost rdp0 = walk.rdp;
        let tex_addr = walk.rdp.tex_image.3;
        let other_h = walk.rdp.other_mode_h;
        let fog_color = walk.rdp.fog_color;
        let prim_depth = walk.rdp.prim_depth;
        self.open_pair(&mut walk.rdp);
        let fb_source = self.fb_source(tex_addr);
        let op = SceneOp::TexRect {
            rect,
            tile,
            uls: (cmd1.w1 >> 16) as i16,
            ult: cmd1.w1 as i16,
            dsdx: (cmd2.w1 >> 16) as i16,
            dtdy: cmd2.w1 as i16,
            flip,
            copy_mode: (other_h >> 20) & 3 == G_CYC_COPY,
            material_index: mi,
            render_mode_index: ri,
            fog_color,
            prim_depth,
            fb_source,
        };
        self.push_op(op);
        true
    }

    /// The framebuffer a texture at `a` is read from, among the pairs before the open one
    /// (see `spec_fb_source`).
    fn fb_source(&self, a: u64) -> (r: Option<u64>)
        requires
            self@.pairs.len() > 0,
        ensures
            r == spec_fb_source(self@.pairs, self@.pairs.len() - 1, a as int),
    {
        let mut n = self.pairs.len() - 1;
        while n > 0
            invariant
                n < self@.pairs.len(),
                self@.pairs.len() == self.pairs@.len(),
                spec_fb_source(self@.pairs, self@.pairs.len() - 1, a as int) == spec_fb_source(self@.pairs, n as int, a as int),
            decreases n,
        {
            let p = &self.pairs[n - 1];
            assert(self@.pairs[n - 1] == p@);
            let start = p.color_image.addr as u128;
            let px: u64 = if p.color_image.siz < 64 { crate::rsp::bpp(p.color_image.siz) } else { 0 };
            assert((p.color_image.width as u128) * (p.size_extent.1 as u128) <= 0xffff * 0xffff_ffffu128) by (nonlinear_arith)
                requires
                    p.color_image.width <= 0xffff,
                    p.size_extent.1 <= 0xffff_ffff,
            ;
            assert((p.color_image.width as u128) * (p.size_extent.1 as u128) * (px as u128) <= 0xffff * 0xffff_ffffu128 * 0xffff_ffff_ffff_ffffu128) by (nonlinear_arith)
                requires
                    (p.color_image.width as u128) * (p.size_extent.1 as u128) <= 0xffff * 0xffff_ffffu128,
                    px <= 0xffff_ffff_ffff_ffff,
            ;
            let end = start + (p.color_image.width as u128) * (p.size_extent.1 as u128) * (px as u128);
            if !p.is_depth_clear && start <= a as u128 && (a as u128) < end {
                return Some(p.color_image.addr);
            }
            n = n - 1;
        }
        None
    }
}


/// Whether an op draws (everything but a scissor change).
pub open spec fn is_draw(op: SceneOp) -> bool {
    !(op is SetScissor)
}

/// The drawing ops among the first `n` of `ops`.
pub open spec fn draw_count(ops: Seq<SceneOp>, n: int) -> nat
    decreases n,
{
    if n <= 0 {
        0
    } else {
        draw_count(ops, n - 1) + if is_draw(ops[n - 1]) { 1nat } else { 0nat }
    }
}

/// The drawing ops of the first `n` pairs.
pub open spec fn pairs_draw_count(pairs: Seq<PairView>, n: int) -> nat
    decreases n,
{
    if n <= 0 {
        0
    } else {
        pairs_draw_count(pairs, n - 1) + draw_count(pairs[n - 1].ops, pairs[n - 1].ops.len() as int)
    }
}

impl Scene {
    /// Records a run of triangles, by the geometry layer's index of it, in the pair it opens.
    pub fn tris(&mut self, rdp: &mut Rdp, run: u32)
        ensures
            ({
                let (s1, rdp1) = spec_open_pair(old(self)@, *old(rdp));
                &&& *final(rdp) == rdp1
                &&& final(self)@ == (SceneView { pairs: push_last(s1.pairs, SceneOp::Tris(run)), ..s1 })
            }),
    {
        self.open_pair(rdp);
        self.push_op(SceneOp::Tris(run));
    }

    /// Discards the scene of a rejected walk: every drawing op recorded counts as a dropped
    /// draw run of `walk` (wrapping like the 32-bit counter), and the scene is emptied.
    pub fn discard(&mut self, walk: &mut Interp)
        ensures
            final(self)@.pairs.len() == 0,
            final(self)@.materials.len() == 0,
            final(self)@.render_modes.len() == 0,
            final(walk)@ == (InterpView {
                dropped_runs: vstd::wrapping::u32_specs::wrapping_add(
                    old(walk).dropped_runs,
                    (pairs_draw_count(old(self)@.pairs, old(self)@.pairs.len() as int) % 0x1_0000_0000) as u32,
                ),
                ..old(walk)@
            }),
    {
        let mut count: u32 = 0;
        let mut i: usize = 0;
        while i < self.pairs.len()
            invariant
                i <= self.pairs@.len(),
                self@.pairs.len() == self.pairs@.len(),
                count as int == pairs_draw_count(self@.pairs, i as int) % 0x1_0000_0000,
            decreases self.pairs@.len() - i,
        {
            let ops = &self.pairs[i].ops;
            assert(self@.pairs[i as int].ops == ops@);
            let mut j: usize = 0;
            let ghost base = pairs_draw_count(self@.pairs, i as int);
            while j < ops.len()
                invariant
                    j <= ops@.len(),
                    count as int == (base + draw_count(ops@, j as int)) % 0x1_0000_0000,
                decreases ops@.len() - j,
            {
                match ops[j] {
                    SceneOp::SetScissor(_) => {},
                    _ => {
                        count = count.wrapping_add(1);
                    },
                }
                j = j + 1;
                proof {
                    let d = draw_count(ops@, j as int);
                    assert(d == draw_count(ops@, j - 1) + if is_draw(ops@[j - 1]) { 1nat } else { 0nat });
                    vstd::arithmetic::div_mod::lemma_add_mod_noop((base + draw_count(ops@, j - 1)) as int, 1, 0x1_0000_0000);
                }
            }
            i = i + 1;
        }
        walk.dropped_runs = walk.dropped_runs.wrapping_add(count);
        self.pairs = Vec::new();
        self.materials = Vec::new();
        self.render_modes = Vec::new();
        assert(self@.pairs =~= Seq::empty());
        assert(self@.materials =~= Seq::empty());
    }
}


/// Every pair holds a drawing op: a pair opens only for a draw.
pub open spec fn pairs_all_draw(s: SceneView) -> bool {
    forall|i: int| 0 <= i < s.pairs.len() ==> #[trigger] draw_count(s.pairs[i].ops, s.pairs[i].ops.len() as int) > 0
}

proof fn lemma_draw_count_push(ops: Seq<SceneOp>, op: SceneOp, n: int)
    requires
        0 <= n <= ops.len(),
    ensures
        draw_count(ops.push(op), n) == draw_count(ops, n),
        draw_count(ops.push(op), ops.len() + 1int) == draw_count(ops, ops.len() as int) + if is_draw(op) { 1nat } else { 0nat },
    decreases n,
{
    if n > 0 {
        lemma_draw_count_push(ops, op, n - 1);
    }
    lemma_draw_count_prefix(ops, op, ops.len() as int);
}

proof fn lemma_draw_count_prefix(ops: Seq<SceneOp>, op: SceneOp, n: int)
    requires
        0 <= n <= ops.len(),
    ensures
        draw_count(ops.push(op), n) == draw_count(ops, n),
    decreases n,
{
    if n > 0 {
        lemma_draw_count_prefix(ops, op, n - 1);
        assert(ops.push(op)[n - 1] == ops[n - 1]);
    }
}

/// A pair that opens for a draw and takes it holds a drawing op, and pushing ops onto the
/// last pair never removes the drawing ops of the others: so a scene recorded by
/// `fill_rect`, `tex_rect` and `tris` from `new` has no pair without a draw.
pub proof fn lemma_pairs_open_only_for_draws(s: SceneView, rdp: Rdp, op: SceneOp)
    requires
        pairs_all_draw(s),
        is_draw(op),
    ensures
        pairs_all_draw(SceneView { pairs: push_last(spec_open_pair(s, rdp).0.pairs, op), ..spec_open_pair(s, rdp).0 }),
{
    let s1 = spec_open_pair(s, rdp).0;
    let opened = s.pairs.len() == 0 || rdp.color_changed || rdp.depth_changed;
    let p0 = if opened { s.pairs.push(spec_new_pair(rdp)) } else { s.pairs };
    assert(s1.pairs.len() == p0.len());
    assert forall|i: int| 0 <= i < s1.pairs.len() - 1 implies #[trigger] s1.pairs[i] == s.pairs[i] by {}
    let last = s1.pairs.last();
    lemma_draw_count_push(last.ops, op, last.ops.len() as int);
    let fin = push_last(s1.pairs, op);
    assert forall|i: int| 0 <= i < fin.len() implies #[trigger] draw_count(fin[i].ops, fin[i].ops.len() as int) > 0 by {
        if i < fin.len() - 1 {
            assert(fin[i] == s.pairs[i]);
        }
    }
}

/// An empty scene, as `new` and `discard` leave one, has no pair without a draw.
pub proof fn lemma_empty_scene_pairs_draw(s: SceneView)
    requires
        s.pairs.len() == 0,
    ensures
        pairs_all_draw(s),
{
}

} // verus!
