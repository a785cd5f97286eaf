//! Other-mode-L decoder: blender mux, depth mode, alpha compare and blend class.
use vstd::prelude::*;
use crate::consts::{
    AC_DITHER, AC_THRESHOLD, A_0, A_IN, B_0, B_1MA, CLR_FOG, CLR_IN, CLR_MEM, CVG_X_ALPHA, FORCE_BL,
    G_FOG, ZMODE_INTER, ZMODE_MASK, ZMODE_OPA, ZMODE_XLU, Z_CMP, Z_UPD,
};

verus! {

#[derive(Clone, Copy, Debug, PartialEq, Eq, Structural)]
pub enum BlendClass {
    Replace,
    AlphaOver,
    DualSrc,
}

#[derive(Clone, Copy, Debug, PartialEq, Eq, Structural)]
pub enum ZMode {
    Opa,
    Inter,
    Xlu,
    Decal,
}

#[derive(Clone, Copy, Debug, PartialEq, Eq, Structural)]
pub enum AlphaCompare {
    /// No alpha compare.
    Disabled,
    Threshold,
    Dither,
}

impl Default for BlendClass {
    fn default() -> (r: Self)
        ensures
            r == BlendClass::Replace,
    {
        BlendClass::Replace
    }
}

impl Default for ZMode {
    fn default() -> (r: Self)
        ensures
            r == ZMode::Opa,
    {
        ZMode::Opa
    }
}

impl Default for AlphaCompare {
    fn default() -> (r: Self)
        ensures
            r == AlphaCompare::Disabled,
    {
        AlphaCompare::Disabled
    }
}

/// Decoded other-mode-L word (plus the G_FOG geometry bit) for one draw run.
#[derive(Clone, Copy, Debug, PartialEq, Eq, Structural)]
pub struct RenderMode {
    pub blender_mux: u16,
    pub force_blend: bool,
    pub blend_class: BlendClass,
    pub fallback_class: BlendClass,
    /// The mode blends, but not with the canonical `M = CLR_MEM, B = 1MA, A = A_IN` lerp.
    pub non_canonical_blend: bool,
    pub z_test: bool,
    pub z_write: bool,
    pub z_mode: ZMode,
    pub fog: bool,
    pub alpha_compare: AlphaCompare,
    pub cvg_x_alpha: bool,
}

impl Default for RenderMode {
    fn default() -> (r: Self)
        ensures
            r == spec_decode_render_mode(0, 0, 0),
    {
        decode_render_mode(0, 0, 0)
    }
}

/// Whether a blender cycle with selectors (P, A, M, B) reads the framebuffer.
/// Without `all_inputs` only `P == CLR_MEM` counts; with it, `P == CLR_MEM` with a nonzero A,
/// or `M == CLR_MEM` with a nonzero B.
pub open spec fn spec_uses_alpha_blend(p: u32, a: u32, m: u32, b: u32, all_inputs: bool) -> bool {
    if !all_inputs {
        p == CLR_MEM
    } else {
        (p == CLR_MEM && a != A_0) || (m == CLR_MEM && b != B_0)
    }
}

fn uses_alpha_blend(p: u32, a: u32, m: u32, b: u32, all_inputs: bool) -> (r: bool)
    ensures
        r == spec_uses_alpha_blend(p, a, m, b, all_inputs),
{
    if !all_inputs {
        p == CLR_MEM
    } else {
        (p == CLR_MEM && a != A_0) || (m == CLR_MEM && b != B_0)
    }
}

/// Number of combiner cycles of a cycle type: two-cycle 2, one-cycle 1, copy and fill 0.
pub open spec fn combiner_cycle_count(cycle_type: u32) -> u32 {
    if cycle_type == 1 {
        2
    } else if cycle_type == 0 {
        1
    } else {
        0
    }
}

/// The framebuffer (last) blend cycle's selectors `(P, A, M, B)` of `mux`:
/// cycle 2 in two-cycle mode, cycle 1 otherwise.
pub open spec fn last_cycle_selectors(mux: u16, cycle_type: u32) -> (u32, u32, u32, u32) {
    let bi = mux as u32;
    if combiner_cycle_count(cycle_type) >= 2 {
        ((bi >> 12u32) & 3, (bi >> 8u32) & 3, (bi >> 4u32) & 3, bi & 3)
    } else {
        ((bi >> 14u32) & 3, (bi >> 10u32) & 3, (bi >> 6u32) & 3, (bi >> 2u32) & 3)
    }
}

/// `(blend_class, fallback_class, non_canonical_blend)` of a blender mux. The last cycle
/// counts every blender input exactly when FORCE_BL is set.
pub open spec fn spec_classify_blend(mux: u16, force_blend: bool, cycle_type: u32) -> (
    BlendClass,
    BlendClass,
    bool,
) {
    let (p, a, m, b) = last_cycle_selectors(mux, cycle_type);
    if spec_uses_alpha_blend(p, a, m, b, force_blend) {
        let canonical = p == CLR_IN && a == A_IN && m == CLR_MEM && b == B_1MA;
        (BlendClass::DualSrc, BlendClass::AlphaOver, !canonical)
    } else {
        (BlendClass::Replace, BlendClass::Replace, false)
    }
}

fn classify_blend(mux: u16, force_blend: bool, cycle_type: u32) -> (r: (
    BlendClass,
    BlendClass,
    bool,
))
    ensures
        r == spec_classify_blend(mux, force_blend, cycle_type),
{
    let bi = mux as u32;
    let cc: u32 = if cycle_type == 1 {
        2
    } else if cycle_type == 0 {
        1
    } else {
        0
    };
    let (p, a, m, b, second) = if cc >= 2 {
        ((bi >> 12u32) & 3, (bi >> 8u32) & 3, (bi >> 4u32) & 3, bi & 3, true)
    } else {
        ((bi >> 14u32) & 3, (bi >> 10u32) & 3, (bi >> 6u32) & 3, (bi >> 2u32) & 3, false)
    };
    let all_inputs = if second {
        force_blend
    } else {
        (cc >= 2) || force_blend
    };
    if uses_alpha_blend(p, a, m, b, all_inputs) {
        let canonical = p == CLR_IN && a == A_IN && m == CLR_MEM && b == B_1MA;
        (BlendClass::DualSrc, BlendClass::AlphaOver, !canonical)
    } else {
        (BlendClass::Replace, BlendClass::Replace, false)
    }
}

/// Whether the blender mux names CLR_FOG as a P or M source in either cycle.
pub open spec fn spec_fog_from_mux(mux: u16) -> bool {
    (mux >> 14u16) & 3 == CLR_FOG as u16 || (mux >> 6u16) & 3 == CLR_FOG as u16 || (mux >> 12u16)
        & 3 == CLR_FOG as u16 || (mux >> 4u16) & 3 == CLR_FOG as u16
}

pub open spec fn spec_z_mode(other_mode_l: u32) -> ZMode {
    let z = other_mode_l & ZMODE_MASK;
    if z == ZMODE_OPA {
        ZMode::Opa
    } else if z == ZMODE_INTER {
        ZMode::Inter
    } else if z == ZMODE_XLU {
        ZMode::Xlu
    } else {
        ZMode::Decal
    }
}

pub open spec fn spec_alpha_compare(other_mode_l: u32) -> AlphaCompare {
    let ac = other_mode_l & 3;
    if ac == AC_THRESHOLD {
        AlphaCompare::Threshold
    } else if ac == AC_DITHER {
        AlphaCompare::Dither
    } else {
        AlphaCompare::Disabled
    }
}

/// The render mode encoded by `other_mode_l`, with the cycle type from `other_mode_h`
/// bits [21:20] and the G_FOG bit from the geometry mode `geom`.
pub open spec fn spec_decode_render_mode(other_mode_l: u32, other_mode_h: u32, geom: u32) -> RenderMode {
    let cycle_type = (other_mode_h >> 20u32) & 3;
    let mux = ((other_mode_l >> 16u32) & 0xFFFF) as u16;
    let force_blend = other_mode_l & FORCE_BL != 0;
    let c = spec_classify_blend(mux, force_blend, cycle_type);
    RenderMode {
        blender_mux: mux,
        force_blend,
        blend_class: c.0,
        fallback_class: c.1,
        non_canonical_blend: c.2,
        z_test: other_mode_l & Z_CMP != 0,
        z_write: other_mode_l & Z_UPD != 0,
        z_mode: spec_z_mode(other_mode_l),
        fog: geom & G_FOG != 0 || spec_fog_from_mux(mux),
        alpha_compare: spec_alpha_compare(other_mode_l),
        cvg_x_alpha: other_mode_l & CVG_X_ALPHA != 0,
    }
}

/// Decodes the RDP other-mode-L word into a `RenderMode`; `geom` supplies the G_FOG bit.
pub fn decode_render_mode(other_mode_l: u32, other_mode_h: u32, geom: u32) -> (r: RenderMode)
    ensures
        r == spec_decode_render_mode(other_mode_l, other_mode_h, geom),
        // a blended mode always falls back to alpha-over; an unblended one replaces
        r.blend_class == BlendClass::DualSrc <==> r.fallback_class == BlendClass::AlphaOver,
        r.blend_class != BlendClass::AlphaOver,
        r.non_canonical_blend ==> r.blend_class == BlendClass::DualSrc,
        // the G_FOG geometry bit always makes a fog mode
        geom & G_FOG != 0 ==> r.fog,
        r.blender_mux as u32 == other_mode_l >> 16u32,
{
    let cycle_type = (other_mode_h >> 20u32) & 3;
    assert((other_mode_l >> 16u32) & 0xFFFF == other_mode_l >> 16u32) by (bit_vector);
    assert((other_mode_l >> 16u32) & 0xFFFF < 0x10000) by (bit_vector);
    let blender_mux = ((other_mode_l >> 16u32) & 0xFFFF) as u16;
    let zm = other_mode_l & ZMODE_MASK;
    let z_mode = if zm == ZMODE_OPA {
        ZMode::Opa
    } else if zm == ZMODE_INTER {
        ZMode::Inter
    } else if zm == ZMODE_XLU {
        ZMode::Xlu
    } else {
        ZMode::Decal
    };
    let ac = other_mode_l & 0x3;
    let alpha_compare = if ac == AC_THRESHOLD {
        AlphaCompare::Threshold
    } else if ac == AC_DITHER {
        AlphaCompare::Dither
    } else {
        AlphaCompare::Disabled
    };
    let force_blend = other_mode_l & FORCE_BL != 0;
    let fog_from_mux = (blender_mux >> 14u16) & 3 == CLR_FOG as u16 || (blender_mux >> 6u16) & 3
        == CLR_FOG as u16 || (blender_mux >> 12u16) & 3 == CLR_FOG as u16 || (blender_mux >> 4u16)
        & 3 == CLR_FOG as u16;
    let (blend_class, fallback_class, non_canonical_blend) = classify_blend(
        blender_mux,
        force_blend,
        cycle_type,
    );
    RenderMode {
        blender_mux,
        force_blend,
        blend_class,
        fallback_class,
        non_canonical_blend,
        z_test: other_mode_l & Z_CMP != 0,
        z_write: other_mode_l & Z_UPD != 0,
        z_mode,
        fog: (geom & G_FOG != 0) || fog_from_mux,
        alpha_compare,
        cvg_x_alpha: other_mode_l & CVG_X_ALPHA != 0,
    }
}


/// The other-mode-L bits as gbi.h lays them out: the Z mode is bits [11:10] (OPA 0,
/// INTER 1, XLU 2, DEC 3), Z_CMP bit 4, Z_UPD bit 5, CVG_X_ALPHA bit 12, FORCE_BL bit 14,
/// the blender mux bits [31:16], and the alpha compare bits [1:0] (1 threshold, 3 dither,
/// 0 and 2 none); G_FOG in the geometry mode turns fog on.
pub proof fn lemma_render_mode_fields(l: u32, h: u32, geom: u32)
    ensures
        (l & 0x0C00u32) == 0x0000u32 ==> spec_decode_render_mode(l, h, geom).z_mode == ZMode::Opa,
        (l & 0x0C00u32) == 0x0400u32 ==> spec_decode_render_mode(l, h, geom).z_mode == ZMode::Inter,
        (l & 0x0C00u32) == 0x0800u32 ==> spec_decode_render_mode(l, h, geom).z_mode == ZMode::Xlu,
        (l & 0x0C00u32) == 0x0C00u32 ==> spec_decode_render_mode(l, h, geom).z_mode == ZMode::Decal,
        spec_decode_render_mode(l, h, geom).z_test <==> (l & 0x0010u32) != 0,
        spec_decode_render_mode(l, h, geom).z_write <==> (l & 0x0020u32) != 0,
        spec_decode_render_mode(l, h, geom).cvg_x_alpha <==> (l & 0x1000u32) != 0,
        spec_decode_render_mode(l, h, geom).force_blend <==> (l & 0x4000u32) != 0,
        spec_decode_render_mode(l, h, geom).blender_mux as u32 == l >> 16u32,
        (l & 3u32) == 1u32 ==> spec_decode_render_mode(l, h, geom).alpha_compare == AlphaCompare::Threshold,
        (l & 3u32) == 3u32 ==> spec_decode_render_mode(l, h, geom).alpha_compare == AlphaCompare::Dither,
        (l & 3u32) == 0u32 || (l & 3u32) == 2u32 ==> spec_decode_render_mode(l, h, geom).alpha_compare
            == AlphaCompare::Disabled,
        (geom & 0x0001_0000u32) != 0 ==> spec_decode_render_mode(l, h, geom).fog,
{
    crate::rsp::lemma_bit_facts_bv(l, 0, 0, 0, 1, 0, 0, 0, 0, 0, 0);
}

} // verus!
