//! Color-combiner word decoder: one selector table per N64 RDP combiner slot.
//!
//! Convention: `combine_l = w0`, `combine_h = w1`. The decoded selectors serve the
//! unwired-selector diagnostic; the shader receives the raw words.
use vstd::prelude::*;
use vstd::arithmetic::power2::pow2;
pub use crate::texdec::decode_rgba16;
use crate::texdec::{FormatInfo, dims_fit, spec_decode, spec_tmem_bytes, decodable_format};
use crate::rdp::{Rdp, TileDescriptor};
use crate::rsp::Rsp;
use crate::interp::walk::{DiagKind, Diagnostic, KeyInput, ConvertInput};

verus! {

/// `n` bits of `v` starting at bit `pos`.
pub open spec fn spec_bits(v: u32, pos: u32, n: u32) -> u32 {
    (v >> pos) & (((1u32 << n) - 1) as u32)
}

/// Extracts `n` bits of `v` starting at bit `pos`.
pub fn bits(v: u32, pos: u32, n: u32) -> (r: u32)
    requires
        pos < 32,
        1 <= n < 32,
    ensures
        r == spec_bits(v, pos, n),
        r < (1u32 << n),
{
    assert((v >> pos) & (((1u32 << n) - 1) as u32) < (1u32 << n)) by (bit_vector)
        requires
            1 <= n < 32,
    ;
    (v >> pos) & ((1u32 << n) - 1)
}

/// Color combiner input selector of slots A, B, C and D.
#[derive(Clone, Copy, Debug, PartialEq, Eq, Structural)]
pub enum ColorIn {
    Combined,
    Texel0,
    Primitive,
    Shade,
    Environment,
    Zero,
    One,
    Texel1,
    KeyCenter,
    K4,
    KeyScale,
    CombinedAlpha,
    Texel0Alpha,
    Texel1Alpha,
    PrimitiveAlpha,
    ShadeAlpha,
    EnvAlpha,
    LodFraction,
    PrimLodFrac,
    K5,
    Noise,
}

/// Alpha combiner input selector.
#[derive(Clone, Copy, Debug, PartialEq, Eq, Structural)]
pub enum AlphaIn {
    Combined,
    Texel0,
    Primitive,
    Shade,
    Environment,
    Zero,
    One,
    Texel1,
    LodFraction,
    PrimLodFrac,
}

impl ColorIn {
    /// The color inputs the renderer draws; KEY_CENTER, K4, KEY_SCALE, COMBINED_ALPHA,
    /// PRIMITIVE_ALPHA, SHADE_ALPHA, ENV_ALPHA, K5 and NOISE are not drawn.
    pub open spec fn spec_wired(self) -> bool {
        match self {
            ColorIn::Combined | ColorIn::Texel0 | ColorIn::Shade | ColorIn::Primitive
            | ColorIn::Environment | ColorIn::Zero | ColorIn::One | ColorIn::Texel0Alpha
            | ColorIn::Texel1 | ColorIn::Texel1Alpha | ColorIn::LodFraction
            | ColorIn::PrimLodFrac => true,
            _ => false,
        }
    }

    /// Whether this selector is rendered.
    pub fn wired(self) -> (r: bool)
        ensures
            r == self.spec_wired(),
    {
        match self {
            ColorIn::Combined | ColorIn::Texel0 | ColorIn::Shade | ColorIn::Primitive
            | ColorIn::Environment | ColorIn::Zero | ColorIn::One | ColorIn::Texel0Alpha
            | ColorIn::Texel1 | ColorIn::Texel1Alpha | ColorIn::LodFraction
            | ColorIn::PrimLodFrac => true,
            _ => false,
        }
    }
}

impl AlphaIn {
    /// Every alpha input is drawn.
    pub open spec fn spec_wired(self) -> bool {
        true
    }

    /// Whether this selector is rendered.
    pub fn wired(self) -> (r: bool)
        ensures
            r == self.spec_wired(),
    {
        match self {
            AlphaIn::Combined | AlphaIn::Texel0 | AlphaIn::Shade | AlphaIn::Primitive
            | AlphaIn::Environment | AlphaIn::Zero | AlphaIn::One | AlphaIn::Texel1
            | AlphaIn::LodFraction | AlphaIn::PrimLodFrac => true,
        }
    }
}

/// The inputs shared by the A, B, C and D color slots at indices 0 to 5.
pub open spec fn common_color(i: u32) -> ColorIn {
    if i == 0 {
        ColorIn::Combined
    } else if i == 1 {
        ColorIn::Texel0
    } else if i == 2 {
        ColorIn::Texel1
    } else if i == 3 {
        ColorIn::Primitive
    } else if i == 4 {
        ColorIn::Shade
    } else {
        ColorIn::Environment
    }
}

/// Slot A: 4-bit index; 0-5 common, 6 ONE, 7 NOISE, else ZERO.
pub open spec fn spec_color_a(idx: u32) -> ColorIn {
    let i = idx & 0xF;
    if i <= 5 {
        common_color(i)
    } else if i == 6 {
        ColorIn::One
    } else if i == 7 {
        ColorIn::Noise
    } else {
        ColorIn::Zero
    }
}

/// Slot B: 4-bit index; 0-5 common, 6 KEY_CENTER, 7 K4, else ZERO.
pub open spec fn spec_color_b(idx: u32) -> ColorIn {
    let i = idx & 0xF;
    if i <= 5 {
        common_color(i)
    } else if i == 6 {
        ColorIn::KeyCenter
    } else if i == 7 {
        ColorIn::K4
    } else {
        ColorIn::Zero
    }
}

/// Slot C: 5-bit index; 0-5 common, 6 KEY_SCALE, 7 COMBINED_ALPHA, 8 TEXEL0_ALPHA,
/// 9 TEXEL1_ALPHA, 10 PRIMITIVE_ALPHA, 11 SHADE_ALPHA, 12 ENV_ALPHA, 13 LOD_FRACTION,
/// 14 PRIM_LOD_FRAC, 15 K5, else ZERO.
pub open spec fn spec_color_c(idx: u32) -> ColorIn {
    let i = idx & 0x1F;
    if i <= 5 {
        common_color(i)
    } else if i == 6 {
        ColorIn::KeyScale
    } else if i == 7 {
        ColorIn::CombinedAlpha
    } else if i == 8 {
        ColorIn::Texel0Alpha
    } else if i == 9 {
        ColorIn::Texel1Alpha
    } else if i == 10 {
        ColorIn::PrimitiveAlpha
    } else if i == 11 {
        ColorIn::ShadeAlpha
    } else if i == 12 {
        ColorIn::EnvAlpha
    } else if i == 13 {
        ColorIn::LodFraction
    } else if i == 14 {
        ColorIn::PrimLodFrac
    } else if i == 15 {
        ColorIn::K5
    } else {
        ColorIn::Zero
    }
}

/// Slot D: 3-bit index; 0-5 common, 6 ONE, 7 ZERO.
pub open spec fn spec_color_d(idx: u32) -> ColorIn {
    let i = idx & 0x7;
    if i <= 5 {
        common_color(i)
    } else if i == 6 {
        ColorIn::One
    } else {
        ColorIn::Zero
    }
}

/// The alpha inputs at indices 1 to 5, shared by all alpha slots.
pub open spec fn common_alpha(i: u32) -> AlphaIn {
    if i == 1 {
        AlphaIn::Texel0
    } else if i == 2 {
        AlphaIn::Texel1
    } else if i == 3 {
        AlphaIn::Primitive
    } else if i == 4 {
        AlphaIn::Shade
    } else {
        AlphaIn::Environment
    }
}

/// Alpha slots A, B and D: 3-bit index; 0 COMBINED, 1-5 common, 6 ONE, 7 ZERO.
pub open spec fn spec_alpha_abd(idx: u32) -> AlphaIn {
    let i = idx & 0x7;
    if i == 0 {
        AlphaIn::Combined
    } else if i <= 5 {
        common_alpha(i)
    } else if i == 6 {
        AlphaIn::One
    } else {
        AlphaIn::Zero
    }
}

/// Alpha slot C: 3-bit index; 0 LOD_FRACTION, 1-5 common, 6 PRIM_LOD_FRAC, 7 ZERO.
pub open spec fn spec_alpha_c(idx: u32) -> AlphaIn {
    let i = idx & 0x7;
    if i == 0 {
        AlphaIn::LodFraction
    } else if i <= 5 {
        common_alpha(i)
    } else if i == 6 {
        AlphaIn::PrimLodFrac
    } else {
        AlphaIn::Zero
    }
}

/// Color slot A selector of a 4-bit index.
pub fn color_a(idx: u32) -> (r: ColorIn)
    ensures
        r == spec_color_a(idx),
{
    match idx & 0xF {
        0 => ColorIn::Combined,
        1 => ColorIn::Texel0,
        2 => ColorIn::Texel1,
        3 => ColorIn::Primitive,
        4 => ColorIn::Shade,
        5 => ColorIn::Environment,
        6 => ColorIn::One,
        7 => ColorIn::Noise,
        _ => ColorIn::Zero,
    }
}

/// Color slot B selector of a 4-bit index.
pub fn color_b(idx: u32) -> (r: ColorIn)
    ensures
        r == spec_color_b(idx),
{
    match idx & 0xF {
        0 => ColorIn::Combined,
        1 => ColorIn::Texel0,
        2 => ColorIn::Texel1,
        3 => ColorIn::Primitive,
        4 => ColorIn::Shade,
        5 => ColorIn::Environment,
        6 => ColorIn::KeyCenter,
        7 => ColorIn::K4,
        _ => ColorIn::Zero,
    }
}

/// Color slot C selector of a 5-bit index.
pub fn color_c(idx: u32) -> (r: ColorIn)
    ensures
        r == spec_color_c(idx),
{
    match idx & 0x1F {
        0 => ColorIn::Combined,
        1 => ColorIn::Texel0,
        2 => ColorIn::Texel1,
        3 => ColorIn::Primitive,
        4 => ColorIn::Shade,
        5 => ColorIn::Environment,
        6 => ColorIn::KeyScale,
        7 => ColorIn::CombinedAlpha,
        8 => ColorIn::Texel0Alpha,
        9 => ColorIn::Texel1Alpha,
        10 => ColorIn::PrimitiveAlpha,
        11 => ColorIn::ShadeAlpha,
        12 => ColorIn::EnvAlpha,
        13 => ColorIn::LodFraction,
        14 => ColorIn::PrimLodFrac,
        15 => ColorIn::K5,
        _ => ColorIn::Zero,
    }
}

/// Color slot D selector of a 3-bit index.
pub fn color_d(idx: u32) -> (r: ColorIn)
    ensures
        r == spec_color_d(idx),
{
    match idx & 0x7 {
        0 => ColorIn::Combined,
        1 => ColorIn::Texel0,
        2 => ColorIn::Texel1,
        3 => ColorIn::Primitive,
        4 => ColorIn::Shade,
        5 => ColorIn::Environment,
        6 => ColorIn::One,
        _ => ColorIn::Zero,
    }
}

/// Alpha slot A, B or D selector of a 3-bit index.
pub fn alpha_abd(idx: u32) -> (r: AlphaIn)
    ensures
        r == spec_alpha_abd(idx),
{
    match idx & 0x7 {
        0 => AlphaIn::Combined,
        1 => AlphaIn::Texel0,
        2 => AlphaIn::Texel1,
        3 => AlphaIn::Primitive,
        4 => AlphaIn::Shade,
        5 => AlphaIn::Environment,
        6 => AlphaIn::One,
        _ => AlphaIn::Zero,
    }
}

/// Alpha slot C selector of a 3-bit index.
pub fn alpha_c(idx: u32) -> (r: AlphaIn)
    ensures
        r == spec_alpha_c(idx),
{
    match idx & 0x7 {
        0 => AlphaIn::LodFraction,
        1 => AlphaIn::Texel0,
        2 => AlphaIn::Texel1,
        3 => AlphaIn::Primitive,
        4 => AlphaIn::Shade,
        5 => AlphaIn::Environment,
        6 => AlphaIn::PrimLodFrac,
        _ => AlphaIn::Zero,
    }
}

/// Whether the color slot A and B inputs `a_idx`, `b_idx` are treated as the same value in
/// every state, so that their difference term cancels: equal common indices 0-5, or
/// `a_idx >= 7` together with `b_idx >= 6`, which the renderer resolves to zero on both sides.
pub fn color_ab_provably_equal(a_idx: u32, b_idx: u32) -> (r: bool)
    ensures
        r == ((a_idx == b_idx && a_idx <= 5) || (a_idx >= 7 && b_idx >= 6)),
{
    (a_idx == b_idx && a_idx <= 5) || (a_idx >= 7 && b_idx >= 6)
}


/// One cycle's decoded selectors.
#[derive(Clone, Copy, Debug, PartialEq, Eq, Structural)]
pub struct CycleSel {
    pub ca: ColorIn,
    pub cb: ColorIn,
    pub cc: ColorIn,
    pub cd: ColorIn,
    pub aa: AlphaIn,
    pub ab: AlphaIn,
    pub ac: AlphaIn,
    pub ad: AlphaIn,
}

/// Both cycles' decoded selectors, plus the raw words for the shader.
#[derive(Clone, Copy, Debug, PartialEq, Eq, Structural)]
pub struct CombinerSelectors {
    /// Raw w0, passed to the shader.
    pub raw_l: u32,
    /// Raw w1, passed to the shader.
    pub raw_h: u32,
    pub cyc0: CycleSel,
    pub cyc1: CycleSel,
}

/// 1 when `b` holds, else 0.
pub open spec fn flag(b: bool) -> int {
    if b {
        1
    } else {
        0
    }
}

/// The name of slot `k`: CA, CB, CC, CD, AA, AB, AC, AD for k = 0..7.
pub open spec fn slot_name(k: int) -> &'static str {
    if k == 0 {
        "CA"
    } else if k == 1 {
        "CB"
    } else if k == 2 {
        "CC"
    } else if k == 3 {
        "CD"
    } else if k == 4 {
        "AA"
    } else if k == 5 {
        "AB"
    } else if k == 6 {
        "AC"
    } else {
        "AD"
    }
}

/// Setting a single bit `b` of a value below `b` adds `b`.
proof fn lemma_set_free_bit(m: u16, b: u16)
    requires
        b == 1 || b == 2 || b == 4 || b == 8 || b == 16 || b == 32 || b == 64 || b == 128,
        m < b,
    ensures
        m | b == m + b,
{
    assert(m | b == m + b) by (bit_vector)
        requires
            b == 1 || b == 2 || b == 4 || b == 8 || b == 16 || b == 32 || b == 64 || b == 128,
            m < b,
    ;
}

impl CycleSel {
    /// Whether slot `k` (0 = CA ... 7 = AD) holds a drawn selector.
    pub open spec fn slot_wired(self, k: int) -> bool {
        if k == 0 {
            self.ca.spec_wired()
        } else if k == 1 {
            self.cb.spec_wired()
        } else if k == 2 {
            self.cc.spec_wired()
        } else if k == 3 {
            self.cd.spec_wired()
        } else if k == 4 {
            self.aa.spec_wired()
        } else if k == 5 {
            self.ab.spec_wired()
        } else if k == 6 {
            self.ac.spec_wired()
        } else {
            self.ad.spec_wired()
        }
    }

    /// Whether slot `k` selects TEXEL1 (TEXEL1_ALPHA too in slot CC).
    pub open spec fn slot_texel1(self, k: int) -> bool {
        if k == 0 {
            self.ca == ColorIn::Texel1
        } else if k == 1 {
            self.cb == ColorIn::Texel1
        } else if k == 2 {
            self.cc == ColorIn::Texel1 || self.cc == ColorIn::Texel1Alpha
        } else if k == 3 {
            self.cd == ColorIn::Texel1
        } else if k == 4 {
            self.aa == AlphaIn::Texel1
        } else if k == 5 {
            self.ab == AlphaIn::Texel1
        } else if k == 6 {
            self.ac == AlphaIn::Texel1
        } else {
            self.ad == AlphaIn::Texel1
        }
    }

    /// The names of the unwired slots among the first `k`, in slot order.
    pub open spec fn unwired_names(self, k: int) -> Seq<&'static str>
        decreases k,
    {
        if k <= 0 {
            seq![]
        } else if self.slot_wired(k - 1) {
            self.unwired_names(k - 1)
        } else {
            self.unwired_names(k - 1).push(slot_name(k - 1))
        }
    }

    /// Bitmask with bit `k` set for each unwired slot `k`.
    pub open spec fn spec_unwired_mask(self) -> int {
        flag(!self.slot_wired(0)) + 2 * flag(!self.slot_wired(1)) + 4 * flag(!self.slot_wired(2))
            + 8 * flag(!self.slot_wired(3)) + 16 * flag(!self.slot_wired(4)) + 32 * flag(
            !self.slot_wired(5),
        ) + 64 * flag(!self.slot_wired(6)) + 128 * flag(!self.slot_wired(7))
    }

    /// Bitmask with bit `k` set for each slot `k` that selects TEXEL1.
    pub open spec fn spec_texel1_mask(self) -> int {
        flag(self.slot_texel1(0)) + 2 * flag(self.slot_texel1(1)) + 4 * flag(self.slot_texel1(2))
            + 8 * flag(self.slot_texel1(3)) + 16 * flag(self.slot_texel1(4)) + 32 * flag(
            self.slot_texel1(5),
        ) + 64 * flag(self.slot_texel1(6)) + 128 * flag(self.slot_texel1(7))
    }

    /// The slot names (`"CA"`, `"CB"`, ...) of the unwired selectors in this cycle, in slot order.
    pub fn unwired(&self) -> (r: Vec<&'static str>)
        ensures
            r@ == self.unwired_names(8),
    {
        let mut out: Vec<&'static str> = Vec::new();
        assert(out@ =~= self.unwired_names(0));
        if !self.ca.wired() {
            out.push("CA");
        }
        assert(out@ =~= self.unwired_names(1));
        if !self.cb.wired() {
            out.push("CB");
        }
        assert(out@ =~= self.unwired_names(2));
        if !self.cc.wired() {
            out.push("CC");
        }
        assert(out@ =~= self.unwired_names(3));
        if !self.cd.wired() {
            out.push("CD");
        }
        assert(out@ =~= self.unwired_names(4));
        if !self.aa.wired() {
            out.push("AA");
        }
        assert(out@ =~= self.unwired_names(5));
        if !self.ab.wired() {
            out.push("AB");
        }
        assert(out@ =~= self.unwired_names(6));
        if !self.ac.wired() {
            out.push("AC");
        }
        assert(out@ =~= self.unwired_names(7));
        if !self.ad.wired() {
            out.push("AD");
        }
        assert(out@ =~= self.unwired_names(8));
        out
    }

    /// Bitmask of the unwired slots (bit 0 = CA ... bit 7 = AD, the order of `unwired`).
    pub fn unwired_mask(&self) -> (r: u16)
        ensures
            r as int == self.spec_unwired_mask(),
    {
        let mut m: u16 = 0;
        if !self.ca.wired() {
            proof { lemma_set_free_bit(m, 1); }
            m = m | 1;
        }
        if !self.cb.wired() {
            proof { lemma_set_free_bit(m, 2); }
            m = m | 2;
        }
        if !self.cc.wired() {
            proof { lemma_set_free_bit(m, 4); }
            m = m | 4;
        }
        if !self.cd.wired() {
            proof { lemma_set_free_bit(m, 8); }
            m = m | 8;
        }
        if !self.aa.wired() {
            proof { lemma_set_free_bit(m, 16); }
            m = m | 16;
        }
        if !self.ab.wired() {
            proof { lemma_set_free_bit(m, 32); }
            m = m | 32;
        }
        if !self.ac.wired() {
            proof { lemma_set_free_bit(m, 64); }
            m = m | 64;
        }
        if !self.ad.wired() {
            proof { lemma_set_free_bit(m, 128); }
            m = m | 128;
        }
        m
    }

    /// Bitmask of the slots that select TEXEL1 or TEXEL1_ALPHA (bit order of `unwired_mask`).
    pub fn texel1_mask(&self) -> (r: u16)
        ensures
            r as int == self.spec_texel1_mask(),
    {
        let mut m: u16 = 0;
        if self.ca == ColorIn::Texel1 {
            proof { lemma_set_free_bit(m, 1); }
            m = m | 1;
        }
        if self.cb == ColorIn::Texel1 {
            proof { lemma_set_free_bit(m, 2); }
            m = m | 2;
        }
        if self.cc == ColorIn::Texel1 || self.cc == ColorIn::Texel1Alpha {
            proof { lemma_set_free_bit(m, 4); }
            m = m | 4;
        }
        if self.cd == ColorIn::Texel1 {
            proof { lemma_set_free_bit(m, 8); }
            m = m | 8;
        }
        if self.aa == AlphaIn::Texel1 {
            proof { lemma_set_free_bit(m, 16); }
            m = m | 16;
        }
        if self.ab == AlphaIn::Texel1 {
            proof { lemma_set_free_bit(m, 32); }
            m = m | 32;
        }
        if self.ac == AlphaIn::Texel1 {
            proof { lemma_set_free_bit(m, 64); }
            m = m | 64;
        }
        if self.ad == AlphaIn::Texel1 {
            proof { lemma_set_free_bit(m, 128); }
            m = m | 128;
        }
        m
    }
}


/// Selectors of one cycle. Cycle 0: color `a=L[20,4] b=H[28,4] c=L[15,5] d=H[15,3]`,
/// alpha `a=L[12,3] b=H[12,3] c=L[9,3] d=H[9,3]`. Cycle 1: color `a=L[5,4] b=H[24,4]
/// c=L[0,5] d=H[6,3]`, alpha `a=H[21,3] b=H[3,3] c=H[18,3] d=H[0,3]`.
pub open spec fn spec_decode_cycle(l: u32, h: u32, second: bool) -> CycleSel {
    if !second {
        CycleSel {
            ca: spec_color_a(spec_bits(l, 20, 4)),
            cb: spec_color_b(spec_bits(h, 28, 4)),
            cc: spec_color_c(spec_bits(l, 15, 5)),
            cd: spec_color_d(spec_bits(h, 15, 3)),
            aa: spec_alpha_abd(spec_bits(l, 12, 3)),
            ab: spec_alpha_abd(spec_bits(h, 12, 3)),
            ac: spec_alpha_c(spec_bits(l, 9, 3)),
            ad: spec_alpha_abd(spec_bits(h, 9, 3)),
        }
    } else {
        CycleSel {
            ca: spec_color_a(spec_bits(l, 5, 4)),
            cb: spec_color_b(spec_bits(h, 24, 4)),
            cc: spec_color_c(spec_bits(l, 0, 5)),
            cd: spec_color_d(spec_bits(h, 6, 3)),
            aa: spec_alpha_abd(spec_bits(h, 21, 3)),
            ab: spec_alpha_abd(spec_bits(h, 3, 3)),
            ac: spec_alpha_c(spec_bits(h, 18, 3)),
            ad: spec_alpha_abd(spec_bits(h, 0, 3)),
        }
    }
}

fn decode_cycle(l: u32, h: u32, second: bool) -> (r: CycleSel)
    ensures
        r == spec_decode_cycle(l, h, second),
{
    if !second {
        CycleSel {
            ca: color_a(bits(l, 20, 4)),
            cb: color_b(bits(h, 28, 4)),
            cc: color_c(bits(l, 15, 5)),
            cd: color_d(bits(h, 15, 3)),
            aa: alpha_abd(bits(l, 12, 3)),
            ab: alpha_abd(bits(h, 12, 3)),
            ac: alpha_c(bits(l, 9, 3)),
            ad: alpha_abd(bits(h, 9, 3)),
        }
    } else {
        CycleSel {
            ca: color_a(bits(l, 5, 4)),
            cb: color_b(bits(h, 24, 4)),
            cc: color_c(bits(l, 0, 5)),
            cd: color_d(bits(h, 6, 3)),
            aa: alpha_abd(bits(h, 21, 3)),
            ab: alpha_abd(bits(h, 3, 3)),
            ac: alpha_c(bits(h, 18, 3)),
            ad: alpha_abd(bits(h, 0, 3)),
        }
    }
}

/// Both cycles of the combine words `(w0, w1)`, with the raw words.
pub open spec fn spec_decode_combine(w0: u32, w1: u32) -> CombinerSelectors {
    CombinerSelectors {
        raw_l: w0,
        raw_h: w1,
        cyc0: spec_decode_cycle(w0, w1, false),
        cyc1: spec_decode_cycle(w0, w1, true),
    }
}

/// Decodes both cycles from the raw combine words (`combine_l = w0`, `combine_h = w1`).
pub fn decode_combine(w0: u32, w1: u32) -> (r: CombinerSelectors)
    ensures
        r == spec_decode_combine(w0, w1),
        r.raw_l == w0 && r.raw_h == w1,
{
    CombinerSelectors {
        raw_l: w0,
        raw_h: w1,
        cyc0: decode_cycle(w0, w1, false),
        cyc1: decode_cycle(w0, w1, true),
    }
}

/// Whether a cycle references TEXEL0 (TEXEL0_ALPHA in slot CC too) in any slot.
pub open spec fn spec_cycle_uses_texel0(c: CycleSel) -> bool {
    c.ca == ColorIn::Texel0 || c.cb == ColorIn::Texel0 || c.cc == ColorIn::Texel0 || c.cc
        == ColorIn::Texel0Alpha || c.cd == ColorIn::Texel0 || c.aa == AlphaIn::Texel0 || c.ab
        == AlphaIn::Texel0 || c.ac == AlphaIn::Texel0 || c.ad == AlphaIn::Texel0
}

/// Whether a cycle references TEXEL0 in any color or alpha slot.
pub fn cycle_uses_texel0(c: &CycleSel) -> (r: bool)
    ensures
        r == spec_cycle_uses_texel0(*c),
{
    c.ca == ColorIn::Texel0 || c.cb == ColorIn::Texel0 || c.cc == ColorIn::Texel0 || c.cc
        == ColorIn::Texel0Alpha || c.cd == ColorIn::Texel0 || c.aa == AlphaIn::Texel0 || c.ab
        == AlphaIn::Texel0 || c.ac == AlphaIn::Texel0 || c.ad == AlphaIn::Texel0
}

/// Whether the combine words reference TEXEL0 in cycle 1, the one-cycle slot.
pub fn combiner_uses_texel0(combine_l: u32, combine_h: u32) -> (r: bool)
    ensures
        r == spec_cycle_uses_texel0(spec_decode_combine(combine_l, combine_h).cyc1),
{
    cycle_uses_texel0(&decode_combine(combine_l, combine_h).cyc1)
}

/// Whether a cycle references TEXEL1 or TEXEL1_ALPHA in any slot.
pub fn cyc_sel_uses_texel1(c: &CycleSel) -> (r: bool)
    ensures
        r == (c.spec_texel1_mask() != 0),
        r == exists|k: int| 0 <= k < 8 && c.slot_texel1(k),
{
    let m = c.texel1_mask();
    if m != 0 {
        assert(c.slot_texel1(0) || c.slot_texel1(1) || c.slot_texel1(2) || c.slot_texel1(3)
            || c.slot_texel1(4) || c.slot_texel1(5) || c.slot_texel1(6) || c.slot_texel1(7));
    } else {
        assert forall|k: int| 0 <= k < 8 implies !c.slot_texel1(k) by {
            if k == 0 {} else if k == 1 {} else if k == 2 {} else if k == 3 {}
            else if k == 4 {} else if k == 5 {} else if k == 6 {} else {}
        }
    }
    m != 0
}

/// Whether the second texture (tile base+1) is sampled: only in two-cycle mode
/// (`cycle_type == 1`), when cycle 0 references TEXEL1 or cycle 1 references TEXEL0, which
/// reads the second texture under the two-cycle TEXEL0/TEXEL1 role swap.
pub open spec fn spec_cycle_uses_texel1(sel: CombinerSelectors, cycle_type: u32) -> bool {
    cycle_type == 1 && (sel.cyc0.spec_texel1_mask() != 0 || spec_cycle_uses_texel0(sel.cyc1))
}

/// Whether the second texture is sampled; always false outside two-cycle mode.
pub fn cycle_uses_texel1(sel: &CombinerSelectors, cycle_type: u32) -> (r: bool)
    ensures
        r == spec_cycle_uses_texel1(*sel, cycle_type),
        cycle_type != 1 ==> !r,
{
    if cycle_type != 1 {
        return false;
    }
    cyc_sel_uses_texel1(&sel.cyc0) || cycle_uses_texel0(&sel.cyc1)
}

/// A cycle lists no unwired slot names exactly when its unwired mask is zero.
pub proof fn lemma_unwired_names_match_mask(c: CycleSel)
    ensures
        (c.unwired_names(8).len() == 0) <==> (c.spec_unwired_mask() == 0),
        c.unwired_names(8).len() <= 8,
{
    reveal_with_fuel(CycleSel::unwired_names, 9);
}

/// The number of one bits among the low `n` bits of `m`.
pub open spec fn bit_count(m: int, n: nat) -> int
    decreases n,
{
    if n == 0 {
        0
    } else {
        m % 2 + bit_count(m / 2, (n - 1) as nat)
    }
}

/// Number of unwired slots among the first `k`.
pub open spec fn unwired_count(c: CycleSel, k: int) -> int
    decreases k,
{
    if k <= 0 {
        0
    } else {
        unwired_count(c, k - 1) + flag(!c.slot_wired(k - 1))
    }
}

proof fn lemma_unwired_names_len(c: CycleSel, k: int)
    requires
        0 <= k <= 8,
    ensures
        c.unwired_names(k).len() == unwired_count(c, k),
    decreases k,
{
    if k > 0 {
        lemma_unwired_names_len(c, k - 1);
    }
}

/// A slot's name is listed among the first `k` unwired names exactly when the slot is one of
/// the first `k` and unwired.
proof fn lemma_unwired_names_contains(c: CycleSel, k: int, j: int)
    requires
        0 <= k <= 8,
        0 <= j < 8,
    ensures
        c.unwired_names(k).contains(slot_name(j)) <==> (j < k && !c.slot_wired(j)),
    decreases k,
{
    reveal_strlit("CA");
    reveal_strlit("CB");
    reveal_strlit("CC");
    reveal_strlit("CD");
    reveal_strlit("AA");
    reveal_strlit("AB");
    reveal_strlit("AC");
    reveal_strlit("AD");
    if k > 0 {
        lemma_unwired_names_contains(c, k - 1, j);
        if !c.slot_wired(k - 1) {
            let prev = c.unwired_names(k - 1);
            assert(c.unwired_names(k) == prev.push(slot_name(k - 1)));
            if j == k - 1 {
                assert(c.unwired_names(k)[prev.len() as int] == slot_name(j));
            } else {
                assert(slot_name(k - 1) != slot_name(j));
                if c.unwired_names(k).contains(slot_name(j)) {
                    let i = choose|i: int| 0 <= i < c.unwired_names(k).len() && c.unwired_names(k)[i] == slot_name(j);
                    assert(i < prev.len());
                    assert(prev[i] == slot_name(j));
                }
                if prev.contains(slot_name(j)) {
                    let i = choose|i: int| 0 <= i < prev.len() && prev[i] == slot_name(j);
                    assert(c.unwired_names(k)[i] == slot_name(j));
                }
            }
        }
    }
}

/// The unwired mask has bit `k` set exactly when slot `k` (CA, CB, CC, CD, AA, AB, AC, AD) is
/// among `unwired`'s names; it is below 256, and its one bits are as many as the names.
pub proof fn lemma_unwired_mask_slots(c: CycleSel)
    ensures
        forall|k: int| 0 <= k < 8 ==> ((c.spec_unwired_mask() / pow2(k as nat) as int) % 2 == 1
            <==> #[trigger] c.unwired_names(8).contains(slot_name(k))),
        0 <= c.spec_unwired_mask() < 256,
        bit_count(c.spec_unwired_mask(), 8) == c.unwired_names(8).len(),
{
    let m = c.spec_unwired_mask();
    let f0 = flag(!c.slot_wired(0));
    let f1 = flag(!c.slot_wired(1));
    let f2 = flag(!c.slot_wired(2));
    let f3 = flag(!c.slot_wired(3));
    let f4 = flag(!c.slot_wired(4));
    let f5 = flag(!c.slot_wired(5));
    let f6 = flag(!c.slot_wired(6));
    let f7 = flag(!c.slot_wired(7));
    assert(m == f0 + 2 * f1 + 4 * f2 + 8 * f3 + 16 * f4 + 32 * f5 + 64 * f6 + 128 * f7);
    vstd::arithmetic::power2::lemma2_to64();
    assert(m / 1 % 2 == f0 && m / 2 % 2 == f1 && m / 4 % 2 == f2 && m / 8 % 2 == f3 && m / 16 % 2 == f4
        && m / 32 % 2 == f5 && m / 64 % 2 == f6 && m / 128 % 2 == f7) by (nonlinear_arith)
        requires
            m == f0 + 2 * f1 + 4 * f2 + 8 * f3 + 16 * f4 + 32 * f5 + 64 * f6 + 128 * f7,
            0 <= f0 <= 1, 0 <= f1 <= 1, 0 <= f2 <= 1, 0 <= f3 <= 1,
            0 <= f4 <= 1, 0 <= f5 <= 1, 0 <= f6 <= 1, 0 <= f7 <= 1,
    ;
    assert forall|k: int| 0 <= k < 8 implies ((m / pow2(k as nat) as int) % 2 == 1
        <==> #[trigger] c.unwired_names(8).contains(slot_name(k))) by {
        lemma_unwired_names_contains(c, 8, k);
    }
    lemma_unwired_names_len(c, 8);
    assert(bit_count(m, 8) == f0 + f1 + f2 + f3 + f4 + f5 + f6 + f7) by {
        reveal_with_fuel(bit_count, 9);
        assert(m % 2 == f0 && m / 2 % 2 == f1 && m / 2 / 2 % 2 == f2 && m / 2 / 2 / 2 % 2 == f3
            && m / 2 / 2 / 2 / 2 % 2 == f4 && m / 2 / 2 / 2 / 2 / 2 % 2 == f5
            && m / 2 / 2 / 2 / 2 / 2 / 2 % 2 == f6 && m / 2 / 2 / 2 / 2 / 2 / 2 / 2 % 2 == f7)
            by (nonlinear_arith)
            requires
                m == f0 + 2 * f1 + 4 * f2 + 8 * f3 + 16 * f4 + 32 * f5 + 64 * f6 + 128 * f7,
                0 <= f0 <= 1, 0 <= f1 <= 1, 0 <= f2 <= 1, 0 <= f3 <= 1,
                0 <= f4 <= 1, 0 <= f5 <= 1, 0 <= f6 <= 1, 0 <= f7 <= 1,
        ;
    }
    reveal_with_fuel(unwired_count, 9);
}

/// The hardware's maximum LOD level count: the G_TEXTURE `level` field is 3 bits, so
/// `level + 1` is at most 8.
pub const MAX_LOD_LEVELS: u32 = 8;

/// `s` cut or zero-padded to exactly `n` bytes.
pub open spec fn fit_to(s: Seq<u8>, n: int) -> Seq<u8> {
    if s.len() >= n {
        s.subrange(0, n)
    } else {
        s + Seq::new((n - s.len()) as nat, |i: int| 0u8)
    }
}

/// Whether a tile's row of `tex_w` texels at size code `siz` is a whole number of
/// 64-bit words: `((tex_w << siz) >> 1) % 8 == 0`.
pub open spec fn rows_word_aligned(tex_w: u32, siz: u8) -> bool {
    (((tex_w as u64) << (siz as u64)) >> 1u64) % 8 == 0
}

/// The formats the byte-addressable TMEM sampler handles: RGBA16/32, I8/I4, IA16/8/4,
/// CI4/CI8.
pub open spec fn faithful_format(fmt: u8, siz: u8) -> bool {
    (fmt == 0 && siz == 2) || (fmt == 0 && siz == 3) || (fmt == 4 && siz == 1) || (fmt == 4
        && siz == 0) || (fmt == 3 && siz == 2) || (fmt == 3 && siz == 1) || (fmt == 3 && siz
        == 0) || (fmt == 2 && siz == 0) || (fmt == 2 && siz == 1)
}

/// Whether `tile` decodes through the byte-addressable TMEM sampler rather than the linear
/// decoder: its format must be one the sampler handles, and either its rows are whole
/// 64-bit words (a LoadBlock's read and write swaps then cancel) or the bank was filled by a
/// LoadTile, which writes a genuine per-row stride. A second texture that fails this test
/// must not be drawn: the linear decoder ignores the tile's TMEM address.
pub fn tile_takes_faithful_path(rdp: &Rdp, tile: &TileDescriptor, tex_w: u32) -> (r: bool)
    ensures
        r == (faithful_format(tile.fmt, tile.siz) && (rows_word_aligned(tex_w, tile.siz)
            || rdp.load_via_tile)),
{
    let f = tile.fmt;
    let z = tile.siz;
    let format_ok = (f == 0 && z == 2) || (f == 0 && z == 3) || (f == 4 && z == 1) || (f == 4
        && z == 0) || (f == 3 && z == 2) || (f == 3 && z == 1) || (f == 3 && z == 0) || (f == 2
        && z == 0) || (f == 2 && z == 1);
    if !format_ok {
        return false;
    }
    let line_bytes = ((tex_w as u64) << (tile.siz as u64)) >> 1u64;
    line_bytes % 8 == 0 || rdp.load_via_tile
}

/// Linear decode of `tile` (`tex_w × tex_h`) from the linear copy of the last load, for
/// tiles the TMEM sampler does not take: the copy is cut, or zero-padded, to the TMEM size
/// of the tile's format, then decoded with the palette `tlut`. For a format with a decoder
/// of its own the result is always `tex_w × tex_h × 4` bytes, however short the copy was.
pub fn decode_tile_linear(
    rdp: &Rdp,
    tile: &TileDescriptor,
    tex_w: u32,
    tex_h: u32,
    tlut: &[u8],
    tlut_fmt: u8,
) -> (r: Vec<u8>)
    requires
        dims_fit(tex_w, tex_h),
        (tex_w as int) * (tex_h as int) * 8 <= usize::MAX,
    ensures
        r@ == spec_decode(
            tile.fmt,
            tile.siz,
            fit_to(rdp.tmem@, spec_tmem_bytes(tile.siz, (tex_w as int) * (tex_h as int))),
            tex_w,
            tex_h,
            tlut@,
            tile.palette,
            tlut_fmt,
        ),
        decodable_format(tile.fmt, tile.siz) ==> r@.len() == (tex_w as int) * (tex_h as int) * 4,
{
    let fi = FormatInfo { fmt: tile.fmt, siz: tile.siz };
    let needed = fi.tmem_bytes(tex_w, tex_h);
    let ghost n = (tex_w as int) * (tex_h as int);
    if rdp.tmem.len() >= needed {
        let src = &rdp.tmem.as_slice()[0..needed];
        assert(src@ =~= fit_to(rdp.tmem@, needed as int));
        let r = fi.decode(src, tex_w, tex_h, tlut, tile.palette, tlut_fmt);
        r
    } else {
        let mut padded = rdp.tmem.clone();
        padded.resize(needed, 0u8);
        assert(padded@ =~= fit_to(rdp.tmem@, needed as int));
        let r = fi.decode(padded.as_slice(), tex_w, tex_h, tlut, tile.palette, tlut_fmt);
        r
    }
}

/// A texture a material binds: the tile it samples, the tile's extent (each at least 1),
/// and whether it decodes through the TMEM bank sampler (otherwise the linear decoder,
/// `decode_tile_linear`).
#[derive(Clone, Copy, Debug, PartialEq, Eq, Structural)]
pub struct TextureRef {
    pub tile: u8,
    pub w: u32,
    pub h: u32,
    pub faithful: bool,
}

/// The second texture (TEXEL1) of a two-cycle two-texture combiner.
#[derive(Clone, Copy, Debug, PartialEq, Eq, Structural)]
pub struct Tex1 {
    pub texture: TextureRef,
    pub tex_w: u32,
    pub tex_h: u32,
    /// Wrap mode of the TEXEL1 tile (cms/cmt): 0 = WRAP, 1 = MIRROR, 2 = CLAMP.
    pub wrap_s: u8,
    pub wrap_t: u8,
    pub fmt: u8,
    pub siz: u8,
}

/// What a draw binds: its texture(s), combiner, colors and LOD levels.
#[derive(Clone, Debug)]
pub struct Material {
    /// The first texture; `None` for a textureless combiner (a 1×1 placeholder is bound).
    pub texture: Option<TextureRef>,
    pub tex_w: u32,
    pub tex_h: u32,
    pub selectors: CombinerSelectors,
    /// Cycle type (other-mode H bits 21:20): 0 one-cycle, 1 two-cycle.
    pub cycle_type: u32,
    pub prim: [u8; 4],
    pub env: [u8; 4],
    /// Whether the first texture is sampled (G_TEXTURE on and the combiner reads it).
    pub tex_enable: bool,
    pub wrap_s: u8,
    pub wrap_t: u8,
    pub fmt: u8,
    pub siz: u8,
    pub blend_color: [u8; 4],
    /// 2: two textures; 1: one; 0: textureless.
    pub tile_count: u8,
    pub tex1: Option<Tex1>,
    /// Raw primitive LOD fraction (`/256`) and minimum level (`/32`).
    pub prim_lod_frac: u8,
    pub prim_min_level: u8,
    pub lod: bool,
    pub num_levels: u8,
    pub text_detail: u8,
    /// One texture per LOD level, from consecutive tiles.
    pub mip_levels: Vec<TextureRef>,
    /// The detail texture (tile 0) in detail mode.
    pub detail_tex: Option<TextureRef>,
}

/// Whether a color selector is one the renderer draws in any slot: all but NOISE,
/// KEY_CENTER, K4, KEY_SCALE, COMBINED_ALPHA and K5.
pub open spec fn spec_color_supported(c: ColorIn) -> bool {
    !(c == ColorIn::Noise || c == ColorIn::KeyCenter || c == ColorIn::K4 || c == ColorIn::KeyScale
        || c == ColorIn::CombinedAlpha || c == ColorIn::K5)
}

fn color_supported(c: ColorIn) -> (r: bool)
    ensures
        r == spec_color_supported(c),
{
    !(c == ColorIn::Noise || c == ColorIn::KeyCenter || c == ColorIn::K4 || c == ColorIn::KeyScale
        || c == ColorIn::CombinedAlpha || c == ColorIn::K5)
}

/// Why slot `k` of a cycle refuses a draw.
#[derive(Clone, Copy, Debug, PartialEq, Eq, Structural)]
pub enum SlotFault {
    NoFault,
    Key(KeyInput),
    Convert(ConvertInput),
    Unsupported,
}

/// The fault of slot `k` (0 = CA ... 7 = AD): the key and convert inputs by name, any other
/// color selector the renderer does not draw, and, in one-cycle mode, a TEXEL1 reference.
pub open spec fn spec_slot_fault(c: CycleSel, k: int, one_cycle: bool) -> SlotFault {
    let color = if k == 0 { c.ca } else if k == 1 { c.cb } else if k == 2 { c.cc } else { c.cd };
    if k < 4 && color == ColorIn::KeyCenter {
        SlotFault::Key(KeyInput::Center)
    } else if k < 4 && color == ColorIn::KeyScale {
        SlotFault::Key(KeyInput::Scale)
    } else if k < 4 && color == ColorIn::K4 {
        SlotFault::Convert(ConvertInput::K4)
    } else if k < 4 && color == ColorIn::K5 {
        SlotFault::Convert(ConvertInput::K5)
    } else if k < 4 && !spec_color_supported(color) {
        SlotFault::Unsupported
    } else if one_cycle && c.slot_texel1(k) {
        SlotFault::Unsupported
    } else {
        SlotFault::NoFault
    }
}

fn slot_fault(c: &CycleSel, k: usize, one_cycle: bool) -> (r: SlotFault)
    requires
        k < 8,
    ensures
        r == spec_slot_fault(*c, k as int, one_cycle),
{
    if k < 4 {
        let color = if k == 0 { c.ca } else if k == 1 { c.cb } else if k == 2 { c.cc } else { c.cd };
        if color == ColorIn::KeyCenter {
            return SlotFault::Key(KeyInput::Center);
        } else if color == ColorIn::KeyScale {
            return SlotFault::Key(KeyInput::Scale);
        } else if color == ColorIn::K4 {
            return SlotFault::Convert(ConvertInput::K4);
        } else if color == ColorIn::K5 {
            return SlotFault::Convert(ConvertInput::K5);
        } else if !color_supported(color) {
            return SlotFault::Unsupported;
        }
    }
    let texel1 = if k == 0 {
        c.ca == ColorIn::Texel1
    } else if k == 1 {
        c.cb == ColorIn::Texel1
    } else if k == 2 {
        c.cc == ColorIn::Texel1 || c.cc == ColorIn::Texel1Alpha
    } else if k == 3 {
        c.cd == ColorIn::Texel1
    } else if k == 4 {
        c.aa == AlphaIn::Texel1
    } else if k == 5 {
        c.ab == AlphaIn::Texel1
    } else if k == 6 {
        c.ac == AlphaIn::Texel1
    } else {
        c.ad == AlphaIn::Texel1
    };
    if one_cycle && texel1 {
        SlotFault::Unsupported
    } else {
        SlotFault::NoFault
    }
}

/// The fault at diagnostic bit `p`: bits 0-7 are cycle 1's slots, bits 8-15 cycle 0's;
/// cycle 0 is checked in two-cycle mode only, and copy and fill modes check nothing.
pub open spec fn spec_bit_fault(sel: CombinerSelectors, cycle_type: u32, p: int) -> SlotFault {
    if cycle_type >= 2 {
        SlotFault::NoFault
    } else if p < 8 {
        spec_slot_fault(sel.cyc1, p, cycle_type == 0)
    } else if cycle_type == 1 {
        spec_slot_fault(sel.cyc0, p - 8, false)
    } else {
        SlotFault::NoFault
    }
}

/// The diagnostic bits, in checking order: cycle 0's slots, then cycle 1's.
pub open spec fn check_order(i: int) -> int {
    if i < 8 { i + 8 } else { i - 8 }
}

/// The first key or convert input among checking positions `i..16`, as a diagnostic.
pub open spec fn first_input_fault(sel: CombinerSelectors, cycle_type: u32, i: int) -> Option<DiagKind>
    decreases 16 - i,
{
    if i < 0 || i >= 16 {
        Option::None
    } else {
        match spec_bit_fault(sel, cycle_type, check_order(i)) {
            SlotFault::Key(k) => Option::Some(DiagKind::UnsupportedKeyInput { selector: k }),
            SlotFault::Convert(k) => Option::Some(DiagKind::UnsupportedConvertInput { selector: k }),
            _ => first_input_fault(sel, cycle_type, i + 1),
        }
    }
}

/// The bits among the first `p` with an unsupported selector.
pub open spec fn unsupported_mask(sel: CombinerSelectors, cycle_type: u32, p: int) -> int
    decreases p,
{
    if p <= 0 {
        0
    } else {
        unsupported_mask(sel, cycle_type, p - 1) + if spec_bit_fault(sel, cycle_type, p - 1)
            == SlotFault::Unsupported {
            pow2((p - 1) as nat) as int
        } else {
            0
        }
    }
}

/// The combiner check of a draw: the first key or convert input of an active cycle, else
/// every active slot with a selector the renderer does not draw (one-cycle TEXEL1
/// included), else nothing.
pub open spec fn spec_combiner_check(sel: CombinerSelectors, cycle_type: u32) -> Option<DiagKind> {
    match first_input_fault(sel, cycle_type, 0) {
        Option::Some(k) => Option::Some(k),
        Option::None => if unsupported_mask(sel, cycle_type, 16) != 0 {
            Option::Some(DiagKind::UnwiredSelector { slots: unsupported_mask(sel, cycle_type, 16) as u16 })
        } else {
            Option::None
        },
    }
}

fn bit_fault(sel: &CombinerSelectors, cycle_type: u32, p: usize) -> (r: SlotFault)
    requires
        p < 16,
    ensures
        r == spec_bit_fault(*sel, cycle_type, p as int),
{
    if cycle_type >= 2 {
        SlotFault::NoFault
    } else if p < 8 {
        slot_fault(&sel.cyc1, p, cycle_type == 0)
    } else if cycle_type == 1 {
        slot_fault(&sel.cyc0, p - 8, false)
    } else {
        SlotFault::NoFault
    }
}

proof fn lemma_mask_bound(sel: CombinerSelectors, cycle_type: u32, p: int)
    requires
        0 <= p <= 16,
    ensures
        0 <= unsupported_mask(sel, cycle_type, p) < pow2(p as nat),
    decreases p,
{
    vstd::arithmetic::power2::lemma_pow2_pos(p as nat);
    if p > 0 {
        lemma_mask_bound(sel, cycle_type, p - 1);
        vstd::arithmetic::power2::lemma_pow2_adds((p - 1) as nat, 1);
        vstd::arithmetic::power2::lemma2_to64();
    }
}

/// The combiner check (see `spec_combiner_check`).
pub fn combiner_check(sel: &CombinerSelectors, cycle_type: u32) -> (r: Option<DiagKind>)
    ensures
        r == spec_combiner_check(*sel, cycle_type),
{
    let mut i: usize = 16;
    let mut found: Option<DiagKind> = None;
    while i > 0
        invariant
            i <= 16,
            found == first_input_fault(*sel, cycle_type, i as int),
        decreases i,
    {
        i = i - 1;
        let p = if i < 8 { i + 8 } else { i - 8 };
        match bit_fault(sel, cycle_type, p) {
            SlotFault::Key(k) => found = Some(DiagKind::UnsupportedKeyInput { selector: k }),
            SlotFault::Convert(k) => found = Some(DiagKind::UnsupportedConvertInput { selector: k }),
            _ => {},
        }
    }
    if found.is_some() {
        return found;
    }
    let mut mask: u32 = 0;
    let mut bit: u32 = 1;
    let mut q: usize = 0;
    proof {
        vstd::arithmetic::power2::lemma2_to64();
    }
    while q < 16
        invariant
            q <= 16,
            mask == unsupported_mask(*sel, cycle_type, q as int),
            bit == pow2(q as nat),
        decreases 16 - q,
    {
        proof {
            lemma_mask_bound(*sel, cycle_type, q as int);
            vstd::arithmetic::power2::lemma2_to64();
            vstd::arithmetic::power2::lemma_pow2_adds(q as nat, 1);
            vstd::arithmetic::power2::lemma_pow2_strictly_increases(q as nat, 16);
        }
        if bit_fault(sel, cycle_type, q) == SlotFault::Unsupported {
            mask = mask + bit;
        }
        bit = bit * 2;
        q = q + 1;
    }
    proof {
        lemma_mask_bound(*sel, cycle_type, 16);
        vstd::arithmetic::power2::lemma2_to64();
    }
    if mask != 0 {
        Some(DiagKind::UnwiredSelector { slots: mask as u16 })
    } else {
        None
    }
}


/// `Material` as values, its LOD levels as a sequence.
pub struct MaterialView {
    pub texture: Option<TextureRef>,
    pub tex_w: u32,
    pub tex_h: u32,
    pub selectors: CombinerSelectors,
    pub cycle_type: u32,
    pub prim: [u8; 4],
    pub env: [u8; 4],
    pub tex_enable: bool,
    pub wrap_s: u8,
    pub wrap_t: u8,
    pub fmt: u8,
    pub siz: u8,
    pub blend_color: [u8; 4],
    pub tile_count: u8,
    pub tex1: Option<Tex1>,
    pub prim_lod_frac: u8,
    pub prim_min_level: u8,
    pub lod: bool,
    pub num_levels: u8,
    pub text_detail: u8,
    pub mip_levels: Seq<TextureRef>,
    pub detail_tex: Option<TextureRef>,
}

impl View for Material {
    type V = MaterialView;

    open spec fn view(&self) -> MaterialView {
        MaterialView {
            texture: self.texture,
            tex_w: self.tex_w,
            tex_h: self.tex_h,
            selectors: self.selectors,
            cycle_type: self.cycle_type,
            prim: self.prim,
            env: self.env,
            tex_enable: self.tex_enable,
            wrap_s: self.wrap_s,
            wrap_t: self.wrap_t,
            fmt: self.fmt,
            siz: self.siz,
            blend_color: self.blend_color,
            tile_count: self.tile_count,
            tex1: self.tex1,
            prim_lod_frac: self.prim_lod_frac,
            prim_min_level: self.prim_min_level,
            lod: self.lod,
            num_levels: self.num_levels,
            text_detail: self.text_detail,
            mip_levels: self.mip_levels@,
            detail_tex: self.detail_tex,
        }
    }
}

/// A built material, or none, as values.
pub open spec fn opt_view(r: Option<Material>) -> Option<MaterialView> {
    match r {
        Option::Some(m) => Option::Some(m@),
        Option::None => Option::None,
    }
}

/// A tile extent field, at least 1.
pub open spec fn spec_max1(v: u16) -> u32 {
    if v == 0 { 1 } else { v as u32 }
}

fn max1(v: u16) -> (r: u32)
    ensures
        r == spec_max1(v),
{
    if v == 0 { 1 } else { v as u32 }
}

/// The texture of tile `t`: its extent and whether the TMEM sampler takes it.
pub open spec fn spec_tex_ref(rdp: Rdp, t: int) -> TextureRef {
    let tile = rdp.tiles[t];
    let w = spec_max1(tile.width);
    TextureRef {
        tile: t as u8,
        w,
        h: spec_max1(tile.height),
        faithful: faithful_format(tile.fmt, tile.siz) && (rows_word_aligned(w, tile.siz)
            || rdp.load_via_tile),
    }
}

fn tex_ref(rdp: &Rdp, t: usize) -> (r: TextureRef)
    requires
        t < 8,
    ensures
        r == spec_tex_ref(*rdp, t as int),
{
    let tile = &rdp.tiles[t];
    let w = max1(tile.width);
    let faithful = tile_takes_faithful_path(rdp, tile, w);
    TextureRef { tile: t as u8, w, h: max1(tile.height), faithful }
}

/// Whether the first texture (tile `base`) is sampled. In two-cycle mode the TEXEL0/TEXEL1
/// roles swap in cycle 1, so cycle 0's TEXEL0 and cycle 1's TEXEL1 read it; otherwise cycle
/// 1's TEXEL0 does.
pub open spec fn spec_uses_first(sel: CombinerSelectors, cycle_type: u32) -> bool {
    if cycle_type == 1 {
        spec_cycle_uses_texel0(sel.cyc0) || sel.cyc1.spec_texel1_mask() != 0
    } else {
        spec_cycle_uses_texel0(sel.cyc1)
    }
}

fn uses_first(sel: &CombinerSelectors, cycle_type: u32) -> (r: bool)
    ensures
        r == spec_uses_first(*sel, cycle_type),
{
    if cycle_type == 1 {
        cycle_uses_texel0(&sel.cyc0) || sel.cyc1.texel1_mask() != 0
    } else {
        cycle_uses_texel0(&sel.cyc1)
    }
}

/// The cycle type of the other-mode high word (bits 21:20).
pub open spec fn spec_cycle_type(rdp: Rdp) -> u32 {
    (rdp.other_mode_h >> 20u32) & 3u32
}

/// Why a draw is refused before any texture is bound: a TEXTCONV other than G_TC_FILT
/// once written, chroma keying (G_CK_KEY), the combiner check, and a combiner that samples
/// a texture when no load has filled TMEM.
pub open spec fn spec_draw_rejection(rdp: Rdp) -> Option<DiagKind> {
    let sel = spec_decode_combine(rdp.combine_l, rdp.combine_h);
    let ct = spec_cycle_type(rdp);
    if rdp.texture_conversion_set && (rdp.other_mode_h >> 9u32) & 7u32 != 6u32 {
        Option::Some(DiagKind::UnsupportedTextureConversion)
    } else if (rdp.other_mode_h >> 8u32) & 1u32 != 0u32 {
        Option::Some(DiagKind::UnsupportedChromaKey)
    } else if spec_combiner_check(sel, ct) is Some {
        spec_combiner_check(sel, ct)
    } else if rdp.tmem@.len() == 0 && (spec_uses_first(sel, ct) || spec_cycle_uses_texel1(sel, ct)) {
        Option::Some(DiagKind::NoTextureLoaded)
    } else {
        Option::None
    }
}

/// The draw-time rejection (see `spec_draw_rejection`).
pub fn draw_rejection(rdp: &Rdp) -> (r: Option<DiagKind>)
    ensures
        r == spec_draw_rejection(*rdp),
{
    let sel = decode_combine(rdp.combine_l, rdp.combine_h);
    let ct = (rdp.other_mode_h >> 20) & 3;
    if rdp.texture_conversion_set && (rdp.other_mode_h >> 9) & 7 != 6 {
        return Some(DiagKind::UnsupportedTextureConversion);
    }
    if (rdp.other_mode_h >> 8) & 1 != 0 {
        return Some(DiagKind::UnsupportedChromaKey);
    }
    let check = combiner_check(&sel, ct);
    if check.is_some() {
        return check;
    }
    if rdp.tmem.len() == 0 && (uses_first(&sel, ct) || cycle_uses_texel1(&sel, ct)) {
        return Some(DiagKind::NoTextureLoaded);
    }
    None
}

/// The LOD level count for a G_TEXTURE `level` field: `level + 1`, at most 8.
pub open spec fn spec_level_count(level: u8) -> u8 {
    if level < 7 { (level + 1) as u8 } else { 8 }
}

/// The textures of the `n` consecutive tiles from `base`.
pub open spec fn spec_levels(rdp: Rdp, base: int, n: int) -> Seq<TextureRef> {
    Seq::new(n as nat, |k: int| spec_tex_ref(rdp, (base + k) % 8))
}

/// Whether the TMEM sampler takes each of the `n` consecutive tiles from `base`.
pub open spec fn levels_faithful(rdp: Rdp, base: int, n: int) -> bool {
    forall|k: int| 0 <= k < n ==> #[trigger] spec_tex_ref(rdp, (base + k) % 8).faithful
}

/// Whether LOD is on for a draw: G_TL_LOD set, a G_TEXTURE level above 0, and every level
/// tile taken by the TMEM sampler.
pub open spec fn spec_lod_active(rdp: Rdp, base: int, level: u8) -> bool {
    (rdp.other_mode_h >> 16u32) & 1u32 != 0u32 && level > 0 && levels_faithful(
        rdp,
        base,
        spec_level_count(level) as int,
    )
}

/// The material a draw binds when no load has filled TMEM and the combiner samples no
/// texture: a 1×1 placeholder, clamped, sampled by no texture.
pub open spec fn spec_textureless(rdp: Rdp) -> MaterialView {
    MaterialView {
        texture: Option::None,
        tex_w: 1,
        tex_h: 1,
        selectors: spec_decode_combine(rdp.combine_l, rdp.combine_h),
        cycle_type: spec_cycle_type(rdp),
        prim: rdp.prim,
        env: rdp.env,
        tex_enable: false,
        wrap_s: 2,
        wrap_t: 2,
        fmt: 0,
        siz: 0,
        blend_color: rdp.blend_color,
        tile_count: 0,
        tex1: Option::None,
        prim_lod_frac: rdp.prim_lod_frac,
        prim_min_level: rdp.prim_min_level,
        lod: false,
        num_levels: 1,
        text_detail: 0,
        mip_levels: Seq::empty(),
        detail_tex: Option::None,
    }
}

/// The second texture: tile `base + 1` (mod 8).
pub open spec fn spec_tex1(rdp: Rdp, base: int) -> Tex1 {
    let t = (base + 1) % 8;
    let r = spec_tex_ref(rdp, t);
    Tex1 {
        texture: r,
        tex_w: r.w,
        tex_h: r.h,
        wrap_s: rdp.tiles[t].cms,
        wrap_t: rdp.tiles[t].cmt,
        fmt: rdp.tiles[t].fmt,
        siz: rdp.tiles[t].siz,
    }
}

/// The material of a textured draw from tile `base`, with texturing `on` and G_TEXTURE
/// `level`: the first texture where the combiner samples it; the tile count (2 with a
/// second texture, 1 with the first alone, else 0); and, with LOD on, one texture per level
/// and, in detail mode, the detail texture of tile 0 where the TMEM sampler takes it.
pub open spec fn spec_textured(rdp: Rdp, base: int, on: bool, level: u8) -> MaterialView {
    let sel = spec_decode_combine(rdp.combine_l, rdp.combine_h);
    let ct = spec_cycle_type(rdp);
    let tile = rdp.tiles[base];
    let first = spec_uses_first(sel, ct);
    let second = spec_cycle_uses_texel1(sel, ct);
    let lod = spec_lod_active(rdp, base, level);
    let n = spec_level_count(level);
    let detail = (rdp.other_mode_h >> 17u32) & 2u32 != 0u32;
    MaterialView {
        texture: if first { Option::Some(spec_tex_ref(rdp, base)) } else { Option::None },
        tex_w: spec_max1(tile.width),
        tex_h: spec_max1(tile.height),
        selectors: sel,
        cycle_type: ct,
        prim: rdp.prim,
        env: rdp.env,
        tex_enable: on && first,
        wrap_s: tile.cms,
        wrap_t: tile.cmt,
        fmt: tile.fmt,
        siz: tile.siz,
        blend_color: rdp.blend_color,
        tile_count: if second { 2 } else if first { 1 } else { 0 },
        tex1: if second { Option::Some(spec_tex1(rdp, base)) } else { Option::None },
        prim_lod_frac: rdp.prim_lod_frac,
        prim_min_level: rdp.prim_min_level,
        lod,
        num_levels: if lod { n } else { 1 },
        text_detail: if lod { ((rdp.other_mode_h >> 17u32) & 3u32) as u8 } else { 0 },
        mip_levels: if lod { spec_levels(rdp, base, n as int) } else { Seq::empty() },
        detail_tex: if lod && detail && spec_tex_ref(rdp, 0).faithful {
            Option::Some(spec_tex_ref(rdp, 0))
        } else {
            Option::None
        },
    }
}

/// What a draw from tile `base` yields, as its diagnostic and its material: the draw-time
/// rejection; with TMEM empty, nothing for a triangle whose combiner was never set (both
/// words zero), else the textureless material; with TMEM filled, a refusal where the second
/// texture is sampled but only the linear decoder could read it, else the textured material.
pub open spec fn spec_build(rdp: Rdp, base: int, on: bool, level: u8, rect: bool) -> (
    Option<DiagKind>,
    Option<MaterialView>,
) {
    let sel = spec_decode_combine(rdp.combine_l, rdp.combine_h);
    let ct = spec_cycle_type(rdp);
    if spec_draw_rejection(rdp) is Some {
        (spec_draw_rejection(rdp), Option::None)
    } else if rdp.tmem@.len() == 0 {
        if !rect && rdp.combine_l == 0 && rdp.combine_h == 0 {
            (Option::None, Option::None)
        } else {
            (Option::None, Option::Some(spec_textureless(rdp)))
        }
    } else if spec_cycle_uses_texel1(sel, ct) && !spec_tex_ref(rdp, (base + 1) % 8).faithful {
        (Option::Some(DiagKind::SecondTextureUndecodable), Option::None)
    } else {
        (Option::None, Option::Some(spec_textured(rdp, base, on, level)))
    }
}

/// The diagnostics a build pushes: its one diagnostic, if any, at `pc`.
pub open spec fn diag_at(kind: Option<DiagKind>, pc: u64) -> Seq<Diagnostic> {
    match kind {
        Option::Some(k) => seq![Diagnostic { at: pc, kind: k }],
        Option::None => Seq::empty(),
    }
}

/// The textures of the `level` LOD tiles from `base`, or `None` where the TMEM sampler does
/// not take one of them.
fn lod_levels(rdp: &Rdp, base: usize, level: u8) -> (r: Option<Vec<TextureRef>>)
    requires
        base < 8,
    ensures
        r is Some <==> levels_faithful(*rdp, base as int, spec_level_count(level) as int),
        r matches Some(v) ==> v@ == spec_levels(*rdp, base as int, spec_level_count(level) as int),
{
    let n: u8 = if level < 7 { level + 1 } else { 8 };
    let mut levels: Vec<TextureRef> = Vec::new();
    let mut k: u8 = 0;
    while k < n
        invariant
            k <= n,
            n == spec_level_count(level),
            n <= 8,
            base < 8,
                levels@ == spec_levels(*rdp, base as int, k as int),
            levels_faithful(*rdp, base as int, k as int),
        decreases n - k,
    {
        let t: usize = (base + k as usize) % 8;
        let tr = tex_ref(rdp, t);
        if !tr.faithful {
            assert(!spec_tex_ref(*rdp, (base as int + k as int) % 8).faithful);
            return None;
        }
        levels.push(tr);
        assert(levels@ =~= spec_levels(*rdp, base as int, k + 1));
        k = k + 1;
    }
    Some(levels)
}

/// Builds the material of a draw from tile `base` (see `spec_build`), pushing its
/// diagnostic at `pc`.
fn build_from(rdp: &Rdp, base: usize, on: bool, level: u8, rect: bool, diags: &mut Vec<Diagnostic>, pc: u64) -> (r: Option<Material>)
    requires
        base < 8,
    ensures
        opt_view(r) == spec_build(*rdp, base as int, on, level, rect).1,
        final(diags)@ == old(diags)@ + diag_at(spec_build(*rdp, base as int, on, level, rect).0, pc),
{
    let rejection = draw_rejection(rdp);
    if let Some(kind) = rejection {
        diags.push(Diagnostic { at: pc, kind });
        assert(final(diags)@ =~= old(diags)@ + diag_at(spec_build(*rdp, base as int, on, level, rect).0, pc));
        return None;
    }
    assert(old(diags)@ + diag_at(Option::None, pc) =~= old(diags)@);
    let selectors = decode_combine(rdp.combine_l, rdp.combine_h);
    let cycle_type = (rdp.other_mode_h >> 20) & 3;
    if rdp.tmem.len() == 0 {
        if !rect && rdp.combine_l == 0 && rdp.combine_h == 0 {
            return None;
        }
        let m = Material {
            texture: None,
            tex_w: 1,
            tex_h: 1,
            selectors,
            cycle_type,
            prim: rdp.prim,
            env: rdp.env,
            tex_enable: false,
            wrap_s: 2,
            wrap_t: 2,
            fmt: 0,
            siz: 0,
            blend_color: rdp.blend_color,
            tile_count: 0,
            tex1: None,
            prim_lod_frac: rdp.prim_lod_frac,
            prim_min_level: rdp.prim_min_level,
            lod: false,
            num_levels: 1,
            text_detail: 0,
            mip_levels: Vec::new(),
            detail_tex: None,
        };
        assert(m@ =~= spec_textureless(*rdp));
        return Some(m);
    }
    let first = uses_first(&selectors, cycle_type);
    let second = cycle_uses_texel1(&selectors, cycle_type);
    let t1 = (base + 1) % 8;
    let tex1 = if second {
        let r1 = tex_ref(rdp, t1);
        if !r1.faithful {
            diags.push(Diagnostic { at: pc, kind: DiagKind::SecondTextureUndecodable });
            assert(final(diags)@ =~= old(diags)@ + diag_at(spec_build(*rdp, base as int, on, level, rect).0, pc));
            return None;
        }
        let d = &rdp.tiles[t1];
        Some(Tex1 { texture: r1, tex_w: r1.w, tex_h: r1.h, wrap_s: d.cms, wrap_t: d.cmt, fmt: d.fmt, siz: d.siz })
    } else {
        None
    };
    let tile = &rdp.tiles[base];
    let lod_on = rdp.lod_enable() && level > 0;
    let levels = if lod_on { lod_levels(rdp, base, level) } else { None };
    let (lod, num_levels, mip_levels, text_detail, detail_tex) = match levels {
        Some(v) => {
            let n: u8 = if level < 7 { level + 1 } else { 8 };
            let td = rdp.text_detail();
            let detail = if (rdp.other_mode_h >> 17) & 2 != 0 {
                let d0 = tex_ref(rdp, 0);
                if d0.faithful { Some(d0) } else { None }
            } else {
                None
            };
            (true, n, v, td, detail)
        },
        None => (false, 1u8, Vec::new(), 0u8, None),
    };
    let m = Material {
        texture: if first { Some(tex_ref(rdp, base)) } else { None },
        tex_w: max1(tile.width),
        tex_h: max1(tile.height),
        selectors,
        cycle_type,
        prim: rdp.prim,
        env: rdp.env,
        tex_enable: on && first,
        wrap_s: tile.cms,
        wrap_t: tile.cmt,
        fmt: tile.fmt,
        siz: tile.siz,
        blend_color: rdp.blend_color,
        tile_count: if second { 2 } else if first { 1 } else { 0 },
        tex1,
        prim_lod_frac: rdp.prim_lod_frac,
        prim_min_level: rdp.prim_min_level,
        lod,
        num_levels,
        text_detail,
        mip_levels,
        detail_tex,
    };
    assert(m@ =~= spec_textured(*rdp, base as int, on, level));
    Some(m)
}

/// The material of a triangle draw, built from the RDP state and the G_TEXTURE state: the
/// first texture is tile `tile & 7`, texturing follows G_TEXTURE's switch, and LOD takes
/// G_TEXTURE's level. A refused draw gives `None` and pushes its diagnostic at `pc`.
pub fn build_material(rdp: &Rdp, rsp: &Rsp, diags: &mut Vec<Diagnostic>, pc: u64) -> (r: Option<Material>)
    requires
    ensures
        opt_view(r) == spec_build(*rdp, (rsp.texture_state.tile & 7) as int, rsp.texture_state.on, rsp.texture_state.level, false).1,
        final(diags)@ == old(diags)@ + diag_at(
            spec_build(*rdp, (rsp.texture_state.tile & 7) as int, rsp.texture_state.on, rsp.texture_state.level, false).0,
            pc,
        ),
{
    let t = rsp.texture_state.tile;
    assert(t & 7 < 8) by (bit_vector);
    build_from(rdp, (t & 7) as usize, rsp.texture_state.on, rsp.texture_state.level, false, diags, pc)
}

/// The material of a texture rectangle: it always samples what its combiner reads of tile
/// 0, whatever G_TEXTURE says, takes no LOD, and is validated as a triangle draw is.
pub fn build_rect_material(rdp: &Rdp, rsp: &Rsp, diags: &mut Vec<Diagnostic>, pc: u64) -> (r: Option<Material>)
    requires
    ensures
        opt_view(r) == spec_build(*rdp, 0, true, 0, true).1,
        final(diags)@ == old(diags)@ + diag_at(spec_build(*rdp, 0, true, 0, true).0, pc),
{
    build_from(rdp, 0, true, 0, true, diags, pc)
}

proof fn lemma_first_fault_agrees(a: CombinerSelectors, b: CombinerSelectors, ct: u32, i: int)
    requires
        forall|p: int| 0 <= p < 16 ==> spec_bit_fault(a, ct, p) == spec_bit_fault(b, ct, p),
    ensures
        first_input_fault(a, ct, i) == first_input_fault(b, ct, i),
    decreases 16 - i,
{
    if 0 <= i < 16 {
        assert(spec_bit_fault(a, ct, check_order(i)) == spec_bit_fault(b, ct, check_order(i)));
        lemma_first_fault_agrees(a, b, ct, i + 1);
    }
}

proof fn lemma_mask_agrees(a: CombinerSelectors, b: CombinerSelectors, ct: u32, p: int)
    requires
        p <= 16,
        forall|q: int| 0 <= q < 16 ==> spec_bit_fault(a, ct, q) == spec_bit_fault(b, ct, q),
    ensures
        unsupported_mask(a, ct, p) == unsupported_mask(b, ct, p),
    decreases p,
{
    if p > 0 {
        assert(spec_bit_fault(a, ct, p - 1) == spec_bit_fault(b, ct, p - 1));
        lemma_mask_agrees(a, b, ct, p - 1);
    }
}

/// Inactive selectors never reject a draw: copy and fill modes pass the combiner check
/// whatever the selectors, and one-cycle mode's check does not depend on cycle 0.
pub proof fn lemma_inactive_selectors_ignored(sel: CombinerSelectors, other: CycleSel, cycle_type: u32)
    ensures
        cycle_type >= 2 ==> spec_combiner_check(sel, cycle_type) is None,
        cycle_type == 0 ==> spec_combiner_check(sel, cycle_type) == spec_combiner_check(
            CombinerSelectors { cyc0: other, ..sel },
            cycle_type,
        ),
{
    if cycle_type == 0 {
        let b = CombinerSelectors { cyc0: other, ..sel };
        lemma_first_fault_agrees(sel, b, cycle_type, 0);
        lemma_mask_agrees(sel, b, cycle_type, 16);
    } else if cycle_type >= 2 {
        lemma_no_fault_from(sel, cycle_type, 0);
        lemma_no_mask(sel, cycle_type, 16);
    }
}

proof fn lemma_no_fault_from(sel: CombinerSelectors, ct: u32, i: int)
    requires
        ct >= 2,
    ensures
        first_input_fault(sel, ct, i) is None,
    decreases 16 - i,
{
    if 0 <= i < 16 {
        lemma_no_fault_from(sel, ct, i + 1);
    }
}

proof fn lemma_no_mask(sel: CombinerSelectors, ct: u32, p: int)
    requires
        ct >= 2,
    ensures
        unsupported_mask(sel, ct, p) == 0,
    decreases p,
{
    if p > 0 {
        lemma_no_mask(sel, ct, p - 1);
    }
}

/// A texture rectangle is validated as a triangle draw is: a draw-time rejection refuses
/// both with the same diagnostic, and with TMEM empty the two push the same diagnostics.
pub proof fn lemma_rect_validation_agrees(rdp: Rdp, base: int, on: bool, level: u8)
    ensures
        spec_draw_rejection(rdp) is Some ==> spec_build(rdp, base, on, level, false) == spec_build(rdp, 0, true, 0, true),
        spec_draw_rejection(rdp) is Some ==> spec_build(rdp, base, on, level, false).0 == spec_draw_rejection(rdp)
            && spec_build(rdp, base, on, level, false).1 is None,
        rdp.tmem@.len() == 0 ==> spec_build(rdp, base, on, level, false).0 == spec_build(rdp, 0, true, 0, true).0,
{
}

/// A diagnosed draw is dropped: whenever a build reports a diagnostic it binds no
/// material, and a build that binds nothing without a diagnostic is a triangle with TMEM
/// empty and both combine words zero.
pub proof fn lemma_diagnosed_draws_dropped(rdp: Rdp, base: int, on: bool, level: u8, rect: bool)
    ensures
        spec_build(rdp, base, on, level, rect).0 is Some ==> spec_build(rdp, base, on, level, rect).1 is None,
        spec_build(rdp, base, on, level, rect).0 is None && spec_build(rdp, base, on, level, rect).1 is None
            ==> !rect && rdp.tmem@.len() == 0 && rdp.combine_l == 0 && rdp.combine_h == 0,
{
}

/// The RGBA8 texels of a material texture that the TMEM sampler does not take: the linear
/// decode of its tile (see `decode_tile_linear`) with the palette `tlut`, `w × h × 4` bytes
/// for a format with a decoder of its own. A texture the TMEM sampler takes gives `None`:
/// it is sampled from the TMEM bank, which this function does not hold.
pub fn decode_material_texture(rdp: &Rdp, texture: &TextureRef, tlut: &[u8], tlut_fmt: u8) -> (r: Option<Vec<u8>>)
    requires
        texture.tile < 8,
        dims_fit(texture.w, texture.h),
        (texture.w as int) * (texture.h as int) * 8 <= usize::MAX,
    ensures
        texture.faithful ==> r is None,
        !texture.faithful ==> (r matches Some(v) && v@ == spec_decode(
            rdp.tiles[texture.tile as int].fmt,
            rdp.tiles[texture.tile as int].siz,
            fit_to(rdp.tmem@, spec_tmem_bytes(rdp.tiles[texture.tile as int].siz, (texture.w as int) * (texture.h as int))),
            texture.w,
            texture.h,
            tlut@,
            rdp.tiles[texture.tile as int].palette,
            tlut_fmt,
        )),
        !texture.faithful && decodable_format(rdp.tiles[texture.tile as int].fmt, rdp.tiles[texture.tile as int].siz)
            ==> (r matches Some(v) && v@.len() == (texture.w as int) * (texture.h as int) * 4),
{
    if texture.faithful {
        return None;
    }
    let tile = &rdp.tiles[texture.tile as usize];
    Some(decode_tile_linear(rdp, tile, texture.w, texture.h, tlut, tlut_fmt))
}

/// The first SetCombine word gsDPSetCombineLERP packs: 0xFC, then cycle 0's color A
/// [23:20] and C [19:15], alpha A [14:12] and C [11:9], and cycle 1's color A [8:5] and
/// C [4:0].
pub open spec fn gs_combine_w0(a0: u32, c0: u32, aa0: u32, ac0: u32, a1: u32, c1: u32) -> u32 {
    (0xFCu32 << 24u32) | (a0 << 20u32) | (c0 << 15u32) | (aa0 << 12u32) | (ac0 << 9u32) | (a1 << 5u32) | c1
}

/// The second SetCombine word: color B of cycles 0 and 1 [31:28] and [27:24], cycle 1's
/// alpha A [23:21] and C [20:18], cycle 0's color D [17:15], alpha B [14:12] and D [11:9],
/// and cycle 1's color D [8:6], alpha B [5:3] and D [2:0].
pub open spec fn gs_combine_w1(
    b0: u32,
    b1: u32,
    aa1: u32,
    ac1: u32,
    d0: u32,
    ab0: u32,
    ad0: u32,
    d1: u32,
    ab1: u32,
    ad1: u32,
) -> u32 {
    (b0 << 28u32) | (b1 << 24u32) | (aa1 << 21u32) | (ac1 << 18u32) | (d0 << 15u32) | (ab0 << 12u32) | (ad0
        << 9u32) | (d1 << 6u32) | (ab1 << 3u32) | ad1
}

/// The selectors a LERP cycle `(a - b) * c + d` names by its slot indices.
pub open spec fn lerp_cycle(a: u32, b: u32, c: u32, d: u32, aa: u32, ab: u32, ac: u32, ad: u32) -> CycleSel {
    CycleSel {
        ca: spec_color_a(a),
        cb: spec_color_b(b),
        cc: spec_color_c(c),
        cd: spec_color_d(d),
        aa: spec_alpha_abd(aa),
        ab: spec_alpha_abd(ab),
        ac: spec_alpha_c(ac),
        ad: spec_alpha_abd(ad),
    }
}

proof fn lemma_combine_fields_bv(
    a0: u32, b0: u32, c0: u32, d0: u32, aa0: u32, ab0: u32, ac0: u32, ad0: u32,
    a1: u32, b1: u32, c1: u32, d1: u32, aa1: u32, ab1: u32, ac1: u32, ad1: u32,
    w0: u32,
    w1: u32,
) by (bit_vector)
    requires
        a0 < 16, b0 < 16, c0 < 32, d0 < 8, aa0 < 8, ab0 < 8, ac0 < 8, ad0 < 8,
        a1 < 16, b1 < 16, c1 < 32, d1 < 8, aa1 < 8, ab1 < 8, ac1 < 8, ad1 < 8,
        w0 == (0xFCu32 << 24u32) | (a0 << 20u32) | (c0 << 15u32) | (aa0 << 12u32) | (ac0 << 9u32) | (a1 << 5u32) | c1,
        w1 == (b0 << 28u32) | (b1 << 24u32) | (aa1 << 21u32) | (ac1 << 18u32) | (d0 << 15u32) | (ab0 << 12u32) | (
        ad0 << 9u32) | (d1 << 6u32) | (ab1 << 3u32) | ad1,
    ensures
        spec_bits(w0, 20, 4) == a0,
        spec_bits(w1, 28, 4) == b0,
        spec_bits(w0, 15, 5) == c0,
        spec_bits(w1, 15, 3) == d0,
        spec_bits(w0, 12, 3) == aa0,
        spec_bits(w1, 12, 3) == ab0,
        spec_bits(w0, 9, 3) == ac0,
        spec_bits(w1, 9, 3) == ad0,
        spec_bits(w0, 5, 4) == a1,
        spec_bits(w1, 24, 4) == b1,
        spec_bits(w0, 0, 5) == c1,
        spec_bits(w1, 6, 3) == d1,
        spec_bits(w1, 21, 3) == aa1,
        spec_bits(w1, 3, 3) == ab1,
        spec_bits(w1, 18, 3) == ac1,
        spec_bits(w1, 0, 3) == ad1,
{
}

/// Decoding inverts gsDPSetCombineLERP: the words it packs for two cycles decode to
/// exactly the selectors each slot index names, cycle by cycle and slot by slot.
pub proof fn lemma_decode_combine_inverts_packing(
    a0: u32, b0: u32, c0: u32, d0: u32, aa0: u32, ab0: u32, ac0: u32, ad0: u32,
    a1: u32, b1: u32, c1: u32, d1: u32, aa1: u32, ab1: u32, ac1: u32, ad1: u32,
)
    requires
        a0 < 16, b0 < 16, c0 < 32, d0 < 8, aa0 < 8, ab0 < 8, ac0 < 8, ad0 < 8,
        a1 < 16, b1 < 16, c1 < 32, d1 < 8, aa1 < 8, ab1 < 8, ac1 < 8, ad1 < 8,
    ensures
        ({
            let w0 = gs_combine_w0(a0, c0, aa0, ac0, a1, c1);
            let w1 = gs_combine_w1(b0, b1, aa1, ac1, d0, ab0, ad0, d1, ab1, ad1);
            spec_decode_combine(w0, w1) == (CombinerSelectors {
                raw_l: w0,
                raw_h: w1,
                cyc0: lerp_cycle(a0, b0, c0, d0, aa0, ab0, ac0, ad0),
                cyc1: lerp_cycle(a1, b1, c1, d1, aa1, ab1, ac1, ad1),
            })
        }),
{
    let w0 = gs_combine_w0(a0, c0, aa0, ac0, a1, c1);
    let w1 = gs_combine_w1(b0, b1, aa1, ac1, d0, ab0, ad0, d1, ab1, ad1);
    lemma_combine_fields_bv(a0, b0, c0, d0, aa0, ab0, ac0, ad0, a1, b1, c1, d1, aa1, ab1, ac1, ad1, w0, w1);
}

/// The four color slots agree on the inputs gbi.h gives indices 0 to 5 (COMBINED, TEXEL0,
/// TEXEL1, PRIMITIVE, SHADE, ENVIRONMENT, in that order) and differ above: A has ONE and
/// NOISE at 6 and 7, B KEY_CENTER and K4, C KEY_SCALE, COMBINED_ALPHA, the five alpha inputs
/// from TEXEL0_ALPHA to ENV_ALPHA, LOD_FRACTION, PRIM_LOD_FRAC and K5 at 6 to 15, D ONE and
/// ZERO; A and B read ZERO from 8 to 15, C from 16 to 31. The alpha slots share TEXEL0 to
/// ENVIRONMENT at 1 to 5 and ZERO at 7; A, B and D read COMBINED at 0 and ONE at 6, C
/// LOD_FRACTION and PRIM_LOD_FRAC.
pub proof fn lemma_selector_tables(i: u32)
    ensures
        i < 6 ==> spec_color_a(i) == spec_color_b(i) && spec_color_b(i) == spec_color_c(i) && spec_color_c(i)
            == spec_color_d(i),
        spec_color_a(0) == ColorIn::Combined && spec_color_a(1) == ColorIn::Texel0 && spec_color_a(2) == ColorIn::Texel1
            && spec_color_a(3) == ColorIn::Primitive && spec_color_a(4) == ColorIn::Shade && spec_color_a(5)
            == ColorIn::Environment,
        spec_color_a(6) == ColorIn::One && spec_color_a(7) == ColorIn::Noise,
        spec_color_b(6) == ColorIn::KeyCenter && spec_color_b(7) == ColorIn::K4,
        spec_color_c(6) == ColorIn::KeyScale && spec_color_c(7) == ColorIn::CombinedAlpha && spec_color_c(8)
            == ColorIn::Texel0Alpha && spec_color_c(9) == ColorIn::Texel1Alpha && spec_color_c(10)
            == ColorIn::PrimitiveAlpha && spec_color_c(11) == ColorIn::ShadeAlpha && spec_color_c(12)
            == ColorIn::EnvAlpha && spec_color_c(13) == ColorIn::LodFraction && spec_color_c(14) == ColorIn::PrimLodFrac
            && spec_color_c(15) == ColorIn::K5,
        spec_color_d(6) == ColorIn::One && spec_color_d(7) == ColorIn::Zero,
        8 <= i < 16 ==> spec_color_a(i) == ColorIn::Zero && spec_color_b(i) == ColorIn::Zero,
        16 <= i < 32 ==> spec_color_c(i) == ColorIn::Zero,
        1 <= i < 6 ==> spec_alpha_abd(i) == spec_alpha_c(i),
        spec_alpha_abd(1) == AlphaIn::Texel0 && spec_alpha_abd(2) == AlphaIn::Texel1 && spec_alpha_abd(3)
            == AlphaIn::Primitive && spec_alpha_abd(4) == AlphaIn::Shade && spec_alpha_abd(5) == AlphaIn::Environment,
        spec_alpha_abd(0) == AlphaIn::Combined && spec_alpha_abd(6) == AlphaIn::One && spec_alpha_abd(7) == AlphaIn::Zero,
        spec_alpha_c(0) == AlphaIn::LodFraction && spec_alpha_c(6) == AlphaIn::PrimLodFrac && spec_alpha_c(7)
            == AlphaIn::Zero,
{
    crate::rsp::lemma_bit_facts_bv(0, i, 0, 0, 1, 0, 0, 0, 0, 0, 0);
    crate::rsp::lemma_bit_facts_bv(0, 0, 0, 0, 1, 0, 0, 0, 0, 0, 0);
    crate::rsp::lemma_bit_facts_bv(0, 1, 0, 0, 1, 0, 0, 0, 0, 0, 0);
    crate::rsp::lemma_bit_facts_bv(0, 2, 0, 0, 1, 0, 0, 0, 0, 0, 0);
    crate::rsp::lemma_bit_facts_bv(0, 3, 0, 0, 1, 0, 0, 0, 0, 0, 0);
    crate::rsp::lemma_bit_facts_bv(0, 4, 0, 0, 1, 0, 0, 0, 0, 0, 0);
    crate::rsp::lemma_bit_facts_bv(0, 5, 0, 0, 1, 0, 0, 0, 0, 0, 0);
    crate::rsp::lemma_bit_facts_bv(0, 6, 0, 0, 1, 0, 0, 0, 0, 0, 0);
    crate::rsp::lemma_bit_facts_bv(0, 7, 0, 0, 1, 0, 0, 0, 0, 0, 0);
    crate::rsp::lemma_bit_facts_bv(0, 8, 0, 0, 1, 0, 0, 0, 0, 0, 0);
    crate::rsp::lemma_bit_facts_bv(0, 9, 0, 0, 1, 0, 0, 0, 0, 0, 0);
    crate::rsp::lemma_bit_facts_bv(0, 10, 0, 0, 1, 0, 0, 0, 0, 0, 0);
    crate::rsp::lemma_bit_facts_bv(0, 11, 0, 0, 1, 0, 0, 0, 0, 0, 0);
    crate::rsp::lemma_bit_facts_bv(0, 12, 0, 0, 1, 0, 0, 0, 0, 0, 0);
    crate::rsp::lemma_bit_facts_bv(0, 13, 0, 0, 1, 0, 0, 0, 0, 0, 0);
    crate::rsp::lemma_bit_facts_bv(0, 14, 0, 0, 1, 0, 0, 0, 0, 0, 0);
    crate::rsp::lemma_bit_facts_bv(0, 15, 0, 0, 1, 0, 0, 0, 0, 0, 0);
}
} // verus!
