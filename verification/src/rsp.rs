//! RSP register state that the display-list walk decides on: geometry mode, texture
//! scaling, light count and matrix-stack depth, and the other-mode field updates.
use vstd::prelude::*;
use crate::gbi::{GbiConstants, GbiUcode, spec_f3dex2_consts};
use crate::mem::GbiDataFormat;
use crate::rdp::Rdp;

verus! {

/// F3DEX2 maximum number of directional lights.
pub const RSP_MAX_LIGHTS: u32 = 7;

/// F3DEX2 modelview matrix stack size; pushes past it are dropped.
pub const RSP_MATRIX_STACK_SIZE: u32 = 32;

/// Texture scaling state set by gsSPTexture.
#[derive(Clone, Copy, Debug, PartialEq, Eq, Structural)]
pub struct TextureState {
    pub tile: u8,
    pub level: u8,
    pub on: bool,
    pub sc: u16,
    pub tc: u16,
}

impl Default for TextureState {
    fn default() -> (r: Self)
        ensures
            r == (TextureState { tile: 0, level: 0, on: false, sc: 0, tc: 0 }),
    {
        TextureState { tile: 0, level: 0, on: false, sc: 0, tc: 0 }
    }
}

/// The integer RSP state. `model_stack_size` is the modelview stack depth, between 1 and
/// `RSP_MATRIX_STACK_SIZE`; `light_version` and `lookat_version` count the light and
/// look-at changes (wrapping), so cached light transforms know when to rebuild.
#[derive(Clone, Copy, Debug, PartialEq, Eq, Structural)]
pub struct Rsp {
    pub geom: u32,
    pub consts: GbiConstants,
    pub data_format: GbiDataFormat,
    pub texture_state: TextureState,
    pub num_dir: u32,
    pub light_version: u64,
    pub lookat_version: u64,
    pub model_stack_size: u32,
    /// The draw material must be rebuilt before the next triangle.
    pub material_dirty: bool,
}

/// What a G_MTX command does once the stack bookkeeping is done: write the projection,
/// or write modelview stack entry `top` (after copying entry `top - 1` into it when the
/// push was taken). `load` replaces the target; otherwise the loaded matrix multiplies it.
#[derive(Clone, Copy, Debug, PartialEq, Eq, Structural)]
pub enum MatrixTarget {
    Projection { load: bool },
    Modelview { top: u32, pushed: bool, load: bool },
}

/// Which light register a light command writes: the ambient light (the slot just past the
/// directional lights), directional light `i`, or none.
#[derive(Clone, Copy, Debug, PartialEq, Eq, Structural)]
pub enum LightSlot {
    Ambient,
    Directional(u32),
    Ignored,
}

/// Bit `length`-wide field at `shift` of `word` replaced by `data` (which is or-ed in
/// unmasked); an out-of-range field leaves `word` unchanged.
pub open spec fn spec_other_mode_update(word: u32, shift: u32, length: u32, data: u32) -> u32 {
    if length == 0 || length > 32 || shift > 32 - length {
        word
    } else if length == 32 {
        data
    } else {
        (word & !((((1u32 << length) - 1) as u32) << shift)) | data
    }
}

fn other_mode_update(word: u32, shift: u32, length: u32, data: u32) -> (r: u32)
    ensures
        r == spec_other_mode_update(word, shift, length, data),
{
    if length == 0 || length > 32 || shift > 32 - length {
        return word;
    }
    if length == 32 {
        assert((word & !u32::MAX) | data == data) by (bit_vector);
        return data;
    }
    assert(1u32 << length >= 1) by (bit_vector)
        requires
            1 <= length < 32,
    ;
    let mask = ((1u32 << length) - 1) << shift;
    (word & !mask) | data
}

/// The default RSP state for `consts`: clipping geometry mode, no lights, a one-entry
/// modelview stack and a dirty material.
pub open spec fn spec_rsp_new(consts: GbiConstants, data_format: GbiDataFormat) -> Rsp {
    Rsp {
        geom: consts.g_clipping,
        consts,
        data_format,
        texture_state: TextureState { tile: 0, level: 0, on: false, sc: 0, tc: 0 },
        num_dir: 0,
        light_version: 0,
        lookat_version: 0,
        model_stack_size: 1,
        material_dirty: true,
    }
}

impl Default for Rsp {
    fn default() -> (r: Self)
        ensures
            r == spec_rsp_new(spec_f3dex2_consts(), GbiDataFormat::Fixed),
    {
        Rsp::new(GbiUcode::F3dex2.constants(), GbiDataFormat::Fixed)
    }
}

impl Rsp {
    /// The state a walk starts from, for the given microcode constants and data layout.
    pub fn new(consts: GbiConstants, data_format: GbiDataFormat) -> (r: Self)
        ensures
            r == spec_rsp_new(consts, data_format),
    {
        Rsp {
            geom: consts.g_clipping,
            consts,
            data_format,
            texture_state: TextureState::default(),
            num_dir: 0,
            light_version: 0,
            lookat_version: 0,
            model_stack_size: 1,
            material_dirty: true,
        }
    }

    pub open spec fn wf(&self) -> bool {
        1 <= self.model_stack_size <= RSP_MATRIX_STACK_SIZE
    }

    /// The current geometry mode word.
    pub fn geometry_mode(&self) -> (r: u32)
        ensures
            r == self.geom,
    {
        self.geom
    }

    /// G_GEOMETRYMODE: `geom = (geom & off_mask) | on_mask`. A change of the lighting bit
    /// bumps `light_version`.
    pub fn modify_geometry_mode(&mut self, off_mask: u32, on_mask: u32)
        ensures
            ({
                let g = (old(self).geom & off_mask) | on_mask;
                let bump = (old(self).geom ^ g) & old(self).consts.g_lighting != 0;
                *final(self) == Rsp {
                    geom: g,
                    light_version: if bump {
                        vstd::wrapping::u64_specs::wrapping_add(old(self).light_version, 1)
                    } else {
                        old(self).light_version
                    },
                    ..*old(self)
                }
            }),
    {
        let old_geom = self.geom;
        self.geom = (old_geom & off_mask) | on_mask;
        if (old_geom ^ self.geom) & self.consts.g_lighting != 0 {
            self.light_version = self.light_version.wrapping_add(1);
        }
    }

    /// gsSPTexture: sets the texture scaling state.
    pub fn set_texture(&mut self, tile: u8, level: u8, on: bool, sc: u16, tc: u16)
        ensures
            *final(self) == (Rsp {
                texture_state: TextureState { tile, level, on, sc, tc },
                ..*old(self)
            }),
    {
        self.texture_state = TextureState { tile, level, on, sc, tc };
    }

    /// SetOtherMode_L with a raw least-significant-bit `shift` and bit `length`.
    pub fn set_other_mode_l_raw(&mut self, shift: u32, length: u32, data: u32, rdp: &mut Rdp)
        ensures
            *final(self) == *old(self),
            *final(rdp) == (Rdp {
                other_mode_l: spec_other_mode_update(old(rdp).other_mode_l, shift, length, data),
                ..*old(rdp)
            }),
    {
        rdp.other_mode_l = other_mode_update(rdp.other_mode_l, shift, length, data);
    }

    /// SetOtherMode_L as the command encodes it: `length = p0_len_field + 1` bits ending
    /// `p0_shift_field` bits below the top, so the raw shift is `32 - p0_shift_field - length`.
    pub fn set_other_mode_l(&mut self, p0_shift_field: u32, p0_len_field: u32, data: u32, rdp: &mut Rdp)
        requires
            p0_shift_field + p0_len_field + 1 <= 32,
        ensures
            *final(self) == *old(self),
            *final(rdp) == (Rdp {
                other_mode_l: spec_other_mode_update(
                    old(rdp).other_mode_l,
                    (32 - p0_shift_field - p0_len_field - 1) as u32,
                    (p0_len_field + 1) as u32,
                    data,
                ),
                ..*old(rdp)
            }),
    {
        let length = p0_len_field + 1;
        let shift = 32 - p0_shift_field - length;
        self.set_other_mode_l_raw(shift, length, data, rdp);
    }

    /// SetOtherMode_H with a raw least-significant-bit `shift` and bit `length`.
    pub fn set_other_mode_h_raw(&mut self, shift: u32, length: u32, data: u32, rdp: &mut Rdp)
        ensures
            *final(self) == *old(self),
            *final(rdp) == (Rdp {
                other_mode_h: spec_other_mode_update(old(rdp).other_mode_h, shift, length, data),
                ..*old(rdp)
            }),
    {
        rdp.other_mode_h = other_mode_update(rdp.other_mode_h, shift, length, data);
    }

    /// SetOtherMode_H as the command encodes it (see `set_other_mode_l`).
    pub fn set_other_mode_h(&mut self, p0_shift_field: u32, p0_len_field: u32, data: u32, rdp: &mut Rdp)
        requires
            p0_shift_field + p0_len_field + 1 <= 32,
        ensures
            *final(self) == *old(self),
            *final(rdp) == (Rdp {
                other_mode_h: spec_other_mode_update(
                    old(rdp).other_mode_h,
                    (32 - p0_shift_field - p0_len_field - 1) as u32,
                    (p0_len_field + 1) as u32,
                    data,
                ),
                ..*old(rdp)
            }),
    {
        let length = p0_len_field + 1;
        let shift = 32 - p0_shift_field - length;
        self.set_other_mode_h_raw(shift, length, data, rdp);
    }

    /// G_SETTIMG: records the texture image on the RDP.
    pub fn set_texture_image(&mut self, fmt: u8, siz: u8, width: u16, addr: u64, rdp: &mut Rdp)
        ensures
            *final(self) == *old(self),
            *final(rdp) == (Rdp { tex_image: (fmt, siz, width, addr), ..*old(rdp) }),
    {
        crate::rdp::set_texture_image(fmt, siz, width, addr, rdp);
    }

    /// Sets the directional-light count, at most `RSP_MAX_LIGHTS`, and bumps `light_version`.
    pub fn set_num_lights_direct(&mut self, n: u32)
        ensures
            *final(self) == (Rsp {
                num_dir: if n < RSP_MAX_LIGHTS {
                    n
                } else {
                    RSP_MAX_LIGHTS
                },
                light_version: vstd::wrapping::u64_specs::wrapping_add(old(self).light_version, 1),
                ..*old(self)
            }),
    {
        self.num_dir = if n < RSP_MAX_LIGHTS {
            n
        } else {
            RSP_MAX_LIGHTS
        };
        self.light_version = self.light_version.wrapping_add(1);
    }

    /// G_MW_NUMLIGHT: `w1` is 24 times the number of directional lights.
    pub fn set_num_lights(&mut self, w1: u32)
        ensures
            *final(self) == (Rsp {
                num_dir: if w1 / 24 < RSP_MAX_LIGHTS {
                    w1 / 24
                } else {
                    RSP_MAX_LIGHTS
                },
                light_version: vstd::wrapping::u64_specs::wrapping_add(old(self).light_version, 1),
                ..*old(self)
            }),
    {
        self.set_num_lights_direct(w1 / 24);
    }

    /// The register a light command for slot `light_idx` writes: the slot right after the
    /// directional lights is the ambient light; the eight light registers cover the rest.
    pub open spec fn spec_light_slot(&self, light_idx: u32) -> LightSlot {
        if light_idx == self.num_dir {
            LightSlot::Ambient
        } else if light_idx < 8 {
            LightSlot::Directional(light_idx)
        } else {
            LightSlot::Ignored
        }
    }

    /// G_MV_LIGHT / light-color update: picks the register and bumps `light_version`.
    pub fn light_write(&mut self, light_idx: u32) -> (r: LightSlot)
        ensures
            r == old(self).spec_light_slot(light_idx),
            *final(self) == (Rsp {
                light_version: vstd::wrapping::u64_specs::wrapping_add(old(self).light_version, 1),
                ..*old(self)
            }),
    {
        let r = if light_idx == self.num_dir {
            LightSlot::Ambient
        } else if light_idx < 8 {
            LightSlot::Directional(light_idx)
        } else {
            LightSlot::Ignored
        };
        self.light_version = self.light_version.wrapping_add(1);
        r
    }

    /// Look-at axis load: slots 0 (S) and 1 (T) are written; every call bumps
    /// `lookat_version`.
    pub fn lookat_write(&mut self, slot: u32) -> (r: bool)
        ensures
            r == (slot < 2),
            *final(self) == (Rsp {
                lookat_version: vstd::wrapping::u64_specs::wrapping_add(old(self).lookat_version, 1),
                ..*old(self)
            }),
    {
        self.lookat_version = self.lookat_version.wrapping_add(1);
        slot < 2
    }

    /// G_MTX stack bookkeeping for parameter byte `params`: a modelview push grows the stack
    /// unless it is full; the projection has no stack.
    pub fn matrix_target(&mut self, params: u8) -> (r: MatrixTarget)
        requires
            old(self).wf(),
        ensures
            final(self).wf(),
            ({
                let is_proj = params & old(self).consts.g_mtx_projection != 0;
                let is_load = params & old(self).consts.g_mtx_load != 0;
                let is_push = params & old(self).consts.g_mtx_push != 0;
                let pushed = !is_proj && is_push && old(self).model_stack_size
                    < RSP_MATRIX_STACK_SIZE;
                let size = if pushed {
                    old(self).model_stack_size + 1
                } else {
                    old(self).model_stack_size as int
                };
                &&& *final(self) == Rsp { model_stack_size: size as u32, ..*old(self) }
                &&& r == if is_proj {
                    MatrixTarget::Projection { load: is_load }
                } else {
                    MatrixTarget::Modelview { top: (size - 1) as u32, pushed, load: is_load }
                }
            }),
    {
        let is_proj = params & self.consts.g_mtx_projection != 0;
        let is_load = params & self.consts.g_mtx_load != 0;
        let is_push = params & self.consts.g_mtx_push != 0;
        if is_proj {
            return MatrixTarget::Projection { load: is_load };
        }
        let pushed = is_push && self.model_stack_size < RSP_MATRIX_STACK_SIZE;
        if pushed {
            self.model_stack_size = self.model_stack_size + 1;
        }
        MatrixTarget::Modelview { top: self.model_stack_size - 1, pushed, load: is_load }
    }

    /// G_POPMTX: pops `count` modelview frames, never below one. Returns whether the depth
    /// changed (the MVP is then recomputed).
    pub fn pop_matrix(&mut self, count: u32) -> (r: bool)
        requires
            old(self).wf(),
        ensures
            final(self).wf(),
            final(self).model_stack_size == if count < old(self).model_stack_size {
                old(self).model_stack_size - count
            } else {
                1
            },
            *final(self) == (Rsp { model_stack_size: final(self).model_stack_size, ..*old(self) }),
            r == (final(self).model_stack_size != old(self).model_stack_size),
    {
        let old_size = self.model_stack_size;
        self.model_stack_size = if count < old_size {
            old_size - count
        } else {
            1
        };
        self.model_stack_size != old_size
    }
}

/// Bytes per pixel for an image size code: 4-bit 0, 8-bit 1, 16-bit 2, 32-bit 4.
pub open spec fn spec_bpp(siz: u8) -> u64 {
    ((1u64 << siz) >> 1u64) as u64
}

pub fn bpp(siz: u8) -> (r: u64)
    requires
        siz < 64,
    ensures
        r == spec_bpp(siz),
{
    (1u64 << siz) >> 1u64
}


/// Bit facts shared by the decoding laws: the high half-word of `l` survives a round trip
/// through `u16`; an index below 8, 16 or 32 keeps itself under the matching mask; and
/// bit `b` of an other-mode update.
pub(crate) proof fn lemma_bit_facts_bv(l: u32, i: u32, word: u32, s: u32, n: u32, data: u32, b: u32, b0: u8, b1: u8, b2: u8, b3: u8)
    by (bit_vector)
    ensures
        (((l >> 16u32) & 0xFFFFu32) as u16) as u32 == l >> 16u32,
        i < 8 ==> i & 0x7u32 == i,
        i < 16 ==> i & 0xFu32 == i,
        i < 32 ==> i & 0x1Fu32 == i,
        1 <= n && n < 32 && s <= 32 - n && b < 32 ==> (spec_other_mode_update(word, s, n, data) >> b) & 1u32 == if s <= b
            && b < s + n {
            (data >> b) & 1u32
        } else {
            ((word | data) >> b) & 1u32
        },
        ((b0 as u32) << 24u32) | ((b1 as u32) << 16u32) | ((b2 as u32) << 8u32) | (b3 as u32) == (b0 as u32) * 0x100_0000
            + (b1 as u32) * 0x1_0000 + (b2 as u32) * 0x100 + (b3 as u32),
        ((b0 as u16) << 8u16) | (b1 as u16) == (b0 as u16) * 0x100 + (b1 as u16),
        (l >> 24u32) & 0x0Fu32 == (l / 0x100_0000) % 16,
        l & 0x00FF_FFFFu32 == l % 0x100_0000,
        (i & 2u32 == 0u32) == ((i / 2) % 2 == 0),
{
}

/// An other-mode write of `length` bits at `shift`: inside the field each bit is the data's;
/// outside it the word keeps its bits (data bits outside the field are or-ed in, as the
/// RSP does); a field of the whole word is the data, and a field that does not fit changes
/// nothing.
pub proof fn lemma_other_mode_update_bits(word: u32, shift: u32, length: u32, data: u32, b: u32)
    ensures
        1 <= length < 32 && shift + length <= 32 && b < 32 ==> (spec_other_mode_update(word, shift, length, data) >> b)
            & 1u32 == if shift <= b < shift + length {
            (data >> b) & 1u32
        } else {
            ((word | data) >> b) & 1u32
        },
        length == 32 && shift == 0 ==> spec_other_mode_update(word, shift, length, data) == data,
        length == 0 || length > 32 || shift + length > 32 ==> spec_other_mode_update(word, shift, length, data) == word,
{
    lemma_bit_facts_bv(0, 0, word, shift, length, data, b, 0, 0, 0, 0);
}
} // verus!
