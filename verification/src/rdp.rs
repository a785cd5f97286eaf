//! RDP register state and the RDP command handlers.
use vstd::prelude::*;
use crate::interp::{field, Cmd};
use crate::mem::RdramImage;
use crate::consts::{
    G_LOADBLOCK, G_LOADTILE, G_LOADTLUT, G_NOOP, G_RDPFULLSYNC, G_RDPHALF_1, G_RDPHALF_2,
    G_RDPLOADSYNC, G_RDPPIPESYNC, G_RDPSETOTHERMODE, G_RDPTILESYNC, G_SETBLENDCOLOR, G_SETCIMG,
    G_SETCOMBINE, G_SETCONVERT, G_SETENVCOLOR, G_SETFILLCOLOR, G_SETFOGCOLOR, G_SETKEYGB,
    G_SETKEYR, G_SETPRIMCOLOR, G_SETPRIMDEPTH, G_SETSCISSOR, G_SETTILE, G_SETTILESIZE, G_SETZIMG,
};

verus! {

/// One chroma-key channel: centre, scale and 12-bit width.
#[derive(Clone, Copy, Debug, PartialEq, Eq, Structural)]
pub struct KeyChannel {
    pub center: u8,
    pub scale: u8,
    pub width: u16,
}

/// One of the eight RDP tile descriptors.
#[derive(Clone, Copy, Debug, PartialEq, Eq, Structural)]
pub struct TileDescriptor {
    pub uls: u16,
    pub ult: u16,
    pub lrs: u16,
    pub lrt: u16,
    pub width: u16,
    pub height: u16,
    /// G_SETTILE fields. cms/cmt: 0 = WRAP, 1 = MIRROR, 2 = CLAMP.
    pub fmt: u8,
    pub siz: u8,
    pub palette: u8,
    pub cms: u8,
    pub cmt: u8,
    pub masks: u8,
    pub maskt: u8,
    pub shifts: u8,
    pub shiftt: u8,
    pub line: u16,
    pub tmem_addr: u16,
}

/// The all-zero tile descriptor.
pub open spec fn zero_tile() -> TileDescriptor {
    TileDescriptor {
        uls: 0,
        ult: 0,
        lrs: 0,
        lrt: 0,
        width: 0,
        height: 0,
        fmt: 0,
        siz: 0,
        palette: 0,
        cms: 0,
        cmt: 0,
        masks: 0,
        maskt: 0,
        shifts: 0,
        shiftt: 0,
        line: 0,
        tmem_addr: 0,
    }
}

impl Default for TileDescriptor {
    fn default() -> (r: Self)
        ensures
            r == zero_tile(),
    {
        TileDescriptor {
            uls: 0,
            ult: 0,
            lrs: 0,
            lrt: 0,
            width: 0,
            height: 0,
            fmt: 0,
            siz: 0,
            palette: 0,
            cms: 0,
            cmt: 0,
            masks: 0,
            maskt: 0,
            shifts: 0,
            shiftt: 0,
            line: 0,
            tmem_addr: 0,
        }
    }
}

impl Default for KeyChannel {
    fn default() -> (r: Self)
        ensures
            r == (KeyChannel { center: 0, scale: 0, width: 0 }),
    {
        KeyChannel { center: 0, scale: 0, width: 0 }
    }
}

/// Primitive depth register (G_SETPRIMDEPTH).
#[derive(Clone, Copy, Debug, PartialEq, Eq, Structural)]
pub struct PrimitiveDepth {
    pub z: u16,
    pub dz: u16,
}

/// A color framebuffer target (G_SETCIMG); `width` is the raw field plus one.
#[derive(Clone, Copy, Debug, PartialEq, Eq, Structural)]
pub struct ColorImage {
    pub fmt: u8,
    pub siz: u8,
    pub width: u16,
    pub addr: u64,
}

/// A scissor rectangle in whole pixels (the 10.2 fields shifted right by 2).
#[derive(Clone, Copy, Debug, PartialEq, Eq, Structural)]
pub struct Scissor {
    pub ulx: i32,
    pub uly: i32,
    pub lrx: i32,
    pub lry: i32,
    pub mode: u8,
}

/// The big-endian bytes of `w`.
pub open spec fn be_bytes(w: u32) -> [u8; 4] {
    [(w >> 24u32) as u8, (w >> 16u32) as u8, (w >> 8u32) as u8, w as u8]
}

fn to_be_bytes(w: u32) -> (r: [u8; 4])
    ensures
        r == be_bytes(w),
{
    [(w >> 24u32) as u8, (w >> 16u32) as u8, (w >> 8u32) as u8, w as u8]
}


/// RDP register state. The primitive LOD registers hold the raw command fields: the LOD
/// fraction is `prim_lod_frac / 256` and the minimum LOD level `prim_min_level / 32`.
#[derive(Debug, PartialEq)]
pub struct Rdp {
    /// Linear source bytes of the last LoadBlock or LoadTile.
    pub tmem: Vec<u8>,
    /// The last load was a LoadTile (per-row stride) rather than a LoadBlock.
    pub load_via_tile: bool,
    pub tiles: [TileDescriptor; 8],
    /// Texture image: format, size, raw width field (width - 1), resolved address.
    pub tex_image: (u8, u8, u16, u64),
    pub combine_l: u32,
    pub combine_h: u32,
    /// Other-mode high word; the cycle type is `(other_mode_h >> 20) & 3`.
    pub other_mode_h: u32,
    /// An other-mode write has set the TEXTCONV field.
    pub texture_conversion_set: bool,
    /// Other-mode low word: blender mux, depth mode and render flags.
    pub other_mode_l: u32,
    pub fog_color: [u8; 4],
    pub fog_mul: i16,
    pub fog_offset: i16,
    pub prim: [u8; 4],
    pub prim_depth: PrimitiveDepth,
    /// The six signed nine-bit G_SETCONVERT coefficients.
    pub convert: [i16; 6],
    /// Chroma-key channels R, G, B.
    pub key: [KeyChannel; 3],
    /// Raw primitive LOD fraction (G_SETPRIMCOLOR w0 bits [7:0]).
    pub prim_lod_frac: u8,
    /// Raw primitive minimum LOD level (G_SETPRIMCOLOR w0 bits [12:8]).
    pub prim_min_level: u8,
    pub env: [u8; 4],
    /// Blend color RGBA8 (G_SETBLENDCOLOR), opaque black until set.
    pub blend_color: [u8; 4],
    /// TLUT entry format from the other-mode TT field (0 none, 2 RGBA16, 3 IA16).
    pub tlut_fmt: u8,
    /// Current color framebuffer target.
    pub color_image: ColorImage,
    /// `color_image` changed since the last framebuffer-pair flush.
    pub color_changed: bool,
    /// Current depth buffer address.
    pub depth_image: u64,
    /// `depth_image` changed since the last framebuffer-pair flush.
    pub depth_changed: bool,
    pub scissor: Scissor,
    /// Raw G_SETFILLCOLOR word.
    pub fill_color_raw: u32,
}

impl Clone for Rdp {
    fn clone(&self) -> (r: Self)
        ensures
            r.tmem@ == self.tmem@,
            r == (Rdp { tmem: r.tmem, ..*self }),
    {
        Rdp {
            tmem: self.tmem.clone(),
            load_via_tile: self.load_via_tile,
            tiles: self.tiles,
            tex_image: self.tex_image,
            combine_l: self.combine_l,
            combine_h: self.combine_h,
            other_mode_h: self.other_mode_h,
            texture_conversion_set: self.texture_conversion_set,
            other_mode_l: self.other_mode_l,
            fog_color: self.fog_color,
            fog_mul: self.fog_mul,
            fog_offset: self.fog_offset,
            prim: self.prim,
            prim_depth: self.prim_depth,
            convert: self.convert,
            key: self.key,
            prim_lod_frac: self.prim_lod_frac,
            prim_min_level: self.prim_min_level,
            env: self.env,
            blend_color: self.blend_color,
            tlut_fmt: self.tlut_fmt,
            color_image: self.color_image,
            color_changed: self.color_changed,
            depth_image: self.depth_image,
            depth_changed: self.depth_changed,
            scissor: self.scissor,
            fill_color_raw: self.fill_color_raw,
        }
    }
}

impl Rdp {
    /// The power-on register state around the (empty) linear TMEM buffer `tmem`.
    pub open spec fn spec_default(tmem: Vec<u8>) -> Rdp {
        Rdp {
            tmem,
            load_via_tile: false,
            tiles: [zero_tile(), zero_tile(), zero_tile(), zero_tile(), zero_tile(), zero_tile(), zero_tile(), zero_tile()],
            tex_image: (0u8, 0u8, 0u16, 0u64),
            combine_l: 0,
            combine_h: 0,
            other_mode_h: 0,
            texture_conversion_set: false,
            other_mode_l: 0,
            fog_color: [0u8, 0u8, 0u8, 0u8],
            fog_mul: 0,
            fog_offset: 0,
            prim: [0u8, 0u8, 0u8, 0u8],
            prim_depth: PrimitiveDepth { z: 0, dz: 0 },
            convert: [0i16, 0i16, 0i16, 0i16, 0i16, 0i16],
            key: [KeyChannel { center: 0, scale: 0, width: 0 }, KeyChannel { center: 0, scale: 0, width: 0 }, KeyChannel { center: 0, scale: 0, width: 0 }],
            prim_lod_frac: 0,
            prim_min_level: 0,
            env: [0u8, 0u8, 0u8, 0u8],
            blend_color: [0u8, 0u8, 0u8, 255u8],
            tlut_fmt: 0,
            color_image: ColorImage { fmt: 0, siz: 0, width: 0, addr: 0 },
            color_changed: false,
            depth_image: 0,
            depth_changed: false,
            scissor: Scissor { ulx: 0, uly: 0, lrx: 0, lry: 0, mode: 0 },
            fill_color_raw: 0,
        }
    }

    /// G_MDSFT_TEXTLOD (other-mode-H bit 16): LOD (mipmapping) enabled.
    pub fn lod_enable(&self) -> (r: bool)
        ensures
            r == ((self.other_mode_h >> 16u32) & 1 != 0),
    {
        (self.other_mode_h >> 16u32) & 1 != 0
    }

    /// G_MDSFT_TEXTDETAIL (other-mode-H bits [18:17]): bit 0 sharpen, bit 1 detail.
    pub fn text_detail(&self) -> (r: u8)
        ensures
            r as u32 == (self.other_mode_h >> 17u32) & 3,
    {
        let h = self.other_mode_h;
        assert((h >> 17u32) & 3 < 4) by (bit_vector);
        ((h >> 17u32) & 3) as u8
    }
}


impl Default for Rdp {
    fn default() -> (r: Self)
        ensures
            r == Rdp::spec_default(r.tmem),
            r.tmem@.len() == 0,
    {
        let t = TileDescriptor::default();
        let k = KeyChannel::default();
        Rdp {
            tmem: Vec::new(),
            load_via_tile: false,
            tiles: [t, t, t, t, t, t, t, t],
            tex_image: (0, 0, 0, 0),
            combine_l: 0,
            combine_h: 0,
            other_mode_h: 0,
            texture_conversion_set: false,
            other_mode_l: 0,
            fog_color: [0, 0, 0, 0],
            fog_mul: 0,
            fog_offset: 0,
            prim: [0, 0, 0, 0],
            prim_depth: PrimitiveDepth { z: 0, dz: 0 },
            convert: [0, 0, 0, 0, 0, 0],
            key: [k, k, k],
            prim_lod_frac: 0,
            prim_min_level: 0,
            env: [0, 0, 0, 0],
            blend_color: [0, 0, 0, 255],
            tlut_fmt: 0,
            color_image: ColorImage { fmt: 0, siz: 0, width: 0, addr: 0 },
            color_changed: false,
            depth_image: 0,
            depth_changed: false,
            scissor: Scissor { ulx: 0, uly: 0, lrx: 0, lry: 0, mode: 0 },
            fill_color_raw: 0,
        }
    }
}


/// The signed value of a nine-bit two's-complement field.
pub open spec fn spec_sext9(v: u32) -> i16 {
    if v >= 256 {
        (v - 512) as i16
    } else {
        v as i16
    }
}

/// Sign-extends a nine-bit field.
fn sext9(v: u32) -> (r: i16)
    requires
        v < 512,
    ensures
        r == spec_sext9(v),
{
    let x = v as i16;
    assert(((x << 7u32) >> 7u32) == (if x >= 256 { (x - 512) as i16 } else { x })) by (bit_vector)
        requires
            0 <= x < 512,
    ;
    (x << 7u32) >> 7u32
}

/// Tile extent along one axis from 10.2 coordinates: `floor((lr - ul) / 4) + 1`, at least 1.
pub open spec fn spec_tile_extent(ul: u16, lr: u16) -> u16 {
    let e = (lr as int - ul as int) / 4 + 1;
    (if e < 1 {
        1
    } else {
        e
    }) as u16
}

fn tile_extent(ul: u16, lr: u16) -> (r: u16)
    requires
        ul < 4096,
        lr < 4096,
    ensures
        r == spec_tile_extent(ul, lr),
        1 <= r <= 1024,
{
    let d = lr as i32 - ul as i32;
    let q = if d >= 0 {
        d / 4
    } else {
        -((-d + 3) / 4)
    };
    assert(q == (lr as int - ul as int) / 4) by (nonlinear_arith)
        requires
            d == lr as int - ul as int,
            q == (if d >= 0 { d / 4 } else { -((-d + 3) / 4) }),
            -4096 < d < 4096,
    ;
    let e = q + 1;
    if e < 1 {
        1
    } else {
        e as u16
    }
}

/// G_SETCOMBINE: `combine_l = w0`, `combine_h = w1`.
pub open spec fn spec_set_combine(rdp: Rdp, c: Cmd) -> Rdp {
    Rdp { combine_l: c.w0, combine_h: c.w1, ..rdp }
}

pub fn set_combine(c: &Cmd, rdp: &mut Rdp)
    ensures
        *final(rdp) == spec_set_combine(*old(rdp), *c),
{
    rdp.combine_l = c.w0;
    rdp.combine_h = c.w1;
}

/// G_SETPRIMCOLOR: LOD fraction `w0[7:0]`, minimum LOD level `w0[12:8]`, color = `w1`.
pub open spec fn spec_set_prim_color(rdp: Rdp, c: Cmd) -> Rdp {
    Rdp {
        prim_lod_frac: field(c.w0, 0, 8) as u8,
        prim_min_level: field(c.w0, 8, 5) as u8,
        prim: be_bytes(c.w1),
        ..rdp
    }
}

pub fn set_prim_color(c: &Cmd, rdp: &mut Rdp)
    ensures
        *final(rdp) == spec_set_prim_color(*old(rdp), *c),
{
    rdp.prim_lod_frac = c.p0(0, 8) as u8;
    rdp.prim_min_level = c.p0(8, 5) as u8;
    rdp.prim = to_be_bytes(c.w1);
}

/// G_SETENVCOLOR: environment color = `w1`.
pub open spec fn spec_set_env_color(rdp: Rdp, c: Cmd) -> Rdp {
    Rdp { env: be_bytes(c.w1), ..rdp }
}

pub fn set_env_color(c: &Cmd, rdp: &mut Rdp)
    ensures
        *final(rdp) == spec_set_env_color(*old(rdp), *c),
{
    rdp.env = to_be_bytes(c.w1);
}

/// G_SETPRIMDEPTH: `z = w1[31:16]`, `dz = w1[15:0]`.
pub open spec fn spec_set_prim_depth(rdp: Rdp, c: Cmd) -> Rdp {
    Rdp { prim_depth: PrimitiveDepth { z: (c.w1 >> 16u32) as u16, dz: c.w1 as u16 }, ..rdp }
}

pub fn set_prim_depth(c: &Cmd, rdp: &mut Rdp)
    ensures
        *final(rdp) == spec_set_prim_depth(*old(rdp), *c),
{
    rdp.prim_depth = PrimitiveDepth { z: (c.w1 >> 16u32) as u16, dz: c.w1 as u16 };
}

/// G_SETCONVERT: six signed nine-bit coefficients `w0[21:13]`, `w0[12:4]`,
/// `w0[3:0]:w1[31:27]`, `w1[26:18]`, `w1[17:9]`, `w1[8:0]`.
pub open spec fn spec_set_convert(rdp: Rdp, c: Cmd) -> Rdp {
    Rdp {
        convert: [
            spec_sext9(field(c.w0, 13, 9)),
            spec_sext9(field(c.w0, 4, 9)),
            spec_sext9((field(c.w0, 0, 4) << 5u32) | field(c.w1, 27, 5)),
            spec_sext9(field(c.w1, 18, 9)),
            spec_sext9(field(c.w1, 9, 9)),
            spec_sext9(field(c.w1, 0, 9)),
        ],
        ..rdp
    }
}

pub fn set_convert(c: &Cmd, rdp: &mut Rdp)
    ensures
        *final(rdp) == spec_set_convert(*old(rdp), *c),
        forall|k: int| 0 <= k < 6 ==> -256 <= #[trigger] final(rdp).convert[k] <= 255,
{
    let hi = c.p0(0, 4);
    let lo = c.p1(27, 5);
    assert((hi << 5u32) | lo < 512) by (bit_vector)
        requires
            hi < 16,
            lo < 32,
    ;
    rdp.convert = [
        sext9(c.p0(13, 9)),
        sext9(c.p0(4, 9)),
        sext9((hi << 5u32) | lo),
        sext9(c.p1(18, 9)),
        sext9(c.p1(9, 9)),
        sext9(c.p1(0, 9)),
    ];
}

/// G_SETKEYR: red key channel from `w1`: width `[27:16]`, centre `[15:8]`, scale `[7:0]`.
pub open spec fn spec_set_key_r(rdp: Rdp, c: Cmd) -> Rdp {
    Rdp {
        key: [
            KeyChannel {
                center: field(c.w1, 8, 8) as u8,
                scale: field(c.w1, 0, 8) as u8,
                width: field(c.w1, 16, 12) as u16,
            },
            rdp.key[1],
            rdp.key[2],
        ],
        ..rdp
    }
}

pub fn set_key_r(c: &Cmd, rdp: &mut Rdp)
    ensures
        *final(rdp) == spec_set_key_r(*old(rdp), *c),
{
    let k = KeyChannel {
        center: c.p1(8, 8) as u8,
        scale: c.p1(0, 8) as u8,
        width: c.p1(16, 12) as u16,
    };
    rdp.key = [k, rdp.key[1], rdp.key[2]];
}

/// G_SETKEYGB: green (centre `w1[31:24]`, scale `w1[23:16]`, width `w0[23:12]`) and blue
/// (centre `w1[15:8]`, scale `w1[7:0]`, width `w0[11:0]`) key channels.
pub open spec fn spec_set_key_gb(rdp: Rdp, c: Cmd) -> Rdp {
    Rdp {
        key: [
            rdp.key[0],
            KeyChannel {
                center: field(c.w1, 24, 8) as u8,
                scale: field(c.w1, 16, 8) as u8,
                width: field(c.w0, 12, 12) as u16,
            },
            KeyChannel {
                center: field(c.w1, 8, 8) as u8,
                scale: field(c.w1, 0, 8) as u8,
                width: field(c.w0, 0, 12) as u16,
            },
        ],
        ..rdp
    }
}

pub fn set_key_gb(c: &Cmd, rdp: &mut Rdp)
    ensures
        *final(rdp) == spec_set_key_gb(*old(rdp), *c),
{
    let g = KeyChannel {
        center: c.p1(24, 8) as u8,
        scale: c.p1(16, 8) as u8,
        width: c.p0(12, 12) as u16,
    };
    let b = KeyChannel {
        center: c.p1(8, 8) as u8,
        scale: c.p1(0, 8) as u8,
        width: c.p0(0, 12) as u16,
    };
    rdp.key = [rdp.key[0], g, b];
}

/// G_SETFOGCOLOR: fog color = `w1`.
pub open spec fn spec_set_fog_color(rdp: Rdp, c: Cmd) -> Rdp {
    Rdp { fog_color: be_bytes(c.w1), ..rdp }
}

pub fn set_fog_color(c: &Cmd, rdp: &mut Rdp)
    ensures
        *final(rdp) == spec_set_fog_color(*old(rdp), *c),
{
    rdp.fog_color = to_be_bytes(c.w1);
}

/// G_SETBLENDCOLOR: blend color = `w1`.
pub open spec fn spec_set_blend_color(rdp: Rdp, c: Cmd) -> Rdp {
    Rdp { blend_color: be_bytes(c.w1), ..rdp }
}

pub fn set_blend_color(c: &Cmd, rdp: &mut Rdp)
    ensures
        *final(rdp) == spec_set_blend_color(*old(rdp), *c),
{
    rdp.blend_color = to_be_bytes(c.w1);
}

/// Tile descriptor `t` with the G_SETTILE fields of `c`: format `w0[23:21]`, size `w0[20:19]`,
/// line `w0[17:9]`, TMEM address `w0[8:0]`, palette `w1[23:20]`, cmt `w1[19:18]`,
/// maskt `w1[17:14]`, shiftt `w1[13:10]`, cms `w1[9:8]`, masks `w1[7:4]`, shifts `w1[3:0]`.
pub open spec fn spec_tile_fields(t: TileDescriptor, c: Cmd) -> TileDescriptor {
    TileDescriptor {
        siz: field(c.w0, 19, 2) as u8,
        fmt: field(c.w0, 21, 3) as u8,
        line: field(c.w0, 9, 9) as u16,
        tmem_addr: field(c.w0, 0, 9) as u16,
        palette: field(c.w1, 20, 4) as u8,
        cmt: field(c.w1, 18, 2) as u8,
        maskt: field(c.w1, 14, 4) as u8,
        shiftt: field(c.w1, 10, 4) as u8,
        cms: field(c.w1, 8, 2) as u8,
        masks: field(c.w1, 4, 4) as u8,
        shifts: field(c.w1, 0, 4) as u8,
        ..t
    }
}

/// G_SETTILE on `old`: the tile `w1[26:24]` names takes the fields of `c`.
pub open spec fn set_tile_post(c: Cmd, old: Rdp, new: Rdp) -> bool {
    &&& new.tiles@ == old.tiles@.update(
        field(c.w1, 24, 3) as int,
        spec_tile_fields(old.tiles[field(c.w1, 24, 3) as int], c),
    )
    &&& new == (Rdp { tiles: new.tiles, ..old })
}

/// G_SETTILE: updates the tile `w1[26:24]` names.
pub fn set_tile(c: &Cmd, rdp: &mut Rdp)
    ensures
        set_tile_post(*c, *old(rdp), *final(rdp)),
{
    let tile = c.p1(24, 3) as usize;
    let t = rdp.tiles[tile];
    let nt = TileDescriptor {
        siz: c.p0(19, 2) as u8,
        fmt: c.p0(21, 3) as u8,
        line: c.p0(9, 9) as u16,
        tmem_addr: c.p0(0, 9) as u16,
        palette: c.p1(20, 4) as u8,
        cmt: c.p1(18, 2) as u8,
        maskt: c.p1(14, 4) as u8,
        shiftt: c.p1(10, 4) as u8,
        cms: c.p1(8, 2) as u8,
        masks: c.p1(4, 4) as u8,
        shifts: c.p1(0, 4) as u8,
        ..t
    };
    rdp.tiles[tile] = nt;
}


/// G_SETTILESIZE on `old`: the tile `w1[26:24]` names takes the 10.2 corners
/// `w0[23:12], w0[11:0]`, `w1[23:12], w1[11:0]` and the extents they span.
pub open spec fn set_tile_size_post(c: Cmd, old: Rdp, new: Rdp) -> bool {
    let i = field(c.w1, 24, 3) as int;
    let uls = field(c.w0, 12, 12) as u16;
    let ult = field(c.w0, 0, 12) as u16;
    let lrs = field(c.w1, 12, 12) as u16;
    let lrt = field(c.w1, 0, 12) as u16;
    &&& new.tiles@ == old.tiles@.update(
        i,
        TileDescriptor {
            uls,
            ult,
            lrs,
            lrt,
            width: spec_tile_extent(uls, lrs),
            height: spec_tile_extent(ult, lrt),
            ..old.tiles[i]
        },
    )
    &&& new == (Rdp { tiles: new.tiles, ..old })
}

/// G_SETTILESIZE: updates the coordinates and extent of the tile `w1[26:24]` names.
pub fn set_tile_size(c: &Cmd, rdp: &mut Rdp)
    ensures
        set_tile_size_post(*c, *old(rdp), *final(rdp)),
{
    let tile = c.p1(24, 3) as usize;
    let t = rdp.tiles[tile];
    let uls = c.p0(12, 12) as u16;
    let ult = c.p0(0, 12) as u16;
    let lrs = c.p1(12, 12) as u16;
    let lrt = c.p1(0, 12) as u16;
    let nt = TileDescriptor {
        uls,
        ult,
        lrs,
        lrt,
        width: tile_extent(uls, lrs),
        height: tile_extent(ult, lrt),
        ..t
    };
    rdp.tiles[tile] = nt;
}

/// G_RDPSETOTHERMODE: `other_mode_h = w0[23:0]` (which also sets TEXTCONV),
/// `other_mode_l = w1`.
pub open spec fn spec_rdp_set_other_mode(rdp: Rdp, c: Cmd) -> Rdp {
    Rdp {
        other_mode_h: c.w0 & 0x00FF_FFFF,
        texture_conversion_set: true,
        other_mode_l: c.w1,
        ..rdp
    }
}

pub fn rdp_set_other_mode(c: &Cmd, rdp: &mut Rdp)
    ensures
        *final(rdp) == spec_rdp_set_other_mode(*old(rdp), *c),
{
    rdp.other_mode_h = c.w0 & 0x00FF_FFFF;
    rdp.texture_conversion_set = true;
    rdp.other_mode_l = c.w1;
}

/// G_SETSCISSOR: the 10.2 corners `w0[23:12], w0[11:0]` and `w1[23:12], w1[11:0]` in whole
/// pixels, mode `w1[25:24]`.
pub open spec fn spec_set_scissor(rdp: Rdp, c: Cmd) -> Rdp {
    Rdp {
        scissor: Scissor {
            ulx: (field(c.w0, 12, 12) / 4) as i32,
            uly: (field(c.w0, 0, 12) / 4) as i32,
            mode: field(c.w1, 24, 2) as u8,
            lrx: (field(c.w1, 12, 12) / 4) as i32,
            lry: (field(c.w1, 0, 12) / 4) as i32,
        },
        ..rdp
    }
}

pub fn set_scissor(c: &Cmd, rdp: &mut Rdp)
    ensures
        *final(rdp) == spec_set_scissor(*old(rdp), *c),
{
    let a = c.p0(12, 12) as i32;
    let b = c.p0(0, 12) as i32;
    let d = c.p1(12, 12) as i32;
    let e = c.p1(0, 12) as i32;
    assert(a >> 2u32 == a / 4 && b >> 2u32 == b / 4 && d >> 2u32 == d / 4 && e >> 2u32 == e / 4)
        by (bit_vector)
        requires
            0 <= a < 4096,
            0 <= b < 4096,
            0 <= d < 4096,
            0 <= e < 4096,
    ;
    rdp.scissor = Scissor { ulx: a >> 2u32, uly: b >> 2u32, mode: c.p1(24, 2) as u8, lrx: d >> 2u32, lry: e >> 2u32 };
}

/// G_SETFILLCOLOR: stores `w1` verbatim.
pub open spec fn spec_set_fill_color(rdp: Rdp, c: Cmd) -> Rdp {
    Rdp { fill_color_raw: c.w1, ..rdp }
}

pub fn set_fill_color(c: &Cmd, rdp: &mut Rdp)
    ensures
        *final(rdp) == spec_set_fill_color(*old(rdp), *c),
{
    rdp.fill_color_raw = c.w1;
}

/// The color image G_SETCIMG describes: format `w0[23:21]`, size `w0[20:19]`,
/// width `w0[11:0] + 1`, at the resolved address `addr`.
pub open spec fn spec_cimg(c: Cmd, addr: u64) -> ColorImage {
    ColorImage {
        fmt: field(c.w0, 21, 3) as u8,
        siz: field(c.w0, 19, 2) as u8,
        width: (field(c.w0, 0, 12) + 1) as u16,
        addr,
    }
}

/// G_SETCIMG with its address already resolved: a different image replaces the current one
/// and marks it changed; the same image leaves the state alone.
pub open spec fn spec_set_color_image(rdp: Rdp, c: Cmd, addr: u64) -> Rdp {
    if rdp.color_image != spec_cimg(c, addr) {
        Rdp { color_image: spec_cimg(c, addr), color_changed: true, ..rdp }
    } else {
        rdp
    }
}

pub fn set_color_image(c: &Cmd, rdp: &mut Rdp, addr: u64)
    ensures
        *final(rdp) == spec_set_color_image(*old(rdp), *c, addr),
{
    let fmt = c.p0(21, 3) as u8;
    let siz = c.p0(19, 2) as u8;
    let width = (c.p0(0, 12) as u16) + 1;
    let new = ColorImage { fmt, siz, width, addr };
    if rdp.color_image != new {
        rdp.color_image = new;
        rdp.color_changed = true;
    }
}

/// G_SETZIMG with its address already resolved: a different address replaces the current one
/// and marks it changed.
pub open spec fn spec_set_depth_image(rdp: Rdp, addr: u64) -> Rdp {
    if addr != rdp.depth_image {
        Rdp { depth_image: addr, depth_changed: true, ..rdp }
    } else {
        rdp
    }
}

pub fn set_depth_image(rdp: &mut Rdp, addr: u64)
    ensures
        *final(rdp) == spec_set_depth_image(*old(rdp), addr),
{
    if addr != rdp.depth_image {
        rdp.depth_image = addr;
        rdp.depth_changed = true;
    }
}

/// G_SETTIMG: the texture image the loads read (format, size, raw width field, address).
pub fn set_texture_image(fmt: u8, siz: u8, width: u16, addr: u64, rdp: &mut Rdp)
    ensures
        *final(rdp) == (Rdp { tex_image: (fmt, siz, width, addr), ..*old(rdp) }),
{
    rdp.tex_image = (fmt, siz, width, addr);
}


/// What an RDP command did.
#[derive(Clone, Copy, Debug, PartialEq, Eq, Structural)]
pub enum RdpOutcome {
    /// The opcode has no RDP handler.
    NotRdp,
    /// Registers updated; `material_dirty` tells whether the draw material must be rebuilt.
    Applied { material_dirty: bool },
    /// An RDPHALF continuation word reached the dispatch table: the rectangle word count is out
    /// of step.
    StrayRdphalf,
    /// A load's source bytes are not all inside memory; the registers are unchanged.
    MemoryUnavailable,
    /// A G_LOADTLUT with nonzero legacy row fields; the registers are unchanged.
    UnsupportedParameters,
    /// LoadBlock copied its source into `tmem`. The TMEM bank write takes the load tile's
    /// base `dst_words` and row stride `line_words` (64-bit words), the DXT increment, the word
    /// count and the texel size.
    LoadedBlock { dst_words: u16, line_words: u16, dxt: u32, words: u32, siz: u8 },
    /// LoadTile copied its strided source region into `tmem`. The TMEM bank write takes the
    /// load tile's base and stride, `row_count` rows of `words_per_row` words, read
    /// `bytes_per_row` apart in the source.
    LoadedTile {
        dst_words: u16,
        line_words: u16,
        row_count: u32,
        words_per_row: u32,
        bytes_per_row: u32,
        siz: u8,
    },
    /// LoadTLUT: `count` 16-bit entries at `addr` (all inside memory) go to TMEM word `dst_word`.
    LoadTlut { addr: u64, count: u32, dst_word: u16 },
}

/// `a - b`, or zero when `b > a`.
pub open spec fn sat_sub(a: u32, b: u32) -> u32 {
    if a >= b {
        (a - b) as u32
    } else {
        0
    }
}

/// Words a LoadBlock moves: `((lrs - uls) >> (4 - siz)) + 1`, the difference saturating at 0.
pub open spec fn spec_block_words(uls: u32, lrs: u32, siz: u8) -> u32 {
    ((sat_sub(lrs, uls) >> (4 - siz) as u32) + 1) as u32
}

/// Whether `len` bytes at `addr` all lie inside `mem`.
pub open spec fn span_inside(mem: Seq<u8>, addr: int, len: int) -> bool {
    0 <= addr && 0 <= len && addr + len <= mem.len()
}

/// Copies the `len` bytes at `addr`, when they all lie inside the image.
fn read_exact(mem: &RdramImage, addr: u64, len: usize) -> (r: Option<Vec<u8>>)
    ensures
        r is Some <==> span_inside(mem.bytes@, addr as int, len as int),
        r matches Some(v) ==> v@ == mem.bytes@.subrange(addr as int, addr + len),
{
    let n = mem.bytes.len();
    if addr > n as u64 {
        return None;
    }
    let a = addr as usize;
    if len > n - a {
        return None;
    }
    let s = &mem.bytes[a..a + len];
    Some(vstd::slice::slice_to_vec(s))
}

/// The effect of G_LOADBLOCK on `old`: `words` 64-bit words of the texture image (see
/// `spec_block_words`) go to the bank destination of the tile `w1[26:24]` names.
pub open spec fn load_block_post(c: Cmd, old: Rdp, new: Rdp, mem: Seq<u8>, r: RdpOutcome) -> bool {
{
            let uls = field(c.w0, 12, 12);
            let lrs = field(c.w1, 12, 12);
            let words = spec_block_words(uls, lrs, old.tex_image.1);
            let addr = old.tex_image.3 as int;
            let t = old.tiles[field(c.w1, 24, 3) as int];
            if span_inside(mem, addr, words * 8) {
                &&& new.tmem@ == mem.subrange(addr, addr + words * 8)
                &&& new == (Rdp { tmem: new.tmem, load_via_tile: false, ..old })
                &&& r == RdpOutcome::LoadedBlock {
                    dst_words: t.tmem_addr,
                    line_words: t.line,
                    dxt: field(c.w1, 0, 12),
                    words,
                    siz: old.tex_image.1,
                }
            } else {
                &&& new == old
                &&& r == RdpOutcome::MemoryUnavailable
            }
        }
}

pub fn load_block(c: &Cmd, rdp: &mut Rdp, mem: &RdramImage) -> (r: RdpOutcome)
    requires
        old(rdp).tex_image.1 <= 4,
    ensures
        load_block_post(*c, *old(rdp), *final(rdp), mem.bytes@, r),
{
    let (_fmt, siz, _w, addr) = rdp.tex_image;
    let tile_idx = c.p1(24, 3) as usize;
    let uls = c.p0(12, 12);
    let lrs = c.p1(12, 12);
    let dxt = c.p1(0, 12);
    let diff = if lrs >= uls {
        lrs - uls
    } else {
        0
    };
    let sh = 4 - siz as u32;
    assert(diff >> sh <= diff) by (bit_vector);
    let words = (diff >> sh) + 1;
    let bytes = (words as usize) << 3usize;
    assert((words as usize) << 3usize == (words as usize) * 8) by (bit_vector)
        requires
            words <= 4096,
    ;
    match read_exact(mem, addr, bytes) {
        None => RdpOutcome::MemoryUnavailable,
        Some(src) => {
            let t = rdp.tiles[tile_idx];
            rdp.tmem = src;
            rdp.load_via_tile = false;
            RdpOutcome::LoadedBlock { dst_words: t.tmem_addr, line_words: t.line, dxt, words, siz }
        },
    }
}


/// Geometry of a LoadTile from the 10.2 corners of `c` and the texture image of `rdp`:
/// `(row_count, words_per_row, bytes_per_row, source offset, source length)`.
pub open spec fn spec_tile_load(c: Cmd, rdp: Rdp) -> (u32, u32, u32, int, int) {
    let siz = rdp.tex_image.1 as u32;
    let uls = field(c.w0, 12, 12) >> 2u32;
    let ult = field(c.w0, 0, 12) >> 2u32;
    let lrs = field(c.w1, 12, 12) >> 2u32;
    let lrt = field(c.w1, 0, 12) >> 2u32;
    let row_count = (1 + sat_sub(lrt, ult)) as u32;
    let words_per_row = ((sat_sub(lrs, uls) >> (4 - siz) as u32) + 1) as u32;
    let bytes_per_row = (((rdp.tex_image.2 as u32 + 1) as u32) << siz) >> 1u32;
    let offset = ((uls << siz) >> 1u32) as int + (bytes_per_row as int) * (ult as int);
    let len = (row_count as int - 1) * (bytes_per_row as int) + (words_per_row as int) * 8;
    (row_count, words_per_row, bytes_per_row, offset, len)
}

/// The effect of G_LOADTILE on `old`: a strided sub-rectangle of the texture image,
/// starting `offset` bytes in and spanning `row_count` rows `bytes_per_row` apart, with
/// `words_per_row` words in the last row (see `spec_tile_load`).
pub open spec fn load_tile_post(c: Cmd, old: Rdp, new: Rdp, mem: Seq<u8>, r: RdpOutcome) -> bool {
{
            let (row_count, words_per_row, bytes_per_row, offset, len) = spec_tile_load(c, old);
            let start = old.tex_image.3 as int + offset;
            let t = old.tiles[field(c.w1, 24, 3) as int];
            if start <= u64::MAX && span_inside(mem, start, len) {
                &&& new.tmem@ == mem.subrange(start, start + len)
                &&& new == (Rdp { tmem: new.tmem, load_via_tile: true, ..old })
                &&& r == RdpOutcome::LoadedTile {
                    dst_words: t.tmem_addr,
                    line_words: t.line,
                    row_count,
                    words_per_row,
                    bytes_per_row,
                    siz: old.tex_image.1,
                }
            } else {
                &&& new == old
                &&& r == RdpOutcome::MemoryUnavailable
            }
        }
}

pub fn load_tile(c: &Cmd, rdp: &mut Rdp, mem: &RdramImage) -> (r: RdpOutcome)
    requires
        old(rdp).tex_image.1 <= 4,
    ensures
        load_tile_post(*c, *old(rdp), *final(rdp), mem.bytes@, r),
{
    let (_fmt, siz, width, addr) = rdp.tex_image;
    let s = siz as u32;
    let tile_idx = c.p1(24, 3) as usize;
    let uls = c.p0(12, 12) >> 2u32;
    let ult = c.p0(0, 12) >> 2u32;
    let lrs = c.p1(12, 12) >> 2u32;
    let lrt = c.p1(0, 12) >> 2u32;
    assert(field(c.w0, 12, 12) >> 2u32 <= 1023 && field(c.w0, 0, 12) >> 2u32 <= 1023
        && field(c.w1, 12, 12) >> 2u32 <= 1023 && field(c.w1, 0, 12) >> 2u32 <= 1023) by {
        let a = field(c.w0, 12, 12);
        let b = field(c.w0, 0, 12);
        let d = field(c.w1, 12, 12);
        let e = field(c.w1, 0, 12);
        assert(a >> 2u32 <= 1023 && b >> 2u32 <= 1023 && d >> 2u32 <= 1023 && e >> 2u32 <= 1023)
            by (bit_vector)
            requires
                a < 4096,
                b < 4096,
                d < 4096,
                e < 4096,
        ;
    }
    let tile_width = if lrs >= uls {
        lrs - uls
    } else {
        0
    };
    let row_count = 1 + if lrt >= ult {
        lrt - ult
    } else {
        0
    };
    let sh = 4 - s;
    assert(tile_width >> sh <= tile_width) by (bit_vector);
    let words_per_row = (tile_width >> sh) + 1;
    let actual_width = width as u32 + 1;
    assert((actual_width << s) >> 1u32 <= 0x8_0000) by (bit_vector)
        requires
            actual_width <= 0x1_0000,
            s <= 4,
    ;
    assert((uls << s) >> 1u32 <= 0x2000) by (bit_vector)
        requires
            uls <= 1023,
            s <= 4,
    ;
    let bytes_per_row = (actual_width << s) >> 1u32;
    let bytes_offset = (uls << s) >> 1u32;
    assert((bytes_per_row as int) * (ult as int) <= 0x8_0000 * 1023) by (nonlinear_arith)
        requires
            bytes_per_row <= 0x8_0000,
            ult <= 1023,
    ;
    let offset = bytes_offset as u64 + (bytes_per_row as u64) * (ult as u64);
    let texture_start = match addr.checked_add(offset) {
        Some(v) => v,
        None => {
            return RdpOutcome::MemoryUnavailable;
        },
    };
    assert(((row_count - 1) as int) * (bytes_per_row as int) <= 1023 * 0x8_0000) by (nonlinear_arith)
        requires
            1 <= row_count <= 1024,
            bytes_per_row <= 0x8_0000,
    ;
    let src_len = (row_count as usize - 1) * bytes_per_row as usize + words_per_row as usize * 8;
    match read_exact(mem, texture_start, src_len) {
        None => RdpOutcome::MemoryUnavailable,
        Some(src) => {
            let t = rdp.tiles[tile_idx];
            rdp.tmem = src;
            rdp.load_via_tile = true;
            RdpOutcome::LoadedTile {
                dst_words: t.tmem_addr,
                line_words: t.line,
                row_count,
                words_per_row,
                bytes_per_row,
                siz,
            }
        },
    }
}

/// The outcome of G_LOADTLUT: nonzero legacy row fields (`w0[23:0]`, `w1[13:0]`) are
/// rejected; otherwise `w1[23:14] + 1` entries (two bytes each) at the texture image
/// address, which must lie inside memory, go to the TMEM word of the tile `w1[26:24]` names.
pub open spec fn load_tlut_outcome(c: Cmd, rdp: Rdp, mem: Seq<u8>, r: RdpOutcome) -> bool {
{
            let count = field(c.w1, 14, 10) + 1;
            if c.w0 & 0x00ff_ffff != 0 || c.w1 & 0x3fff != 0 {
                r == RdpOutcome::UnsupportedParameters
            } else if span_inside(mem, rdp.tex_image.3 as int, count * 2) {
                r == RdpOutcome::LoadTlut {
                    addr: rdp.tex_image.3,
                    count: count as u32,
                    dst_word: rdp.tiles[field(c.w1, 24, 3) as int].tmem_addr,
                }
            } else {
                r == RdpOutcome::MemoryUnavailable
            }
        }
}

pub fn load_tlut(c: &Cmd, rdp: &Rdp, mem: &RdramImage) -> (r: RdpOutcome)
    ensures
        load_tlut_outcome(*c, *rdp, mem.bytes@, r),
{
    if c.w0 & 0x00ff_ffff != 0 || c.w1 & 0x3fff != 0 {
        return RdpOutcome::UnsupportedParameters;
    }
    let addr = rdp.tex_image.3;
    let count = c.p1(14, 10) + 1;
    let n = mem.bytes.len();
    if addr > n as u64 || (count as usize) * 2 > n - addr as usize {
        return RdpOutcome::MemoryUnavailable;
    }
    let tile = c.p1(24, 3) as usize;
    RdpOutcome::LoadTlut { addr, count, dst_word: rdp.tiles[tile].tmem_addr }
}


/// The effect of dispatching `c` to the RDP handlers on `old` with memory image `mem`.
pub open spec fn execute_rdp_post(c: Cmd, old: Rdp, new: Rdp, mem: RdramImage, r: RdpOutcome) -> bool {
    let op = (c.w0 >> 24u32) as u8;
    let clean = RdpOutcome::Applied { material_dirty: false };
    let dirty = RdpOutcome::Applied { material_dirty: true };
    if op == G_SETCOMBINE {
        new == spec_set_combine(old, c) && r == dirty
    } else if op == G_SETTILE {
        set_tile_post(c, old, new) && r == dirty
    } else if op == G_SETTILESIZE {
        set_tile_size_post(c, old, new) && r == dirty
    } else if op == G_LOADBLOCK {
        load_block_post(c, old, new, mem.bytes@, r)
    } else if op == G_LOADTILE {
        load_tile_post(c, old, new, mem.bytes@, r)
    } else if op == G_LOADTLUT {
        new == old && load_tlut_outcome(c, old, mem.bytes@, r)
    } else if op == G_SETPRIMCOLOR {
        new == spec_set_prim_color(old, c) && r == dirty
    } else if op == G_SETPRIMDEPTH {
        new == spec_set_prim_depth(old, c) && r == clean
    } else if op == G_SETCONVERT {
        new == spec_set_convert(old, c) && r == dirty
    } else if op == G_SETKEYR {
        new == spec_set_key_r(old, c) && r == dirty
    } else if op == G_SETKEYGB {
        new == spec_set_key_gb(old, c) && r == dirty
    } else if op == G_SETENVCOLOR {
        new == spec_set_env_color(old, c) && r == dirty
    } else if op == G_SETFOGCOLOR {
        new == spec_set_fog_color(old, c) && r == clean
    } else if op == G_SETBLENDCOLOR {
        new == spec_set_blend_color(old, c) && r == dirty
    } else if op == G_RDPSETOTHERMODE {
        new == spec_rdp_set_other_mode(old, c) && r == dirty
    } else if op == G_SETCIMG {
        new == spec_set_color_image(old, c, mem.spec_from_segmented(c.w1_addr as u32) as u64)
            && r == clean
    } else if op == G_SETZIMG {
        new == spec_set_depth_image(old, mem.spec_from_segmented(c.w1_addr as u32) as u64) && r
            == clean
    } else if op == G_SETSCISSOR {
        new == spec_set_scissor(old, c) && r == clean
    } else if op == G_SETFILLCOLOR {
        new == spec_set_fill_color(old, c) && r == clean
    } else if op == G_NOOP || op == G_RDPLOADSYNC || op == G_RDPPIPESYNC || op == G_RDPTILESYNC
        || op == G_RDPFULLSYNC {
        new == old && r == clean
    } else if op == G_RDPHALF_1 || op == G_RDPHALF_2 {
        new == old && r == RdpOutcome::StrayRdphalf
    } else {
        new == old && r == RdpOutcome::NotRdp
    }
}

/// Dispatches `c` to the RDP handler its opcode names. Opcodes without an RDP handler
/// leave the state alone and report `NotRdp`; a stray RDPHALF word is reported, not applied.
pub fn execute_rdp(c: &Cmd, rdp: &mut Rdp, mem: &RdramImage) -> (r: RdpOutcome)
    requires
        old(rdp).tex_image.1 <= 4,
    ensures
        execute_rdp_post(*c, *old(rdp), *final(rdp), *mem, r),
{
    let op = c.opcode();
    let clean = RdpOutcome::Applied { material_dirty: false };
    let dirty = RdpOutcome::Applied { material_dirty: true };
    if op == G_SETCOMBINE {
        set_combine(c, rdp);
        dirty
    } else if op == G_SETTILE {
        set_tile(c, rdp);
        dirty
    } else if op == G_SETTILESIZE {
        set_tile_size(c, rdp);
        dirty
    } else if op == G_LOADBLOCK {
        load_block(c, rdp, mem)
    } else if op == G_LOADTILE {
        load_tile(c, rdp, mem)
    } else if op == G_LOADTLUT {
        load_tlut(c, rdp, mem)
    } else if op == G_SETPRIMCOLOR {
        set_prim_color(c, rdp);
        dirty
    } else if op == G_SETPRIMDEPTH {
        set_prim_depth(c, rdp);
        clean
    } else if op == G_SETCONVERT {
        set_convert(c, rdp);
        dirty
    } else if op == G_SETKEYR {
        set_key_r(c, rdp);
        dirty
    } else if op == G_SETKEYGB {
        set_key_gb(c, rdp);
        dirty
    } else if op == G_SETENVCOLOR {
        set_env_color(c, rdp);
        dirty
    } else if op == G_SETFOGCOLOR {
        set_fog_color(c, rdp);
        clean
    } else if op == G_SETBLENDCOLOR {
        set_blend_color(c, rdp);
        dirty
    } else if op == G_RDPSETOTHERMODE {
        rdp_set_other_mode(c, rdp);
        dirty
    } else if op == G_SETCIMG {
        let addr = mem.resolve(c.w1_addr);
        set_color_image(c, rdp, addr);
        clean
    } else if op == G_SETZIMG {
        let addr = mem.resolve(c.w1_addr);
        set_depth_image(rdp, addr);
        clean
    } else if op == G_SETSCISSOR {
        set_scissor(c, rdp);
        clean
    } else if op == G_SETFILLCOLOR {
        set_fill_color(c, rdp);
        clean
    } else if op == G_NOOP || op == G_RDPLOADSYNC || op == G_RDPPIPESYNC || op == G_RDPTILESYNC
        || op == G_RDPFULLSYNC {
        clean
    } else if op == G_RDPHALF_1 || op == G_RDPHALF_2 {
        RdpOutcome::StrayRdphalf
    } else {
        RdpOutcome::NotRdp
    }
}


/// The command gsDPSetTile packs: `w0` = 0xF5, fmt [23:21], siz [20:19], line [17:9],
/// TMEM address [8:0]; `w1` = tile [26:24], palette [23:20], cmt [19:18], maskt [17:14],
/// shiftt [13:10], cms [9:8], masks [7:4], shifts [3:0].
pub open spec fn gs_set_tile(
    fmt: u32,
    siz: u32,
    line: u32,
    tmem: u32,
    tile: u32,
    palette: u32,
    cmt: u32,
    maskt: u32,
    shiftt: u32,
    cms: u32,
    masks: u32,
    shifts: u32,
) -> Cmd {
    let w0 = (0xF5u32 << 24u32) | (fmt << 21u32) | (siz << 19u32) | (line << 9u32) | tmem;
    let w1 = (tile << 24u32) | (palette << 20u32) | (cmt << 18u32) | (maskt << 14u32) | (shiftt << 10u32) | (
    cms << 8u32) | (masks << 4u32) | shifts;
    Cmd { w0, w1, w1_addr: w1 as u64 }
}

proof fn lemma_set_tile_fields_bv(
    fmt: u32,
    siz: u32,
    line: u32,
    tmem: u32,
    tile: u32,
    palette: u32,
    cmt: u32,
    maskt: u32,
    shiftt: u32,
    cms: u32,
    masks: u32,
    shifts: u32,
    w0: u32,
    w1: u32,
) by (bit_vector)
    requires
        fmt < 8,
        siz < 4,
        line < 512,
        tmem < 512,
        tile < 8,
        palette < 16,
        cmt < 4,
        maskt < 16,
        shiftt < 16,
        cms < 4,
        masks < 16,
        shifts < 16,
        w0 == (0xF5u32 << 24u32) | (fmt << 21u32) | (siz << 19u32) | (line << 9u32) | tmem,
        w1 == (tile << 24u32) | (palette << 20u32) | (cmt << 18u32) | (maskt << 14u32) | (shiftt << 10u32) | (
        cms << 8u32) | (masks << 4u32) | shifts,
    ensures
        (w0 >> 24u32) == 0xF5u32,
        field(w0, 21, 3) == fmt,
        field(w0, 19, 2) == siz,
        field(w0, 9, 9) == line,
        field(w0, 0, 9) == tmem,
        field(w1, 24, 3) == tile,
        field(w1, 20, 4) == palette,
        field(w1, 18, 2) == cmt,
        field(w1, 14, 4) == maskt,
        field(w1, 10, 4) == shiftt,
        field(w1, 8, 2) == cms,
        field(w1, 4, 4) == masks,
        field(w1, 0, 4) == shifts,
{
}

/// G_SETTILE gives the tile it names exactly the fields gsDPSetTile packed, in their
/// places (the S and T masks, shifts and clamp/mirror modes each where gbi.h puts them),
/// and leaves the other tiles and registers alone.
pub proof fn lemma_set_tile_reads_gs_set_tile(
    fmt: u32,
    siz: u32,
    line: u32,
    tmem: u32,
    tile: u32,
    palette: u32,
    cmt: u32,
    maskt: u32,
    shiftt: u32,
    cms: u32,
    masks: u32,
    shifts: u32,
    old: Rdp,
    new: Rdp,
    mem: RdramImage,
    r: RdpOutcome,
)
    requires
        fmt < 8,
        siz < 4,
        line < 512,
        tmem < 512,
        tile < 8,
        palette < 16,
        cmt < 4,
        maskt < 16,
        shiftt < 16,
        cms < 4,
        masks < 16,
        shifts < 16,
        execute_rdp_post(
            gs_set_tile(fmt, siz, line, tmem, tile, palette, cmt, maskt, shiftt, cms, masks, shifts),
            old,
            new,
            mem,
            r,
        ),
    ensures
        new.tiles[tile as int].fmt == fmt,
        new.tiles[tile as int].siz == siz,
        new.tiles[tile as int].line == line,
        new.tiles[tile as int].tmem_addr == tmem,
        new.tiles[tile as int].palette == palette,
        new.tiles[tile as int].cmt == cmt,
        new.tiles[tile as int].maskt == maskt,
        new.tiles[tile as int].shiftt == shiftt,
        new.tiles[tile as int].cms == cms,
        new.tiles[tile as int].masks == masks,
        new.tiles[tile as int].shifts == shifts,
        forall|i: int| 0 <= i < 8 && i != tile ==> new.tiles[i] == old.tiles[i],
        new == (Rdp { tiles: new.tiles, ..old }),
        r == (RdpOutcome::Applied { material_dirty: true }),
{
    let c = gs_set_tile(fmt, siz, line, tmem, tile, palette, cmt, maskt, shiftt, cms, masks, shifts);
    lemma_set_tile_fields_bv(fmt, siz, line, tmem, tile, palette, cmt, maskt, shiftt, cms, masks, shifts, c.w0, c.w1);
    assert((c.w0 >> 24u32) as u8 == G_SETTILE);
    assert(new.tiles@[tile as int] == new.tiles[tile as int]);
}

/// An RDP command with opcode `op` in `w0[31:24]`, the rest of `w0` from `lo`.
pub open spec fn rdp_cmd(op: u32, lo: u32, w1: u32) -> Cmd {
    Cmd { w0: (op << 24u32) | lo, w1, w1_addr: w1 as u64 }
}

pub(crate) proof fn lemma_rect_words_bv(op: u32, a: u32, b: u32, top: u32, c: u32, d: u32, w0: u32, w1: u32)
    by (bit_vector)
    requires
        op < 256,
        a < 4096,
        b < 4096,
        top < 256,
        c < 4096,
        d < 4096,
        w0 == (op << 24u32) | ((a << 12u32) | b),
        w1 == (top << 24u32) | (c << 12u32) | d,
    ensures
        (w0 >> 24u32) == op,
        top < 8 ==> field(w1, 24, 3) == top,
        top < 4 ==> field(w1, 24, 2) == top,
        field(w0, 12, 12) == a,
        field(w0, 0, 12) == b,
        field(w1, 12, 12) == c,
        field(w1, 0, 12) == d,
{
}

proof fn lemma_register_words_bv(
    op: u32,
    lo: u32,
    w1: u32,
    w0: u32,
    r: u32,
    g: u32,
    b: u32,
    a: u32,
    f: u32,
    s: u32,
    wm: u32,
    m: u32,
    n: u32,
    kw: u32,
    kc: u32,
    ks: u32,
    wg: u32,
    wb: u32,
    z: u32,
    dz: u32,
)
    by (bit_vector)
    requires
        op < 256,
        r < 256,
        g < 256,
        b < 256,
        a < 256,
        f < 8,
        s < 4,
        wm < 4096,
        m < 32,
        n < 256,
        kw < 4096,
        kc < 256,
        ks < 256,
        wg < 4096,
        wb < 4096,
        z < 0x1_0000,
        dz < 0x1_0000,
        w0 == (op << 24u32) | lo,
    ensures
        lo == (f << 21u32) | (s << 19u32) | wm ==> (w0 >> 24u32) == op && field(w0, 21, 3) == f && field(w0, 19, 2) == s
            && field(w0, 0, 12) == wm,
        lo == (m << 8u32) | n ==> (w0 >> 24u32) == op && field(w0, 0, 8) == n && field(w0, 8, 5) == m,
        lo == (wg << 12u32) | wb ==> (w0 >> 24u32) == op && field(w0, 12, 12) == wg && field(w0, 0, 12) == wb,
        w1 == (r << 24u32) | (g << 16u32) | (b << 8u32) | a ==> (w1 >> 24u32) as u8 == r && (w1 >> 16u32) as u8 == g
            && (w1 >> 8u32) as u8 == b && w1 as u8 == a && field(w1, 24, 8) == r && field(w1, 16, 8) == g
            && field(w1, 8, 8) == b && field(w1, 0, 8) == a,
        w1 == (kw << 16u32) | (kc << 8u32) | ks ==> field(w1, 16, 12) == kw && field(w1, 8, 8) == kc && field(w1, 0, 8) == ks,
        w1 == (z << 16u32) | dz ==> (w1 >> 16u32) as u16 == z && w1 as u16 == dz,
        field(w1, 16, 12) == (w1 >> 16u32) % 4096,
        field(w1, 24, 8) == ((w1 >> 24u32) as u8) as u32,
        field(w1, 16, 8) == ((w1 >> 16u32) as u8) as u32,
        field(w1, 8, 8) == ((w1 >> 8u32) as u8) as u32,
        field(w1, 0, 8) == (w1 as u8) as u32,
{
}

/// G_SETTILESIZE takes the corners gsDPSetTileSize packs (`w0` = uls [23:12], ult [11:0];
/// `w1` = tile [26:24], lrs [23:12], lrt [11:0], all 10.2) into the tile it names, and gives
/// it the extent those corners span: `(lr - ul) / 4 + 1` texels on each axis, 1 when the
/// lower-right corner lies left of or above the upper-left.
pub proof fn lemma_set_tile_size_reads_gs_set_tile_size(
    tile: u32,
    uls: u32,
    ult: u32,
    lrs: u32,
    lrt: u32,
    old: Rdp,
    new: Rdp,
    mem: RdramImage,
    r: RdpOutcome,
)
    requires
        tile < 8,
        uls < 4096,
        ult < 4096,
        lrs < 4096,
        lrt < 4096,
        execute_rdp_post(
            rdp_cmd(0xF2, (uls << 12u32) | ult, (tile << 24u32) | (lrs << 12u32) | lrt),
            old,
            new,
            mem,
            r,
        ),
    ensures
        new.tiles[tile as int].uls == uls,
        new.tiles[tile as int].ult == ult,
        new.tiles[tile as int].lrs == lrs,
        new.tiles[tile as int].lrt == lrt,
        new.tiles[tile as int].width as int == if lrs >= uls { (lrs - uls) / 4 + 1 } else { 1 },
        new.tiles[tile as int].height as int == if lrt >= ult { (lrt - ult) / 4 + 1 } else { 1 },
        new.tiles[tile as int].fmt == old.tiles[tile as int].fmt,
        new.tiles[tile as int].tmem_addr == old.tiles[tile as int].tmem_addr,
        forall|i: int| 0 <= i < 8 && i != tile ==> new.tiles[i] == old.tiles[i],
        new == (Rdp { tiles: new.tiles, ..old }),
{
    let c = rdp_cmd(0xF2, (uls << 12u32) | ult, (tile << 24u32) | (lrs << 12u32) | lrt);
    lemma_rect_words_bv(0xF2, uls, ult, tile, lrs, lrt, c.w0, c.w1);
    assert(new.tiles@[tile as int] == new.tiles[tile as int]);
}

/// G_SETSCISSOR takes the corners gsDPSetScissor packs (`w0` = ulx [23:12], uly [11:0];
/// `w1` = mode [25:24], lrx [23:12], lry [11:0], all 10.2) as whole pixels, and changes
/// nothing else.
pub proof fn lemma_set_scissor_reads_gs_set_scissor(
    mode: u32,
    ulx: u32,
    uly: u32,
    lrx: u32,
    lry: u32,
    old: Rdp,
    new: Rdp,
    mem: RdramImage,
    r: RdpOutcome,
)
    requires
        mode < 4,
        ulx < 4096,
        uly < 4096,
        lrx < 4096,
        lry < 4096,
        execute_rdp_post(rdp_cmd(0xED, (ulx << 12u32) | uly, (mode << 24u32) | (lrx << 12u32) | lry), old, new, mem, r),
    ensures
        new.scissor.ulx == ulx / 4,
        new.scissor.uly == uly / 4,
        new.scissor.lrx == lrx / 4,
        new.scissor.lry == lry / 4,
        new.scissor.mode == mode,
        new == (Rdp { scissor: new.scissor, ..old }),
{
    let c = rdp_cmd(0xED, (ulx << 12u32) | uly, (mode << 24u32) | (lrx << 12u32) | lry);
    lemma_rect_words_bv(0xED, ulx, uly, mode, lrx, lry, c.w0, c.w1);
}

/// The color registers take the bytes of `w1` in the order gsDPSet*Color packs them,
/// red in the top byte: G_SETPRIMCOLOR also takes the LOD fraction `w0[7:0]` and the
/// minimum LOD level `w0[12:8]`; G_SETENVCOLOR, G_SETFOGCOLOR and G_SETBLENDCOLOR take the
/// color alone.
pub proof fn lemma_color_registers_read_rgba(
    op: u32,
    min_level: u32,
    lod_frac: u32,
    red: u32,
    green: u32,
    blue: u32,
    alpha: u32,
    old: Rdp,
    new: Rdp,
    mem: RdramImage,
    r: RdpOutcome,
)
    requires
        op == 0xFA || op == 0xFB || op == 0xF8 || op == 0xF9,
        min_level < 32,
        lod_frac < 256,
        red < 256,
        green < 256,
        blue < 256,
        alpha < 256,
        execute_rdp_post(
            rdp_cmd(op, (min_level << 8u32) | lod_frac, (red << 24u32) | (green << 16u32) | (blue << 8u32) | alpha),
            old,
            new,
            mem,
            r,
        ),
    ensures
        op == 0xFA ==> new == (Rdp {
            prim: [red as u8, green as u8, blue as u8, alpha as u8],
            prim_lod_frac: lod_frac as u8,
            prim_min_level: min_level as u8,
            ..old
        }),
        op == 0xFB ==> new == (Rdp { env: [red as u8, green as u8, blue as u8, alpha as u8], ..old }),
        op == 0xF8 ==> new == (Rdp { fog_color: [red as u8, green as u8, blue as u8, alpha as u8], ..old }),
        op == 0xF9 ==> new == (Rdp { blend_color: [red as u8, green as u8, blue as u8, alpha as u8], ..old }),
{
    let c = rdp_cmd(op, (min_level << 8u32) | lod_frac, (red << 24u32) | (green << 16u32) | (blue << 8u32) | alpha);
    lemma_register_words_bv(op, (min_level << 8u32) | lod_frac, c.w1, c.w0, red, green, blue, alpha, 0, 0, 0,
        min_level, lod_frac, 0, 0, 0, 0, 0, 0, 0);
    assert(be_bytes(c.w1) =~= [red as u8, green as u8, blue as u8, alpha as u8]);
}

/// G_SETCIMG takes what gsDPSetColorImage packs (`w0` = fmt [23:21], siz [20:19],
/// width - 1 [11:0]; `w1` = the segmented address): a different image becomes the color
/// image, `width` texels wide at the resolved address, and is marked changed; the same
/// image changes nothing.
pub proof fn lemma_set_color_image_reads_gs_set_color_image(
    fmt: u32,
    siz: u32,
    width_minus_one: u32,
    addr: u32,
    old: Rdp,
    new: Rdp,
    mem: RdramImage,
    r: RdpOutcome,
)
    requires
        fmt < 8,
        siz < 4,
        width_minus_one < 4096,
        execute_rdp_post(rdp_cmd(0xFF, (fmt << 21u32) | (siz << 19u32) | width_minus_one, addr), old, new, mem, r),
    ensures
        ({
            let img = ColorImage {
                fmt: fmt as u8,
                siz: siz as u8,
                width: (width_minus_one + 1) as u16,
                addr: mem.spec_from_segmented(addr) as u64,
            };
            &&& old.color_image != img ==> new == (Rdp { color_image: img, color_changed: true, ..old })
            &&& old.color_image == img ==> new == old
        }),
{
    let c = rdp_cmd(0xFF, (fmt << 21u32) | (siz << 19u32) | width_minus_one, addr);
    lemma_register_words_bv(0xFF, (fmt << 21u32) | (siz << 19u32) | width_minus_one, c.w1, c.w0, 0, 0, 0, 0, fmt, siz,
        width_minus_one, 0, 0, 0, 0, 0, 0, 0, 0, 0);
}

/// The chroma-key and primitive-depth registers take what gsDPSetKeyR, gsDPSetKeyGB and
/// gsDPSetPrimDepth pack: red width [27:16], centre [15:8], scale [7:0] of `w1`; green and
/// blue widths in `w0[23:12]` and `w0[11:0]` with centre and scale bytes in `w1` (green
/// above blue); depth `z` above `dz` in `w1`.
pub proof fn lemma_key_and_depth_registers(
    op: u32,
    width_g: u32,
    width_b: u32,
    w1: u32,
    old: Rdp,
    new: Rdp,
    mem: RdramImage,
    r: RdpOutcome,
)
    requires
        op == 0xEB || op == 0xEA || op == 0xEE,
        width_g < 4096,
        width_b < 4096,
        execute_rdp_post(rdp_cmd(op, (width_g << 12u32) | width_b, w1), old, new, mem, r),
    ensures
        op == 0xEB ==> new == (Rdp {
            key: [
                KeyChannel { center: (w1 >> 8u32) as u8, scale: w1 as u8, width: ((w1 >> 16u32) % 4096) as u16 },
                old.key[1],
                old.key[2],
            ],
            ..old
        }),
        op == 0xEA ==> new == (Rdp {
            key: [
                old.key[0],
                KeyChannel { center: (w1 >> 24u32) as u8, scale: (w1 >> 16u32) as u8, width: width_g as u16 },
                KeyChannel { center: (w1 >> 8u32) as u8, scale: w1 as u8, width: width_b as u16 },
            ],
            ..old
        }),
        op == 0xEE ==> new == (Rdp { prim_depth: PrimitiveDepth { z: (w1 >> 16u32) as u16, dz: w1 as u16 }, ..old }),
{
    let c = rdp_cmd(op, (width_g << 12u32) | width_b, w1);
    lemma_register_words_bv(op, (width_g << 12u32) | width_b, w1, c.w0, 0, 0, 0, 0, 0, 0, 0, 0, 0, 0, 0, 0, width_g,
        width_b, 0, 0);
}
} // verus!
