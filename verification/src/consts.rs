//! GBI vocabulary: opcodes, parameter flags and render-mode bits for the
//! F3DEX2 and first-generation Fast3D (F3D) microcodes and the shared RDP command set.
pub mod rsp_f3d;

use vstd::prelude::*;

verus! {

// ---------------------------------------------------------------- F3DEX2 RSP opcodes
pub const G_NOOP: u8 = 0x00;
pub const G_VTX: u8 = 0x01;
pub const G_MODIFYVTX: u8 = 0x02;
pub const G_CULLDL: u8 = 0x03;
pub const G_BRANCH_Z: u8 = 0x04;
pub const G_TRI1: u8 = 0x05;
pub const G_TRI2: u8 = 0x06;
pub const G_QUAD: u8 = 0x07;
pub const G_LINE3D: u8 = 0x08;
pub const G_SPECIAL_3: u8 = 0xD3;
pub const G_SPECIAL_2: u8 = 0xD4;
pub const G_SPECIAL_1: u8 = 0xD5;
pub const G_DMA_IO: u8 = 0xD6;
pub const G_TEXTURE: u8 = 0xD7;
pub const G_POPMTX: u8 = 0xD8;
pub const G_GEOMETRYMODE: u8 = 0xD9;
pub const G_MTX: u8 = 0xDA;
pub const G_MOVEWORD: u8 = 0xDB;
pub const G_MOVEMEM: u8 = 0xDC;
pub const G_LOAD_UCODE: u8 = 0xDD;
pub const G_DL: u8 = 0xDE;
pub const G_ENDDL: u8 = 0xDF;
pub const G_SPNOOP: u8 = 0xE0;
pub const G_RDPHALF_1: u8 = 0xE1;
pub const G_SETOTHERMODE_L: u8 = 0xE2;
pub const G_SETOTHERMODE_H: u8 = 0xE3;
pub const G_RDPHALF_2: u8 = 0xF1;

// ---------------------------------------------------------------- F3DEX2 parameters
pub const G_MTX_MODELVIEW: u8 = 0x00;
pub const G_MTX_PROJECTION: u8 = 0x04;
pub const G_MTX_MUL: u8 = 0x00;
pub const G_MTX_LOAD: u8 = 0x02;
pub const G_MTX_NOPUSH: u8 = 0x00;
pub const G_MTX_PUSH: u8 = 0x01;
pub const G_MV_VIEWPORT: u8 = 8;
pub const G_MV_LIGHT: u8 = 10;
pub const G_MW_MATRIX: u8 = 0x00;
pub const G_MW_NUMLIGHT: u8 = 0x02;
pub const G_MW_CLIP: u8 = 0x04;
pub const G_MW_SEGMENT: u8 = 0x06;
pub const G_MW_FOG: u8 = 0x08;
pub const G_MW_LIGHTCOL: u8 = 0x0A;
pub const G_MW_FORCEMTX: u8 = 0x0C;
pub const G_MW_PERSPNORM: u8 = 0x0E;

// ---------------------------------------------------------------- F3DEX2 geometry mode
pub const G_ZBUFFER: u32 = 0x0000_0001;
pub const G_SHADE: u32 = 0x0000_0004;
pub const G_CULL_FRONT: u32 = 0x0000_0200;
pub const G_CULL_BACK: u32 = 0x0000_0400;
pub const G_CULL_BOTH: u32 = 0x0000_0600;
pub const G_FOG: u32 = 0x0001_0000;
pub const G_LIGHTING: u32 = 0x0002_0000;
pub const G_TEXTURE_GEN: u32 = 0x0004_0000;
pub const G_TEXTURE_GEN_LINEAR: u32 = 0x0008_0000;
pub const G_LOD: u32 = 0x0010_0000;
pub const G_SHADING_SMOOTH: u32 = 0x0020_0000;
pub const G_CLIPPING: u32 = 0x0080_0000;

// ---------------------------------------------------------------- RDP command opcodes
pub const G_RDPNOOP: u8 = 0xC0;
pub const G_TEXRECT: u8 = 0xE4;
pub const G_TEXRECTFLIP: u8 = 0xE5;
pub const G_RDPLOADSYNC: u8 = 0xE6;
pub const G_RDPPIPESYNC: u8 = 0xE7;
pub const G_RDPTILESYNC: u8 = 0xE8;
pub const G_RDPFULLSYNC: u8 = 0xE9;
pub const G_SETKEYGB: u8 = 0xEA;
pub const G_SETKEYR: u8 = 0xEB;
pub const G_SETCONVERT: u8 = 0xEC;
pub const G_SETSCISSOR: u8 = 0xED;
pub const G_SETPRIMDEPTH: u8 = 0xEE;
pub const G_RDPSETOTHERMODE: u8 = 0xEF;
pub const G_LOADTLUT: u8 = 0xF0;
pub const G_SETTILESIZE: u8 = 0xF2;
pub const G_LOADBLOCK: u8 = 0xF3;
pub const G_LOADTILE: u8 = 0xF4;
pub const G_SETTILE: u8 = 0xF5;
pub const G_FILLRECT: u8 = 0xF6;
pub const G_SETFILLCOLOR: u8 = 0xF7;
pub const G_SETFOGCOLOR: u8 = 0xF8;
pub const G_SETBLENDCOLOR: u8 = 0xF9;
pub const G_SETPRIMCOLOR: u8 = 0xFA;
pub const G_SETENVCOLOR: u8 = 0xFB;
pub const G_SETCOMBINE: u8 = 0xFC;
pub const G_SETTIMG: u8 = 0xFD;
pub const G_SETZIMG: u8 = 0xFE;
pub const G_SETCIMG: u8 = 0xFF;

// ---------------------------------------------------------------- other-mode fields
/// Cycle type field value (other_mode_h bits [21:20]) of copy mode.
pub const G_CYC_1CYCLE: u32 = 0;
pub const G_CYC_2CYCLE: u32 = 1;
pub const G_CYC_COPY: u32 = 2;
pub const G_CYC_FILL: u32 = 3;

pub const AC_NONE: u32 = 0;
pub const AC_THRESHOLD: u32 = 1;
pub const AC_DITHER: u32 = 3;
pub const AA_EN: u32 = 0x0008;
pub const Z_CMP: u32 = 0x0010;
pub const Z_UPD: u32 = 0x0020;
pub const IM_RD: u32 = 0x0040;
pub const CLR_ON_CVG: u32 = 0x0080;
pub const CVG_DST_CLAMP: u32 = 0x0000;
pub const CVG_DST_WRAP: u32 = 0x0100;
pub const CVG_DST_FULL: u32 = 0x0200;
pub const CVG_DST_SAVE: u32 = 0x0300;
pub const ZMODE_OPA: u32 = 0x0000;
pub const ZMODE_INTER: u32 = 0x0400;
pub const ZMODE_XLU: u32 = 0x0800;
pub const ZMODE_DEC: u32 = 0x0C00;
pub const ZMODE_MASK: u32 = 0x0C00;
pub const CVG_X_ALPHA: u32 = 0x1000;
pub const ALPHA_CVG_SEL: u32 = 0x2000;
pub const FORCE_BL: u32 = 0x4000;
pub const TEX_EDGE: u32 = 0x0000;

// ---------------------------------------------------------------- blender selectors
pub const CLR_IN: u32 = 0;
pub const CLR_MEM: u32 = 1;
pub const CLR_BL: u32 = 2;
pub const CLR_FOG: u32 = 3;
pub const A_IN: u32 = 0;
pub const A_FOG: u32 = 1;
pub const A_SHADE: u32 = 2;
pub const A_0: u32 = 3;
pub const B_1MA: u32 = 0;
pub const B_A_MEM: u32 = 1;
pub const B_1: u32 = 2;
pub const B_0: u32 = 3;

/// The cycle-1 blender word for selectors (P, A, M, B), in the other-mode-L bit positions.
pub open spec fn spec_gbl_c1(p: u32, a: u32, m: u32, b: u32) -> u32 {
    ((p & 3) << 30u32) | ((a & 3) << 26u32) | ((m & 3) << 22u32) | ((b & 3) << 18u32)
}

/// The cycle-2 blender word for selectors (P, A, M, B), in the other-mode-L bit positions.
pub open spec fn spec_gbl_c2(p: u32, a: u32, m: u32, b: u32) -> u32 {
    ((p & 3) << 28u32) | ((a & 3) << 24u32) | ((m & 3) << 20u32) | ((b & 3) << 16u32)
}

/// Builds the cycle-1 blender word for selectors (P, A, M, B).
pub fn gbl_c1(p: u32, a: u32, m: u32, b: u32) -> (r: u32)
    ensures
        r == spec_gbl_c1(p, a, m, b),
{
    ((p & 3) << 30u32) | ((a & 3) << 26u32) | ((m & 3) << 22u32) | ((b & 3) << 18u32)
}

/// Builds the cycle-2 blender word for selectors (P, A, M, B).
pub fn gbl_c2(p: u32, a: u32, m: u32, b: u32) -> (r: u32)
    ensures
        r == spec_gbl_c2(p, a, m, b),
{
    ((p & 3) << 28u32) | ((a & 3) << 24u32) | ((m & 3) << 20u32) | ((b & 3) << 16u32)
}

// ---------------------------------------------------------------- render-mode presets
// Each preset is (flags | cycle-1 blender word); the `2` variants carry the cycle-2 word.
pub const G_RM_OPA_SURF: u32 = CVG_DST_CLAMP | FORCE_BL | IM_RD | ZMODE_OPA | (CLR_IN << 30u32) | (A_0 << 26u32) | (CLR_IN << 22u32) | (B_1 << 18u32);
pub const G_RM_OPA_SURF2: u32 = CVG_DST_CLAMP | FORCE_BL | IM_RD | ZMODE_OPA | (CLR_IN << 28u32) | (A_0 << 24u32) | (CLR_IN << 20u32) | (B_1 << 16u32);
pub const G_RM_AA_ZB_OPA_SURF: u32 = AA_EN | Z_CMP | Z_UPD | IM_RD | CVG_DST_CLAMP | ZMODE_OPA | ALPHA_CVG_SEL | (CLR_IN << 30u32) | (A_IN << 26u32) | (CLR_MEM << 22u32) | (B_A_MEM << 18u32);
pub const G_RM_AA_ZB_OPA_SURF2: u32 = AA_EN | Z_CMP | Z_UPD | IM_RD | CVG_DST_CLAMP | ZMODE_OPA | ALPHA_CVG_SEL | (CLR_IN << 28u32) | (A_IN << 24u32) | (CLR_MEM << 20u32) | (B_A_MEM << 16u32);
pub const G_RM_AA_ZB_XLU_SURF: u32 = AA_EN | Z_CMP | IM_RD | CVG_DST_WRAP | CLR_ON_CVG | FORCE_BL | ZMODE_XLU | (CLR_IN << 30u32) | (A_IN << 26u32) | (CLR_MEM << 22u32) | (B_1MA << 18u32);
pub const G_RM_AA_ZB_XLU_SURF2: u32 = AA_EN | Z_CMP | IM_RD | CVG_DST_WRAP | CLR_ON_CVG | FORCE_BL | ZMODE_XLU | (CLR_IN << 28u32) | (A_IN << 24u32) | (CLR_MEM << 20u32) | (B_1MA << 16u32);
pub const G_RM_AA_ZB_TEX_EDGE: u32 = AA_EN | Z_CMP | Z_UPD | IM_RD | CVG_DST_CLAMP | CVG_X_ALPHA | ALPHA_CVG_SEL | ZMODE_OPA | TEX_EDGE | (CLR_IN << 30u32) | (A_IN << 26u32) | (CLR_MEM << 22u32) | (B_A_MEM << 18u32);
pub const G_RM_AA_ZB_TEX_EDGE2: u32 = AA_EN | Z_CMP | Z_UPD | IM_RD | CVG_DST_CLAMP | CVG_X_ALPHA | ALPHA_CVG_SEL | ZMODE_OPA | TEX_EDGE | (CLR_IN << 28u32) | (A_IN << 24u32) | (CLR_MEM << 20u32) | (B_A_MEM << 16u32);
pub const G_RM_CLD_SURF: u32 = IM_RD | CVG_DST_SAVE | FORCE_BL | ZMODE_OPA | (CLR_IN << 30u32) | (A_IN << 26u32) | (CLR_MEM << 22u32) | (B_1MA << 18u32);
pub const G_RM_CLD_SURF2: u32 = IM_RD | CVG_DST_SAVE | FORCE_BL | ZMODE_OPA | (CLR_IN << 28u32) | (A_IN << 24u32) | (CLR_MEM << 20u32) | (B_1MA << 16u32);
pub const G_RM_AA_ZB_OPA_DECAL: u32 = AA_EN | Z_CMP | IM_RD | CVG_DST_WRAP | ALPHA_CVG_SEL | ZMODE_DEC | (CLR_IN << 30u32) | (A_IN << 26u32) | (CLR_MEM << 22u32) | (B_A_MEM << 18u32);
pub const G_RM_AA_ZB_OPA_DECAL2: u32 = AA_EN | Z_CMP | IM_RD | CVG_DST_WRAP | ALPHA_CVG_SEL | ZMODE_DEC | (CLR_IN << 28u32) | (A_IN << 24u32) | (CLR_MEM << 20u32) | (B_A_MEM << 16u32);
pub const G_RM_AA_ZB_XLU_DECAL: u32 = AA_EN | Z_CMP | IM_RD | CVG_DST_WRAP | CLR_ON_CVG | FORCE_BL | ZMODE_DEC | (CLR_IN << 30u32) | (A_IN << 26u32) | (CLR_MEM << 22u32) | (B_1MA << 18u32);
pub const G_RM_AA_ZB_XLU_DECAL2: u32 = AA_EN | Z_CMP | IM_RD | CVG_DST_WRAP | CLR_ON_CVG | FORCE_BL | ZMODE_DEC | (CLR_IN << 28u32) | (A_IN << 24u32) | (CLR_MEM << 20u32) | (B_1MA << 16u32);

} // verus!
