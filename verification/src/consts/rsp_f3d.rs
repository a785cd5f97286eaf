//! First-generation Fast3D (F3D) microcode opcodes and parameter flags.
use vstd::prelude::*;

verus! {

pub const G_SPNOOP: u8 = 0x00;
pub const G_MTX: u8 = 0x01;
pub const G_MOVEMEM: u8 = 0x03;
pub const G_VTX: u8 = 0x04;
pub const G_DL: u8 = 0x06;
pub const G_SPRITE2D_BASE: u8 = 0x09;
pub const G_RDPHALF_CONT: u8 = 0xB2;
pub const G_RDPHALF_2: u8 = 0xB3;
pub const G_RDPHALF_1: u8 = 0xB4;
pub const G_QUAD: u8 = 0xB5;
pub const G_CLEARGEOMETRYMODE: u8 = 0xB6;
pub const G_SETGEOMETRYMODE: u8 = 0xB7;
pub const G_ENDDL: u8 = 0xB8;
pub const G_SETOTHERMODE_L: u8 = 0xB9;
pub const G_SETOTHERMODE_H: u8 = 0xBA;
pub const G_TEXTURE: u8 = 0xBB;
pub const G_MOVEWORD: u8 = 0xBC;
pub const G_POPMTX: u8 = 0xBD;
pub const G_CULLDL: u8 = 0xBE;
pub const G_TRI1: u8 = 0xBF;
pub const G_RDPNOOP: u8 = 0xC0;

pub const G_MTX_MODELVIEW: u8 = 0x00;
pub const G_MTX_PROJECTION: u8 = 0x01;
pub const G_MTX_MUL: u8 = 0x00;
pub const G_MTX_LOAD: u8 = 0x02;
pub const G_MTX_NOPUSH: u8 = 0x00;
pub const G_MTX_PUSH: u8 = 0x04;

pub const G_MV_VIEWPORT: u8 = 0x80;
pub const G_MV_LOOKATY: u8 = 0x82;
pub const G_MV_LOOKATX: u8 = 0x84;
pub const G_MV_LIGHT: u8 = 0x86;

pub const G_MW_MATRIX: u8 = 0x00;
pub const G_MW_NUMLIGHT: u8 = 0x02;
pub const G_MW_CLIP: u8 = 0x04;
pub const G_MW_SEGMENT: u8 = 0x06;
pub const G_MW_FOG: u8 = 0x08;
pub const G_MW_LIGHTCOL: u8 = 0x0A;
pub const G_MW_POINTS: u8 = 0x0C;
pub const G_MW_PERSPNORM: u8 = 0x0E;

pub const G_ZBUFFER: u32 = 0x0000_0001;
pub const G_SHADE: u32 = 0x0000_0004;
pub const G_SHADING_SMOOTH: u32 = 0x0000_0200;
pub const G_CULL_FRONT: u32 = 0x0000_1000;
pub const G_CULL_BACK: u32 = 0x0000_2000;
pub const G_CULL_BOTH: u32 = 0x0000_3000;
pub const G_FOG: u32 = 0x0001_0000;
pub const G_LIGHTING: u32 = 0x0002_0000;
pub const G_TEXTURE_GEN: u32 = 0x0004_0000;
pub const G_TEXTURE_GEN_LINEAR: u32 = 0x0008_0000;
pub const G_LOD: u32 = 0x0010_0000;
pub const G_CLIPPING: u32 = 0x0080_0000;

} // verus!
