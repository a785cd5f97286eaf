//! Microcode variants and the symbolic constants each one supplies.
use vstd::prelude::*;
use crate::consts;
use crate::consts::rsp_f3d;

verus! {

/// Per-microcode symbolic constants. Every field except `mtx_param_xor` comes from the
/// selected microcode's constants.
#[derive(Clone, Copy, PartialEq, Eq, Debug, Structural)]
pub struct GbiConstants {
    pub g_dl: u8,
    pub g_enddl: u8,
    pub mtx_param_xor: u8,
    pub g_mtx_projection: u8,
    pub g_mtx_load: u8,
    pub g_mtx_push: u8,
    pub g_mv_viewport: u8,
    pub g_mv_light: u8,
    pub g_mw_segment: u8,
    pub g_mw_perspnorm: u8,
    pub g_mw_clip: u8,
    pub g_mw_numlight: u8,
    pub g_mw_fog: u8,
    /// Geometry-mode G_FOG bit.
    pub g_fog_geom: u32,
    pub g_clipping: u32,
    pub g_lighting: u32,
    pub g_texture_gen: u32,
    pub g_texture_gen_linear: u32,
    pub g_cull_front: u32,
    pub g_cull_back: u32,
    pub g_cull_both: u32,
}

/// Identity of a microcode variant.
#[derive(Clone, Copy, PartialEq, Eq, Debug, Structural)]
pub enum GbiUcode {
    /// Authentic F3DEX2, the default.
    F3dex2,
    /// First-generation Fast3D microcode.
    F3d,
}

impl Default for GbiUcode {
    fn default() -> (r: Self)
        ensures
            r == GbiUcode::F3dex2,
    {
        GbiUcode::F3dex2
    }
}

/// The F3DEX2 constant set.
pub open spec fn spec_f3dex2_consts() -> GbiConstants {
    GbiConstants {
        g_dl: consts::G_DL,
        g_enddl: consts::G_ENDDL,
        mtx_param_xor: 0x01,
        g_mtx_projection: consts::G_MTX_PROJECTION,
        g_mtx_load: consts::G_MTX_LOAD,
        g_mtx_push: consts::G_MTX_PUSH,
        g_mv_viewport: consts::G_MV_VIEWPORT,
        g_mv_light: consts::G_MV_LIGHT,
        g_mw_segment: consts::G_MW_SEGMENT,
        g_mw_perspnorm: consts::G_MW_PERSPNORM,
        g_mw_clip: consts::G_MW_CLIP,
        g_mw_numlight: consts::G_MW_NUMLIGHT,
        g_mw_fog: consts::G_MW_FOG,
        g_fog_geom: consts::G_FOG,
        g_clipping: consts::G_CLIPPING,
        g_lighting: consts::G_LIGHTING,
        g_texture_gen: consts::G_TEXTURE_GEN,
        g_texture_gen_linear: consts::G_TEXTURE_GEN_LINEAR,
        g_cull_front: consts::G_CULL_FRONT,
        g_cull_back: consts::G_CULL_BACK,
        g_cull_both: consts::G_CULL_BOTH,
    }
}

/// The first-generation Fast3D (F3D) constant set.
pub open spec fn spec_f3d_consts() -> GbiConstants {
    GbiConstants {
        g_dl: rsp_f3d::G_DL,
        g_enddl: rsp_f3d::G_ENDDL,
        mtx_param_xor: 0x00,
        g_mtx_projection: rsp_f3d::G_MTX_PROJECTION,
        g_mtx_load: rsp_f3d::G_MTX_LOAD,
        g_mtx_push: rsp_f3d::G_MTX_PUSH,
        g_mv_viewport: rsp_f3d::G_MV_VIEWPORT,
        g_mv_light: rsp_f3d::G_MV_LIGHT,
        g_mw_segment: rsp_f3d::G_MW_SEGMENT,
        g_mw_perspnorm: rsp_f3d::G_MW_PERSPNORM,
        g_mw_clip: rsp_f3d::G_MW_CLIP,
        g_mw_numlight: rsp_f3d::G_MW_NUMLIGHT,
        g_mw_fog: rsp_f3d::G_MW_FOG,
        g_fog_geom: rsp_f3d::G_FOG,
        g_clipping: rsp_f3d::G_CLIPPING,
        g_lighting: rsp_f3d::G_LIGHTING,
        g_texture_gen: rsp_f3d::G_TEXTURE_GEN,
        g_texture_gen_linear: rsp_f3d::G_TEXTURE_GEN_LINEAR,
        g_cull_front: rsp_f3d::G_CULL_FRONT,
        g_cull_back: rsp_f3d::G_CULL_BACK,
        g_cull_both: rsp_f3d::G_CULL_BOTH,
    }
}

impl GbiUcode {
    /// The constants this microcode supplies.
    pub open spec fn spec_constants(self) -> GbiConstants {
        match self {
            GbiUcode::F3dex2 => spec_f3dex2_consts(),
            GbiUcode::F3d => spec_f3d_consts(),
        }
    }

    pub fn constants(self) -> (r: GbiConstants)
        ensures
            r == self.spec_constants(),
    {
        match self {
            GbiUcode::F3dex2 => GbiConstants {
                g_dl: consts::G_DL,
                g_enddl: consts::G_ENDDL,
                mtx_param_xor: 0x01,
                g_mtx_projection: consts::G_MTX_PROJECTION,
                g_mtx_load: consts::G_MTX_LOAD,
                g_mtx_push: consts::G_MTX_PUSH,
                g_mv_viewport: consts::G_MV_VIEWPORT,
                g_mv_light: consts::G_MV_LIGHT,
                g_mw_segment: consts::G_MW_SEGMENT,
                g_mw_perspnorm: consts::G_MW_PERSPNORM,
                g_mw_clip: consts::G_MW_CLIP,
                g_mw_numlight: consts::G_MW_NUMLIGHT,
                g_mw_fog: consts::G_MW_FOG,
                g_fog_geom: consts::G_FOG,
                g_clipping: consts::G_CLIPPING,
                g_lighting: consts::G_LIGHTING,
                g_texture_gen: consts::G_TEXTURE_GEN,
                g_texture_gen_linear: consts::G_TEXTURE_GEN_LINEAR,
                g_cull_front: consts::G_CULL_FRONT,
                g_cull_back: consts::G_CULL_BACK,
                g_cull_both: consts::G_CULL_BOTH,
            },
            GbiUcode::F3d => GbiConstants {
                g_dl: rsp_f3d::G_DL,
                g_enddl: rsp_f3d::G_ENDDL,
                mtx_param_xor: 0x00,
                g_mtx_projection: rsp_f3d::G_MTX_PROJECTION,
                g_mtx_load: rsp_f3d::G_MTX_LOAD,
                g_mtx_push: rsp_f3d::G_MTX_PUSH,
                g_mv_viewport: rsp_f3d::G_MV_VIEWPORT,
                g_mv_light: rsp_f3d::G_MV_LIGHT,
                g_mw_segment: rsp_f3d::G_MW_SEGMENT,
                g_mw_perspnorm: rsp_f3d::G_MW_PERSPNORM,
                g_mw_clip: rsp_f3d::G_MW_CLIP,
                g_mw_numlight: rsp_f3d::G_MW_NUMLIGHT,
                g_mw_fog: rsp_f3d::G_MW_FOG,
                g_fog_geom: rsp_f3d::G_FOG,
                g_clipping: rsp_f3d::G_CLIPPING,
                g_lighting: rsp_f3d::G_LIGHTING,
                g_texture_gen: rsp_f3d::G_TEXTURE_GEN,
                g_texture_gen_linear: rsp_f3d::G_TEXTURE_GEN_LINEAR,
                g_cull_front: rsp_f3d::G_CULL_FRONT,
                g_cull_back: rsp_f3d::G_CULL_BACK,
                g_cull_both: rsp_f3d::G_CULL_BOTH,
            },
        }
    }
}

/// `hash` is absent from every record before index `i`.
pub open spec fn absent_before(records: Seq<(u64, GbiUcode)>, hash: u64, i: int) -> bool {
    forall|j: int| 0 <= j < i ==> #[trigger] records[j].0 != hash
}

/// Finds the microcode of the first record whose hash equals `hash`.
pub fn lookup_hash(hash: u64, records: &[(u64, GbiUcode)]) -> (r: Option<GbiUcode>)
    ensures
        r is None <==> absent_before(records@, hash, records@.len() as int),
        r matches Some(u) ==> exists|i: int|
            0 <= i < records@.len() && records@[i].0 == hash && records@[i].1 == u
                && absent_before(records@, hash, i),
{
    let mut i: usize = 0;
    while i < records.len()
        invariant
            0 <= i <= records@.len(),
            absent_before(records@, hash, i as int),
        decreases records@.len() - i,
    {
        let (h, u) = records[i];
        if h == hash {
            return Some(u);
        }
        i = i + 1;
    }
    None
}

/// Looks a microcode hash up among the verified records. No hash recipe is verified yet, so
/// the record table is empty and every hash is unknown.
pub fn detect_from_ucode_hash(hash: u64) -> (r: Option<GbiUcode>)
    ensures
        r is None,
{
    let records: Vec<(u64, GbiUcode)> = Vec::new();
    lookup_hash(hash, records.as_slice())
}

} // verus!
