//! Draw-time tile state handed to the sampler: bounds, shift/mask, clamp/mirror modes,
//! decoded image extent and representation, TMEM placement and palette.
use vstd::prelude::*;
use vstd::arithmetic::power2::pow2;
use crate::rdp::{TileDescriptor, zero_tile};

verus! {

/// Draw-time tile state; each row holds four words. Bounds are the raw 10.2 values.
#[derive(Clone, Copy, Debug, PartialEq, Eq)]
pub struct TileSampling {
    pub bounds: [i32; 4],
    /// S/T shifts followed by S/T mask fields.
    pub shift_mask: [u32; 4],
    /// S/T clamp/mirror flags followed by the logical clamp extents.
    pub modes: [u32; 4],
    /// Decoded image extent, representation (0 = tile, 2 = normalized image, 1 = TMEM lookup,
    /// used when a wrapping mask period exceeds the image), padding.
    pub image: [u32; 4],
    /// TMEM base and line in bytes, format, size.
    pub tmem: [u32; 4],
    /// Palette index, TLUT format, padding.
    pub palette: [u32; 4],
}

/// `e` raised to at least 1.
pub open spec fn at_least_one(e: u16) -> u32 {
    if e >= 1 {
        e as u32
    } else {
        1
    }
}

/// Whether an axis with mask field `mask`, clamp/mirror flags `mode` and image extent
/// `extent` needs the TMEM-lookup representation: it wraps (mask nonzero, no clamp bit) with
/// a period `2^mask` longer than the image.
pub open spec fn needs_tmem_lookup(mask: u8, mode: u8, extent: u32) -> bool {
    mask != 0 && (mode as u32) & 2 == 0 && (1u32 << (mask as u32)) > extent
}

/// The sampling state of `tile` with palette entries in TLUT format `tlut_fmt`.
pub open spec fn spec_from_tile(tile: TileDescriptor, tlut_fmt: u8) -> TileSampling {
    let width = at_least_one(tile.width);
    let height = at_least_one(tile.height);
    let lookup = needs_tmem_lookup(tile.masks, tile.cms, width) || needs_tmem_lookup(
        tile.maskt,
        tile.cmt,
        height,
    );
    TileSampling {
        bounds: [tile.uls as i32, tile.ult as i32, tile.lrs as i32, tile.lrt as i32],
        shift_mask: [tile.shifts as u32, tile.shiftt as u32, tile.masks as u32, tile.maskt as u32],
        modes: [tile.cms as u32, tile.cmt as u32, width, height],
        image: [
            width,
            height,
            if lookup {
                1
            } else {
                0
            },
            0,
        ],
        tmem: [
            (tile.tmem_addr as u32 * 8) as u32,
            (tile.line as u32 * 8) as u32,
            tile.fmt as u32,
            tile.siz as u32,
        ],
        palette: [tile.palette as u32, tlut_fmt as u32, 0, 0],
    }
}

fn lookup_axis(mask: u8, mode: u8, extent: u32) -> (r: bool)
    requires
        mask < 32,
    ensures
        r == needs_tmem_lookup(mask, mode, extent),
{
    mask != 0 && (mode as u32) & 2 == 0 && (1u32 << (mask as u32)) > extent
}

impl TileSampling {
    /// The sampling state of `tile`: extents are raised to at least 1; an axis whose wrap
    /// period is longer than the image switches the image to the TMEM-lookup representation.
    pub fn from_tile(tile: &TileDescriptor, tlut_fmt: u8) -> (r: Self)
        requires
            tile.masks < 32,
            tile.maskt < 32,
        ensures
            r == spec_from_tile(*tile, tlut_fmt),
    {
        let width: u32 = if tile.width >= 1 {
            tile.width as u32
        } else {
            1
        };
        let height: u32 = if tile.height >= 1 {
            tile.height as u32
        } else {
            1
        };
        let lookup = lookup_axis(tile.masks, tile.cms, width) || lookup_axis(tile.maskt, tile.cmt, height);
        TileSampling {
            bounds: [tile.uls as i32, tile.ult as i32, tile.lrs as i32, tile.lrt as i32],
            shift_mask: [tile.shifts as u32, tile.shiftt as u32, tile.masks as u32, tile.maskt as u32],
            modes: [tile.cms as u32, tile.cmt as u32, width, height],
            image: [
                width,
                height,
                if lookup {
                    1
                } else {
                    0
                },
                0,
            ],
            tmem: [
                tile.tmem_addr as u32 * 8,
                tile.line as u32 * 8,
                tile.fmt as u32,
                tile.siz as u32,
            ],
            palette: [tile.palette as u32, tlut_fmt as u32, 0, 0],
        }
    }

    /// The texture allocation extent: the whole 4096 × 4 TMEM image for the lookup
    /// representation, the decoded image extent otherwise.
    pub fn allocation_extent(self) -> (r: [u32; 2])
        ensures
            r == if self.image[2] == 1 {
                [4096u32, 4u32]
            } else {
                [self.image[0], self.image[1]]
            },
    {
        if self.image[2] == 1 {
            [4096, 4]
        } else {
            [self.image[0], self.image[1]]
        }
    }
}

impl Default for TileSampling {
    fn default() -> (r: Self)
        ensures
            r == spec_from_tile(zero_tile(), 0),
    {
        TileSampling::from_tile(&TileDescriptor::default(), 0)
    }
}


/// The sampling state lays a tile out S before T: bounds are the upper-left then
/// lower-right corners, then shifts before masks, then the S and T clamp/mirror modes and
/// the extents (raised to 1); TMEM placement is in bytes (words × 8), then format and size;
/// and the image is the TMEM lookup exactly when an axis wraps (mask nonzero, clamp bit 1
/// of its mode clear) with a period `2^mask` longer than its extent.
pub proof fn lemma_sampling_layout(tile: TileDescriptor, tlut_fmt: u8)
    requires
        tile.masks < 32,
        tile.maskt < 32,
    ensures
        ({
            let r = spec_from_tile(tile, tlut_fmt);
            let w: int = if tile.width >= 1 { tile.width as int } else { 1 };
            let h: int = if tile.height >= 1 { tile.height as int } else { 1 };
            let wraps_s = tile.masks != 0 && (tile.cms as int / 2) % 2 == 0 && pow2(tile.masks as nat) > w;
            let wraps_t = tile.maskt != 0 && (tile.cmt as int / 2) % 2 == 0 && pow2(tile.maskt as nat) > h;
            &&& r.bounds@ == seq![tile.uls as i32, tile.ult as i32, tile.lrs as i32, tile.lrt as i32]
            &&& r.shift_mask@ == seq![tile.shifts as u32, tile.shiftt as u32, tile.masks as u32, tile.maskt as u32]
            &&& r.modes[0] == tile.cms && r.modes[1] == tile.cmt && r.modes[2] == w && r.modes[3] == h
            &&& r.image[0] == w && r.image[1] == h && r.image[3] == 0
            &&& (r.image[2] == 1 <==> wraps_s || wraps_t) && (r.image[2] == 0 <==> !(wraps_s || wraps_t))
            &&& r.tmem[0] == tile.tmem_addr * 8 && r.tmem[1] == tile.line * 8 && r.tmem[2] == tile.fmt && r.tmem[3]
                == tile.siz
            &&& r.palette@ == seq![tile.palette as u32, tlut_fmt as u32, 0u32, 0u32]
        }),
{
    let r = spec_from_tile(tile, tlut_fmt);
    crate::rsp::lemma_bit_facts_bv(0, tile.cms as u32, 0, 0, 1, 0, 0, 0, 0, 0, 0);
    crate::rsp::lemma_bit_facts_bv(0, tile.cmt as u32, 0, 0, 1, 0, 0, 0, 0, 0, 0);
    vstd::bits::lemma_u32_pow2_no_overflow(tile.masks as nat);
    vstd::bits::lemma_u32_pow2_no_overflow(tile.maskt as nat);
    vstd::bits::lemma_u32_shl_is_mul(1, tile.masks as u32);
    vstd::bits::lemma_u32_shl_is_mul(1, tile.maskt as u32);
    assert(r.bounds@ =~= seq![tile.uls as i32, tile.ult as i32, tile.lrs as i32, tile.lrt as i32]);
    assert(r.shift_mask@ =~= seq![tile.shifts as u32, tile.shiftt as u32, tile.masks as u32, tile.maskt as u32]);
    assert(r.palette@ =~= seq![tile.palette as u32, tlut_fmt as u32, 0u32, 0u32]);
}
} // verus!
