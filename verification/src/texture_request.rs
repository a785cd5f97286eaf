//! Encoded texture requests: what a draw needs decoded (the recipe) and the TMEM or linear
//! bytes it decodes from, with a content key over the bytes the decode actually reads.
pub mod serialization;

use vstd::prelude::*;
use crate::rdp::{Rdp, TileDescriptor};
use crate::combiner::{faithful_format, rows_word_aligned, tile_takes_faithful_path};
use crate::tile_sampling::spec_from_tile;
use crate::tile_sampling::{TileSampling, at_least_one};
use crate::texdec::{FormatInfo, dims_fit, spec_decode};
use self::serialization::{preimage, linear_bytes};

verus! {

/// Size of the TMEM bank in bytes.
pub const TMEM_BYTES: usize = 4096;

/// The scheme a texture key was computed with.
#[derive(Clone, Copy, Debug, PartialEq, Eq, Hash, Structural)]
pub enum TextureKeyScheme {
    Fast3dV1,
}

/// A content key: the XXH3-64 hash of the request's identity preimage.
#[derive(Clone, Copy, Debug, PartialEq, Eq, Hash, Structural)]
pub struct TextureKey {
    pub scheme: TextureKeyScheme,
    pub xxh3_64: u64,
}

/// How the decode reads its input: a tile of the bank, the whole bank as a 4096 × 4 lookup
/// image, or linear bytes reconstructed for the legacy decoder.
#[derive(Clone, Copy, Debug, PartialEq, Eq, Structural)]
pub enum Representation {
    Tile,
    Lookup4096x4,
    LinearCompat,
}

/// The byte a representation is serialized as.
pub open spec fn representation_code(r: Representation) -> u8 {
    match r {
        Representation::Tile => 0,
        Representation::Lookup4096x4 => 1,
        Representation::LinearCompat => 2,
    }
}

pub fn representation_byte(r: Representation) -> (b: u8)
    ensures
        b == representation_code(r),
{
    match r {
        Representation::Tile => 0,
        Representation::Lookup4096x4 => 1,
        Representation::LinearCompat => 2,
    }
}

/// What to decode: output and logical extents, format and size, TMEM base and stride in
/// 64-bit words, palette bank and TLUT format.
#[derive(Clone, Debug, PartialEq, Eq)]
pub struct DecodeRecipe {
    pub representation: Representation,
    pub output: [u32; 2],
    pub logical: [u32; 2],
    pub fmt: u8,
    pub siz: u8,
    pub base: u16,
    pub line: u16,
    pub palette: u8,
    pub tlut: u8,
}

/// The recipe `DecodeRecipe::new` builds.
pub open spec fn spec_recipe(tile: TileDescriptor, tlut: u8, representation: Representation, sampling: TileSampling) -> DecodeRecipe {
    DecodeRecipe {
        representation,
        output: if representation == Representation::Tile {
            [tile.width as u32, tile.height as u32]
        } else if sampling.image[2] == 1 {
            [4096u32, 4u32]
        } else {
            [sampling.image[0], sampling.image[1]]
        },
        logical: [at_least_one(tile.width), at_least_one(tile.height)],
        fmt: tile.fmt,
        siz: tile.siz,
        base: tile.tmem_addr,
        line: tile.line,
        palette: if tile.fmt == 2 && tile.siz == 0 {
            tile.palette
        } else {
            0
        },
        tlut: if tile.fmt == 2 {
            tlut
        } else {
            0
        },
    }
}

impl DecodeRecipe {
    /// The recipe for `tile`: a tile representation outputs the tile's extent, the others
    /// the sampling allocation extent; the logical extent is the tile's, at least 1. Only
    /// 4-bit color-indexed tiles keep a palette bank and only color-indexed ones a TLUT
    /// format.
    pub fn new(tile: &TileDescriptor, tlut: u8, representation: Representation, sampling: TileSampling) -> (r: Self)
        ensures
            r == spec_recipe(*tile, tlut, representation, sampling),
    {
        let logical = [
            if tile.width >= 1 {
                tile.width as u32
            } else {
                1
            },
            if tile.height >= 1 {
                tile.height as u32
            } else {
                1
            },
        ];
        let output = match representation {
            Representation::Tile => [tile.width as u32, tile.height as u32],
            _ => sampling.allocation_extent(),
        };
        DecodeRecipe {
            representation,
            output,
            logical,
            fmt: tile.fmt,
            siz: tile.siz,
            base: tile.tmem_addr,
            line: tile.line,
            palette: if tile.fmt == 2 && tile.siz == 0 {
                tile.palette
            } else {
                0
            },
            tlut: if tile.fmt == 2 {
                tlut
            } else {
                0
            },
        }
    }

    /// Whether `self` and `other` are the same recipe.
    pub fn same(&self, other: &DecodeRecipe) -> (r: bool)
        ensures
            r == (*self == *other),
    {
        let r = self.representation == other.representation && self.output[0] == other.output[0]
            && self.output[1] == other.output[1] && self.logical[0] == other.logical[0]
            && self.logical[1] == other.logical[1] && self.fmt == other.fmt && self.siz == other.siz
            && self.base == other.base && self.line == other.line && self.palette == other.palette
            && self.tlut == other.tlut;
        proof {
            if r {
                assert(self.output =~= other.output);
                assert(self.logical =~= other.logical);
            }
        }
        r
    }
}

/// The bytes a request decodes from: the whole TMEM bank, or linear bytes plus the bank
/// whose upper half holds the palette.
#[derive(Clone, Debug)]
pub enum EncodedInput {
    Tmem(Vec<u8>),
    LinearCompat { bytes: Vec<u8>, palette_bank: Vec<u8> },
}

/// A texture request: its input and recipe. Banks are `TMEM_BYTES` long.
#[derive(Debug)]
pub struct EncodedTextureRequest {
    input: EncodedInput,
    recipe: DecodeRecipe,
}

/// The name for XXH3-64 (default secret and seed) of `bytes`.
pub uninterp spec fn xxh3_64_of(bytes: Seq<u8>) -> u64;

/// `twox_hash::XxHash3_64::oneshot`: the XXH3-64 hash of `bytes` with the default secret
/// and seed, a function of the bytes alone.
#[verifier::external_body]
fn xxh3_64(bytes: &[u8]) -> (r: u64)
    ensures
        r == xxh3_64_of(bytes@),
{
    twox_hash::XxHash3_64::oneshot(bytes)
}

/// The key of a preimage.
pub open spec fn key_of(preimage: Seq<u8>) -> TextureKey {
    TextureKey { scheme: TextureKeyScheme::Fast3dV1, xxh3_64: xxh3_64_of(preimage) }
}

/// A well-formed request: a bank of `TMEM_BYTES`, a recipe size code of at most 3, and for a
/// color-indexed linear input every index byte present.
pub open spec fn request_wf(input: EncodedInput, recipe: DecodeRecipe) -> bool {
    &&& recipe.siz <= 3
    &&& match input {
        EncodedInput::Tmem(bank) => bank@.len() == TMEM_BYTES && recipe.representation != Representation::LinearCompat,
        EncodedInput::LinearCompat { bytes, palette_bank } => palette_bank@.len() == TMEM_BYTES
            && recipe.representation == Representation::LinearCompat && (recipe.fmt == 2 ==> linear_bytes(recipe) <= bytes@.len()),
    }
}

/// The identity preimage of a request (see `serialization::preimage`).
pub open spec fn request_preimage(input: EncodedInput, recipe: DecodeRecipe) -> Seq<u8> {
    match input {
        EncodedInput::Tmem(bank) => preimage(recipe, bank@, Seq::empty()),
        EncodedInput::LinearCompat { bytes, palette_bank } => preimage(recipe, palette_bank@, bytes@),
    }
}

fn bank_array(bank: &Vec<u8>) -> (r: [u8; 4096])
    requires
        bank@.len() == TMEM_BYTES,
    ensures
        r@ == bank@,
{
    let mut a = [0u8; 4096];
    let mut i: usize = 0;
    while i < 4096
        invariant
            i <= 4096,
            bank@.len() == 4096,
            a@.len() == 4096,
            forall|j: int| 0 <= j < i ==> a@[j] == bank@[j],
        decreases 4096 - i,
    {
        a[i] = bank[i];
        i = i + 1;
    }
    assert(a@ =~= bank@);
    a
}

impl EncodedTextureRequest {
    pub closed spec fn spec_input(self) -> EncodedInput {
        self.input
    }

    pub closed spec fn spec_recipe(self) -> DecodeRecipe {
        self.recipe
    }

    /// A request over `input` decoded by `recipe`, when they fit together (see `request_wf`).
    pub fn new(input: EncodedInput, recipe: DecodeRecipe) -> (r: Option<Self>)
        ensures
            r is Some <==> request_wf(input, recipe),
            r matches Some(q) ==> q.spec_input() == input && q.spec_recipe() == recipe,
    {
        if recipe.siz > 3 {
            return None;
        }
        let ok = match &input {
            EncodedInput::Tmem(bank) => bank.len() == TMEM_BYTES && recipe.representation
                != Representation::LinearCompat,
            EncodedInput::LinearCompat { bytes, palette_bank } => {
                if palette_bank.len() != TMEM_BYTES || recipe.representation
                    != Representation::LinearCompat {
                    false
                } else if recipe.fmt == 2 {
                    let n0 = recipe.logical[0] as u128;
                    let n1 = recipe.logical[1] as u128;
                    assert(n0 * n1 <= 0xffff_ffff * 0xffff_ffff) by (nonlinear_arith)
                        requires
                            n0 <= 0xffff_ffff,
                            n1 <= 0xffff_ffff,
                    ;
                    let mult: u128 = if recipe.siz == 0 {
                        1
                    } else if recipe.siz == 1 {
                        2
                    } else if recipe.siz == 2 {
                        4
                    } else {
                        8
                    };
                    let px0 = n0 * n1;
                    assert(px0 * mult <= 0xffff_ffff * 0xffff_ffff * 8) by (nonlinear_arith)
                        requires
                            px0 <= 0xffff_ffff * 0xffff_ffff,
                            mult <= 8,
                    ;
                    let nb = (px0 * mult + 1) / 2;
                    nb <= bytes.len() as u128
                } else {
                    true
                }
            },
        };
        if ok {
            Some(EncodedTextureRequest { input, recipe })
        } else {
            None
        }
    }

    pub fn input(&self) -> (r: &EncodedInput)
        ensures
            *r == self.spec_input(),
    {
        &self.input
    }

    pub fn recipe(&self) -> (r: &DecodeRecipe)
        ensures
            *r == self.spec_recipe(),
    {
        &self.recipe
    }

    /// The identity preimage: the recipe header, every bank byte the decode reads, the
    /// linear bytes and the palette entries they select.
    pub fn witness(&self) -> (r: Vec<u8>)
        requires
            request_wf(self.spec_input(), self.spec_recipe()),
        ensures
            r@ == request_preimage(self.spec_input(), self.spec_recipe()),
    {
        match &self.input {
            EncodedInput::Tmem(bank) => {
                let b = bank_array(bank);
                let empty: [u8; 0] = [];
                assert(empty@ =~= Seq::<u8>::empty());
                serialization::serialize(&self.recipe, &b, empty.as_slice())
            },
            EncodedInput::LinearCompat { bytes, palette_bank } => {
                let b = bank_array(palette_bank);
                serialization::serialize(&self.recipe, &b, bytes.as_slice())
            },
        }
    }

    /// The content key: XXH3-64 of the identity preimage.
    pub fn key(&self) -> (r: TextureKey)
        requires
            request_wf(self.spec_input(), self.spec_recipe()),
        ensures
            r == key_of(request_preimage(self.spec_input(), self.spec_recipe())),
    {
        let w = self.witness();
        TextureKey { scheme: TextureKeyScheme::Fast3dV1, xxh3_64: xxh3_64(w.as_slice()) }
    }

    /// Whether two requests decode the same: equal recipes and equal input bytes; for
    /// color-indexed linear inputs the palette halves of the banks must match too.
    pub fn matches(&self, other: &EncodedTextureRequest) -> (r: bool)
        ensures
            r == (self.spec_recipe() == other.spec_recipe() && match (self.spec_input(), other.spec_input()) {
                (EncodedInput::Tmem(a), EncodedInput::Tmem(b)) => a@ == b@,
                (
                    EncodedInput::LinearCompat { bytes: a, palette_bank: pa },
                    EncodedInput::LinearCompat { bytes: b, palette_bank: pb },
                ) => a@ == b@ && (self.spec_recipe().fmt != 2 || palette_upper(pa@) == palette_upper(pb@)),
                _ => false,
            }),
    {
        if !self.recipe.same(&other.recipe) {
            return false;
        }
        match (&self.input, &other.input) {
            (EncodedInput::Tmem(a), EncodedInput::Tmem(b)) => bytes_equal(a.as_slice(), b.as_slice()),
            (
                EncodedInput::LinearCompat { bytes: a, palette_bank: pa },
                EncodedInput::LinearCompat { bytes: b, palette_bank: pb },
            ) => bytes_equal(a.as_slice(), b.as_slice()) && (self.recipe.fmt != 2 || bytes_equal(
                upper(pa),
                upper(pb),
            )),
            _ => false,
        }
    }

    /// What `decode` returns: nothing for a TMEM request; for a linear request the legacy
    /// decoder's image of the linear bytes with the palette half of the bank.
    pub open spec fn decoded(self, r: Option<Vec<u8>>) -> bool {
        match self.spec_input() {
            EncodedInput::Tmem(_) => r is None,
            EncodedInput::LinearCompat { bytes, palette_bank } => r matches Some(v) && (bytes@.len()
                * 2 <= usize::MAX ==> v@ == spec_decode(
                self.spec_recipe().fmt,
                self.spec_recipe().siz,
                bytes@,
                self.spec_recipe().logical[0],
                self.spec_recipe().logical[1],
                palette_upper(palette_bank@),
                self.spec_recipe().palette,
                self.spec_recipe().tlut,
            )),
        }
    }

    /// Decodes a linear request with the legacy decoder; TMEM requests need the bank
    /// sampler, which this function does not provide (`None`).
    pub fn decode(&self) -> (r: Option<Vec<u8>>)
        requires
            dims_fit(self.spec_recipe().logical[0], self.spec_recipe().logical[1]),
        ensures
            self.decoded(r),
    {
        match &self.input {
            EncodedInput::Tmem(_) => None,
            EncodedInput::LinearCompat { bytes, palette_bank } => {
                let fi = FormatInfo { fmt: self.recipe.fmt, siz: self.recipe.siz };
                let pal = upper(palette_bank);
                if bytes.len() > usize::MAX / 2 {
                    return Some(Vec::new());
                }
                Some(fi.decode(bytes.as_slice(), self.recipe.logical[0], self.recipe.logical[1], pal, self.recipe.palette, self.recipe.tlut))
            },
        }
    }
}

/// The upper (palette) half of a bank, empty for a short bank.
pub open spec fn palette_upper(bank: Seq<u8>) -> Seq<u8> {
    if bank.len() >= 2048 {
        bank.subrange(2048, bank.len() as int)
    } else {
        Seq::empty()
    }
}

/// Whether `a` and `b` hold the same bytes.
pub fn bytes_equal(a: &[u8], b: &[u8]) -> (r: bool)
    ensures
        r == (a@ == b@),
{
    if a.len() != b.len() {
        return false;
    }
    let mut i: usize = 0;
    while i < a.len()
        invariant
            i <= a@.len(),
            a@.len() == b@.len(),
            forall|j: int| 0 <= j < i ==> a@[j] == b@[j],
        decreases a@.len() - i,
    {
        if a[i] != b[i] {
            return false;
        }
        i = i + 1;
    }
    assert(a@ =~= b@);
    true
}

/// The palette half of `bank` (see `palette_upper`).
fn upper(bank: &Vec<u8>) -> (r: &[u8])
    ensures
        r@ == palette_upper(bank@),
{
    let n = bank.len();
    if n >= 2048 {
        &bank.as_slice()[2048..n]
    } else {
        &bank.as_slice()[0..0]
    }
}

/// Where a binding's texels come from: an encoded request, or decoded RGBA8 bytes.
#[derive(Debug)]
pub enum TextureSource {
    Encoded(EncodedTextureRequest),
    Rgba(Vec<u8>),
}

impl TextureSource {
    /// The RGBA8 bytes of the source (see `EncodedTextureRequest::decode`).
    pub fn decode(&self) -> (r: Option<Vec<u8>>)
        requires
            self matches TextureSource::Encoded(q) ==> dims_fit(q.spec_recipe().logical[0], q.spec_recipe().logical[1]),
        ensures
            self matches TextureSource::Rgba(b) ==> r matches Some(v) && v@ == b@,
            self matches TextureSource::Encoded(q) ==> q.decoded(r),
    {
        match self {
            TextureSource::Encoded(q) => q.decode(),
            TextureSource::Rgba(b) => Some(b.clone()),
        }
    }
}

/// What a draw binds: the texel source and how it is sampled.
#[derive(Debug)]
pub struct TextureBindingInput {
    pub source: TextureSource,
    pub sampling: TileSampling,
}


/// How a draw's request reads `tile`: as a TMEM lookup image when a wrapping mask period
/// exceeds the image, as a tile where the TMEM sampler takes it, else as linear bytes.
pub open spec fn spec_request_representation(rdp: Rdp, tile: TileDescriptor, sampling: TileSampling) -> Representation {
    if sampling.image[2] == 1 {
        Representation::Lookup4096x4
    } else if faithful_format(tile.fmt, tile.siz) && (rows_word_aligned(at_least_one(tile.width), tile.siz)
        || rdp.load_via_tile) {
        Representation::Tile
    } else {
        Representation::LinearCompat
    }
}

/// The sampling state and decode recipe a draw's texture request for `tile` gets, with
/// TLUT format `tlut` (see `spec_request_representation`).
pub fn request_recipe(rdp: &Rdp, tile: &TileDescriptor, tlut: u8) -> (r: (TileSampling, DecodeRecipe))
    requires
        tile.masks < 32,
        tile.maskt < 32,
    ensures
        r.0 == spec_from_tile(*tile, tlut),
        r.1 == spec_recipe(*tile, tlut, spec_request_representation(*rdp, *tile, r.0), r.0),
{
    let sampling = TileSampling::from_tile(tile, tlut);
    let width: u32 = if tile.width >= 1 { tile.width as u32 } else { 1 };
    let representation = if sampling.image[2] == 1 {
        Representation::Lookup4096x4
    } else if tile_takes_faithful_path(rdp, tile, width) {
        Representation::Tile
    } else {
        Representation::LinearCompat
    };
    let recipe = DecodeRecipe::new(tile, tlut, representation, sampling);
    (sampling, recipe)
}

/// A recipe keeps what decodes the tile: its format, size, TMEM base and line; a 4-bit
/// color-indexed tile (fmt 2, siz 0) keeps its palette bank and any other tile reads bank
/// 0; a color-indexed tile keeps the TLUT format and any other has none; the logical extent
/// is the tile's, raised to at least 1.
pub proof fn lemma_recipe_keeps_tile_fields(tile: TileDescriptor, tlut: u8, representation: Representation, sampling: TileSampling)
    ensures
        ({
            let r = spec_recipe(tile, tlut, representation, sampling);
            &&& r.representation == representation
            &&& r.fmt == tile.fmt && r.siz == tile.siz
            &&& r.base == tile.tmem_addr && r.line == tile.line
            &&& (tile.fmt == 2 && tile.siz == 0 ==> r.palette == tile.palette)
            &&& (!(tile.fmt == 2 && tile.siz == 0) ==> r.palette == 0)
            &&& (tile.fmt == 2 ==> r.tlut == tlut)
            &&& (tile.fmt != 2 ==> r.tlut == 0)
            &&& r.logical[0] >= 1 && r.logical[1] >= 1
            &&& (tile.width >= 1 ==> r.logical[0] == tile.width)
            &&& (tile.height >= 1 ==> r.logical[1] == tile.height)
            &&& (representation == Representation::Tile ==> r.output[0] == tile.width && r.output[1] == tile.height)
        }),
{
}
} // verus!
