//! The identity preimage of an encoded texture request: a fixed header describing the
//! recipe, then every TMEM byte the decode reads as (address, byte) pairs, the linear
//! bytes, and the palette entries the linear bytes index.
use vstd::prelude::*;
use super::{DecodeRecipe, Representation, TMEM_BYTES, representation_code};

verus! {

/// `((base * 8) + ((rel + offset) ^ (odd ? 4 : 0))) & mask`: the TMEM address of byte
/// `offset` of the texel at row offset `rel`, word halves swapped on odd rows.
pub open spec fn mark_addr(base: u16, rel: u64, offset: u64, odd: bool, mask: u64) -> int {
    ((((base as u64) * 8) as u64 + ((rel + offset) as u64 ^ (if odd {
        4u64
    } else {
        0u64
    }))) as u64 & mask) as int
}

/// Address mask of a recipe: color-indexed and 32-bit texels address the lower 2 KiB.
pub open spec fn addr_mask(r: DecodeRecipe) -> u64 {
    if r.fmt == 2 || r.siz == 3 {
        2047
    } else {
        4095
    }
}

/// The TMEM bytes one texel at row offset `rel` occupies: its first byte, its second byte
/// for 16- and 32-bit texels, and the upper-half copies of both for 32-bit texels.
pub open spec fn texel_marks(r: DecodeRecipe, rel: u64, odd: bool) -> Set<int> {
    let a = mark_addr(r.base, rel, 0, odd, addr_mask(r));
    let a1 = mark_addr(r.base, rel, 1, odd, addr_mask(r));
    let s1 = if r.siz >= 2 {
        set![a, a1]
    } else {
        set![a]
    };
    if r.siz == 3 {
        s1.insert((a as u64 | 2048) as int).insert((a1 as u64 | 2048) as int)
    } else {
        s1
    }
}

/// The two bytes of palette entry `index` of the recipe's palette bank.
pub open spec fn entry_marks(r: DecodeRecipe, index: u8) -> Set<int> {
    let p = 2048 + (r.palette as int) * 128 + (index as int) * 8;
    set![(p as u64 & 4095) as int, ((p + 1) as u64 & 4095) as int]
}

/// The palette bytes one index byte selects: for 4-bit indices the high nibble's entry,
/// and the low nibble's when `low`; otherwise the byte's entry.
pub open spec fn index_marks(r: DecodeRecipe, byte: u8, low: bool) -> Set<int> {
    if r.siz == 0 {
        if low {
            entry_marks(r, byte >> 4u8).union(entry_marks(r, byte & 15))
        } else {
            entry_marks(r, byte >> 4u8)
        }
    } else {
        entry_marks(r, byte)
    }
}

/// Row offset of texel `x` of row `y`: `y * line * 8 + ((x << min(siz, 2)) >> 1)`.
pub open spec fn tile_rel(r: DecodeRecipe, y: u64, x: u64) -> u64 {
    ((y as int) * (r.line as int) * 8 + ((x as int) * (if r.siz == 0 {
        1int
    } else if r.siz == 1 {
        2int
    } else {
        4int
    })) / 2) as u64
}

/// Bytes of one tile row: `ceil((output_width << min(siz, 2)) / 2)`.
pub open spec fn row_bytes(r: DecodeRecipe) -> int {
    ((r.output[0] as int) * (if r.siz == 0 {
        1int
    } else if r.siz == 1 {
        2int
    } else {
        4int
    }) + 1) / 2
}

/// TMEM bytes of the texels `x < w` of tile row `y`.
pub open spec fn row_marks(r: DecodeRecipe, y: u64, w: nat) -> Set<int>
    decreases w,
{
    if w == 0 {
        Set::empty()
    } else {
        row_marks(r, y, (w - 1) as nat).union(texel_marks(r, tile_rel(r, y, (w - 1) as u64), y % 2 != 0))
    }
}

/// TMEM bytes of the first `h` rows.
pub open spec fn tile_marks(r: DecodeRecipe, h: nat) -> Set<int>
    decreases h,
{
    if h == 0 {
        Set::empty()
    } else {
        tile_marks(r, (h - 1) as nat).union(row_marks(r, (h - 1) as u64, r.output[0] as nat))
    }
}

/// Palette bytes the index bytes `x < n` of tile row `y` select.
pub open spec fn row_palette(r: DecodeRecipe, bank: Seq<u8>, y: u64, n: nat) -> Set<int>
    decreases n,
{
    if n == 0 {
        Set::empty()
    } else {
        let x = (n - 1) as int;
        let a = mark_addr(r.base, ((y as int) * (r.line as int) * 8 + x) as u64, 0, y % 2 != 0, 2047);
        row_palette(r, bank, y, (n - 1) as nat).union(
            index_marks(r, bank[a], x + 1 < row_bytes(r) || r.output[0] % 2 == 0),
        )
    }
}

/// Palette bytes the first `h` tile rows select.
pub open spec fn tile_palette(r: DecodeRecipe, bank: Seq<u8>, h: nat) -> Set<int>
    decreases h,
{
    if h == 0 {
        Set::empty()
    } else {
        tile_palette(r, bank, (h - 1) as nat).union(
            row_palette(r, bank, (h - 1) as u64, row_bytes(r) as nat),
        )
    }
}

/// TMEM bytes of every row offset below `n`, for both row parities.
pub open spec fn lookup_marks(r: DecodeRecipe, n: nat) -> Set<int>
    decreases n,
{
    if n == 0 {
        Set::empty()
    } else {
        lookup_marks(r, (n - 1) as nat).union(texel_marks(r, (n - 1) as u64, false)).union(
            texel_marks(r, (n - 1) as u64, true),
        )
    }
}

/// Palette bytes the first `n` bytes of `s` select, each read in full.
pub open spec fn bank_palette(r: DecodeRecipe, s: Seq<u8>, n: nat) -> Set<int>
    decreases n,
{
    if n == 0 {
        Set::empty()
    } else {
        bank_palette(r, s, (n - 1) as nat).union(index_marks(r, s[n - 1], true))
    }
}

/// Pixels of the logical extent.
pub open spec fn pixels(r: DecodeRecipe) -> int {
    (r.logical[0] as int) * (r.logical[1] as int)
}

/// `2^siz` for the four size codes.
pub open spec fn siz_mult(siz: u8) -> int {
    if siz == 0 {
        1
    } else if siz == 1 {
        2
    } else if siz == 2 {
        4
    } else {
        8
    }
}

/// Bytes of the linear index stream: `ceil((pixels << siz) / 2)`.
pub open spec fn linear_bytes(r: DecodeRecipe) -> int {
    (pixels(r) * siz_mult(r.siz) + 1) / 2
}

/// Palette bytes the first `n` linear index bytes select.
pub open spec fn linear_palette(r: DecodeRecipe, linear: Seq<u8>, n: nat) -> Set<int>
    decreases n,
{
    if n == 0 {
        Set::empty()
    } else {
        let i = (n - 1) as int;
        linear_palette(r, linear, (n - 1) as nat).union(
            index_marks(r, linear[i], i + 1 < linear_bytes(r) || pixels(r) % 2 == 0),
        )
    }
}

/// The TMEM bytes the decode of `r` reads from the bank, palette entries included.
pub open spec fn selected_set(r: DecodeRecipe, bank: Seq<u8>) -> Set<int> {
    match r.representation {
        Representation::Tile => {
            let t = tile_marks(r, r.output[1] as nat);
            if r.fmt == 2 {
                t.union(tile_palette(r, bank, r.output[1] as nat))
            } else {
                t
            }
        },
        Representation::Lookup4096x4 => {
            let t = lookup_marks(r, 4096);
            if r.fmt == 2 {
                t.union(bank_palette(r, bank, 2048))
            } else {
                t
            }
        },
        Representation::LinearCompat => Set::empty(),
    }
}

/// The palette bytes the linear bytes of `r` select.
pub open spec fn palette_set(r: DecodeRecipe, linear: Seq<u8>) -> Set<int> {
    if r.representation == Representation::LinearCompat && r.fmt == 2 {
        linear_palette(r, linear, linear_bytes(r) as nat)
    } else {
        Set::empty()
    }
}

/// Little-endian bytes of a 16-bit value.
pub open spec fn le16(v: u16) -> Seq<u8> {
    seq![v as u8, (v >> 8u16) as u8]
}

/// Little-endian bytes of a 32-bit value.
pub open spec fn le32(v: u32) -> Seq<u8> {
    seq![v as u8, (v >> 8u32) as u8, (v >> 16u32) as u8, (v >> 24u32) as u8]
}

/// The (address, byte) triples of the addresses of `sel` below `a`, in address order: the
/// address little-endian, then the bank byte.
pub open spec fn pairs_upto(sel: Set<int>, bank: Seq<u8>, a: nat) -> Seq<u8>
    decreases a,
{
    if a == 0 {
        Seq::empty()
    } else {
        let b = (a - 1) as int;
        let rest = pairs_upto(sel, bank, (a - 1) as nat);
        if sel.contains(b) {
            rest + le16(b as u16) + seq![bank[b]]
        } else {
            rest
        }
    }
}

/// Number of addresses of `sel` below `a`.
pub open spec fn count_upto(sel: Set<int>, a: nat) -> nat
    decreases a,
{
    if a == 0 {
        0
    } else if sel.contains(a - 1) {
        count_upto(sel, (a - 1) as nat) + 1
    } else {
        count_upto(sel, (a - 1) as nat)
    }
}

/// A pair list over the bank: the count, then the triples.
pub open spec fn pair_list(sel: Set<int>, bank: Seq<u8>) -> Seq<u8> {
    le32(count_upto(sel, 4096) as u32) + pairs_upto(sel, bank, 4096)
}

/// The "fast3d-tmem-key\0" tag.
pub open spec fn key_tag() -> Seq<u8> {
    seq![
        0x66u8, 0x61, 0x73, 0x74, 0x33, 0x64, 0x2d, 0x74, 0x6d, 0x65, 0x6d, 0x2d, 0x6b, 0x65, 0x79,
        0x00,
    ]
}

/// The 44-byte header: tag, format version 1, representation, output and logical extents,
/// format, size, TMEM base and line, palette and TLUT format.
pub open spec fn header(r: DecodeRecipe) -> Seq<u8> {
    key_tag() + le16(1) + seq![representation_code(r.representation), 0u8] + le32(r.output[0])
        + le32(r.output[1]) + le32(r.logical[0]) + le32(r.logical[1]) + seq![r.fmt, r.siz] + le16(
        r.base,
    ) + le16(r.line) + seq![r.palette, r.tlut]
}

/// The identity preimage of `r` over `bank` and `linear`.
pub open spec fn preimage(r: DecodeRecipe, bank: Seq<u8>, linear: Seq<u8>) -> Seq<u8> {
    header(r) + pair_list(selected_set(r, bank), bank) + le32(linear.len() as u32) + linear
        + pair_list(palette_set(r, linear), bank)
}


/// `flags` marks exactly the addresses of `s` below 4096.
pub open spec fn flags_match(flags: Seq<bool>, s: Set<int>) -> bool {
    &&& flags.len() == TMEM_BYTES
    &&& forall|a: int| 0 <= a < TMEM_BYTES ==> (flags[a] <==> s.contains(a))
}

/// Every address of `s` lies in TMEM.
pub open spec fn in_tmem(s: Set<int>) -> bool {
    forall|a: int| s.contains(a) ==> 0 <= a < TMEM_BYTES
}

fn mark(flags: &mut Vec<bool>, a: u64, Ghost(s): Ghost<Set<int>>)
    requires
        flags_match(old(flags)@, s),
        a < TMEM_BYTES,
    ensures
        flags_match(final(flags)@, s.insert(a as int)),
{
    flags.set(a as usize, true);
}

/// `(base * 8 + ((rel + offset) ^ swap)) & mask` in machine arithmetic.
fn addr(base: u16, rel: u64, offset: u64, odd: bool, mask: u64) -> (r: u64)
    requires
        rel < 0x10_0000_0000_0000,
        offset <= 1,
        mask == 2047 || mask == 4095,
    ensures
        r == mark_addr(base, rel, offset, odd, mask),
        r <= mask,
{
    let x4: u64 = if odd {
        4
    } else {
        0
    };
    let t = rel + offset;
    assert(t ^ x4 < 0x20_0000_0000_0000) by (bit_vector)
        requires
            t < 0x10_0000_0000_0001,
            x4 <= 4,
    ;
    let sum = (base as u64) * 8 + (t ^ x4);
    assert(sum & mask <= mask) by (bit_vector);
    sum & mask
}

/// Adds the bytes of the texel at row offset `rel` to `flags`.
fn mark_texel(flags: &mut Vec<bool>, r: &DecodeRecipe, rel: u64, odd: bool, Ghost(s): Ghost<Set<int>>)
    requires
        flags_match(old(flags)@, s),
        rel < 0x10_0000_0000_0000,
    ensures
        flags_match(final(flags)@, s.union(texel_marks(*r, rel, odd))),
{
    let mask: u64 = if r.fmt == 2 || r.siz == 3 {
        2047
    } else {
        4095
    };
    let a = addr(r.base, rel, 0, odd, mask);
    mark(flags, a, Ghost(s));
    let ghost s1 = s.insert(a as int);
    let a1 = addr(r.base, rel, 1, odd, mask);
    if r.siz >= 2 {
        mark(flags, a1, Ghost(s1));
        proof {
            s1 = s1.insert(a1 as int);
        }
    }
    if r.siz == 3 {
        assert(a | 2048 <= 4095 && a1 | 2048 <= 4095) by (bit_vector)
            requires
                a <= 2047,
                a1 <= 2047,
        ;
        mark(flags, a | 2048, Ghost(s1));
        mark(flags, a1 | 2048, Ghost(s1.insert((a | 2048) as int)));
        proof {
            s1 = s1.insert((a | 2048) as int).insert((a1 | 2048) as int);
        }
    }
    assert(s1 =~= s.union(texel_marks(*r, rel, odd)));
}

/// Adds the bytes of palette entry `index` to `flags`.
fn mark_entry(flags: &mut Vec<bool>, r: &DecodeRecipe, index: u8, Ghost(s): Ghost<Set<int>>)
    requires
        flags_match(old(flags)@, s),
    ensures
        flags_match(final(flags)@, s.union(entry_marks(*r, index))),
{
    let p: u64 = 2048 + (r.palette as u64) * 128 + (index as u64) * 8;
    let q = p + 1;
    let a = p & 4095;
    let b = q & 4095;
    assert(p & 4095 <= 4095 && q & 4095 <= 4095) by (bit_vector);
    mark(flags, a, Ghost(s));
    mark(flags, b, Ghost(s.insert(a as int)));
    assert(s.insert(a as int).insert(b as int) =~= s.union(entry_marks(*r, index)));
}

/// Adds the palette bytes the index byte `byte` selects to `flags`.
fn mark_index(flags: &mut Vec<bool>, r: &DecodeRecipe, byte: u8, low: bool, Ghost(s): Ghost<Set<int>>)
    requires
        flags_match(old(flags)@, s),
    ensures
        flags_match(final(flags)@, s.union(index_marks(*r, byte, low))),
{
    if r.siz == 0 {
        mark_entry(flags, r, byte >> 4u8, Ghost(s));
        if low {
            mark_entry(flags, r, byte & 15, Ghost(s.union(entry_marks(*r, byte >> 4u8))));
            assert(s.union(entry_marks(*r, byte >> 4u8)).union(entry_marks(*r, byte & 15)) =~= s.union(
                index_marks(*r, byte, low),
            ));
        } else {
            assert(s.union(entry_marks(*r, byte >> 4u8)) =~= s.union(index_marks(*r, byte, low)));
        }
    } else {
        mark_entry(flags, r, byte, Ghost(s));
    }
}

/// Appends the little-endian bytes of `v`.
fn push_le32(out: &mut Vec<u8>, v: u32)
    ensures
        final(out)@ == old(out)@ + le32(v),
{
    out.push(v as u8);
    out.push((v >> 8u32) as u8);
    out.push((v >> 16u32) as u8);
    out.push((v >> 24u32) as u8);
    assert(final(out)@ =~= old(out)@ + le32(v));
}

/// Appends the little-endian bytes of `v`.
fn push_le16(out: &mut Vec<u8>, v: u16)
    ensures
        final(out)@ == old(out)@ + le16(v),
{
    out.push(v as u8);
    out.push((v >> 8u16) as u8);
    assert(final(out)@ =~= old(out)@ + le16(v));
}

/// Appends the pair list of the addresses `flags` marks.
fn push_pairs(out: &mut Vec<u8>, flags: &Vec<bool>, bank: &[u8; 4096], Ghost(s): Ghost<Set<int>>)
    requires
        flags_match(flags@, s),
    ensures
        final(out)@ == old(out)@ + pair_list(s, bank@),
{
    let mut count: u32 = 0;
    let mut a: usize = 0;
    while a < 4096
        invariant
            a <= 4096,
            flags_match(flags@, s),
            count == count_upto(s, a as nat),
            count <= a,
        decreases 4096 - a,
    {
        if flags[a] {
            count = count + 1;
        }
        a = a + 1;
    }
    push_le32(out, count);
    let ghost start = out@;
    let mut a: usize = 0;
    while a < 4096
        invariant
            a <= 4096,
            flags_match(flags@, s),
            bank@.len() == 4096,
            out@ == start + pairs_upto(s, bank@, a as nat),
        decreases 4096 - a,
    {
        if flags[a] {
            let w = a as u16;
            push_le16(out, w);
            out.push(bank[a]);
            assert(out@ =~= start + pairs_upto(s, bank@, (a + 1) as nat));
        }
        a = a + 1;
    }
    assert(out@ =~= old(out)@ + pair_list(s, bank@));
}

/// Machine form of `tile_rel`.
fn rel_of(r: &DecodeRecipe, y: u64, x: u64) -> (v: u64)
    requires
        y <= u32::MAX,
        x <= u32::MAX,
    ensures
        v == tile_rel(*r, y, x),
        v < 0x10_0000_0000_0000,
{
    let line = r.line as u64;
    assert(y * line <= 0xffff_ffff * 0xffff) by (nonlinear_arith)
        requires
            y <= 0xffff_ffff,
            line <= 0xffff,
    ;
    let shift: u64 = if r.siz == 0 {
        0
    } else if r.siz == 1 {
        1
    } else {
        2
    };
    let h = (x << shift) >> 1u64;
    assert(((x << shift) >> 1u64) as int == (x as int) * (if shift == 0 {
        1int
    } else if shift == 1 {
        2int
    } else {
        4int
    }) / 2) by (bit_vector)
        requires
            x <= 0xffff_ffff,
            shift <= 2,
    ;
    y * line * 8 + h
}

/// The identity preimage of `recipe` over `bank` and `linear` (see `preimage`). The linear
/// index bytes of a color-indexed linear recipe must all be present.
pub fn serialize(recipe: &DecodeRecipe, bank: &[u8; 4096], linear: &[u8]) -> (r: Vec<u8>)
    requires
        recipe.siz <= 3,
        recipe.representation == Representation::LinearCompat && recipe.fmt == 2 ==> linear_bytes(*recipe) <= linear@.len(),
    ensures
        r@ == preimage(*recipe, bank@, linear@),
{
    let r = recipe;
    let mut sel: Vec<bool> = vec![false; 4096];
    let mut pal: Vec<bool> = vec![false; 4096];
    assert(flags_match(sel@, Set::empty()));
    let ghost s_sel: Set<int> = Set::empty();
    match r.representation {
        Representation::Tile => {
            let h = r.output[1] as u64;
            let w = r.output[0] as u64;
            let mut y: u64 = 0;
            while y < h
                invariant
                    y <= h,
                    h == r.output[1],
                    w == r.output[0],
                    flags_match(sel@, tile_marks(*r, y as nat)),
                decreases h - y,
            {
                let mut x: u64 = 0;
                while x < w
                    invariant
                        x <= w,
                        y < h,
                        h == r.output[1],
                        w == r.output[0],
                        flags_match(sel@, tile_marks(*r, y as nat).union(row_marks(*r, y, x as nat))),
                    decreases w - x,
                {
                    let rel = rel_of(r, y, x);
                    mark_texel(&mut sel, r, rel, y % 2 != 0, Ghost(tile_marks(*r, y as nat).union(row_marks(*r, y, x as nat))));
                    assert(tile_marks(*r, y as nat).union(row_marks(*r, y, x as nat)).union(texel_marks(*r, rel, y % 2 != 0)) =~= tile_marks(*r, y as nat).union(row_marks(*r, y, (x + 1) as nat)));
                    x = x + 1;
                }
                y = y + 1;
            }
            proof {
                s_sel = tile_marks(*r, r.output[1] as nat);
            }
            if r.fmt == 2 {
                let shift: u64 = if r.siz == 0 {
                    0
                } else if r.siz == 1 {
                    1
                } else {
                    2
                };
                assert(w << shift <= 0x4_0000_0000) by (bit_vector)
                    requires
                        w <= 0xffff_ffff,
                        shift <= 2,
                ;
                let rb = ((w << shift) + 1) / 2;
                assert((((w << shift) + 1) / 2) as int == ((w as int) * (if shift == 0 {
                    1int
                } else if shift == 1 {
                    2int
                } else {
                    4int
                }) + 1) / 2) by (bit_vector)
                    requires
                        w <= 0xffff_ffff,
                        shift <= 2,
                ;
                assert(rb == row_bytes(*r));
                let mut y: u64 = 0;
                while y < h
                    invariant
                        y <= h,
                        h == r.output[1],
                        w == r.output[0],
                        rb == row_bytes(*r),
                        rb <= 0x2_0000_0000,
                        bank@.len() == 4096,
                        flags_match(sel@, s_sel.union(tile_palette(*r, bank@, y as nat))),
                    decreases h - y,
                {
                    let line = r.line as u64;
                    assert(y * line <= 0xffff_ffff * 0xffff) by (nonlinear_arith)
                        requires
                            y <= 0xffff_ffff,
                            line <= 0xffff,
                    ;
                    let row = y * line * 8;
                    let mut x: u64 = 0;
                    while x < rb
                        invariant
                            x <= rb,
                            rb == row_bytes(*r),
                            rb <= 0x2_0000_0000,
                            row == (y as int) * (r.line as int) * 8,
                            row <= 0xffff_ffff * 0xffff * 8,
                            w == r.output[0],
                            bank@.len() == 4096,
                            flags_match(sel@, s_sel.union(tile_palette(*r, bank@, y as nat)).union(row_palette(*r, bank@, y, x as nat))),
                        decreases rb - x,
                    {
                        let a = addr(r.base, row + x, 0, y % 2 != 0, 2047);
                        let low = x + 1 < rb || w % 2 == 0;
                        mark_index(&mut sel, r, bank[a as usize], low, Ghost(s_sel.union(tile_palette(*r, bank@, y as nat)).union(row_palette(*r, bank@, y, x as nat))));
                        assert(s_sel.union(tile_palette(*r, bank@, y as nat)).union(row_palette(*r, bank@, y, x as nat)).union(index_marks(*r, bank@[a as int], low)) =~= s_sel.union(tile_palette(*r, bank@, y as nat)).union(row_palette(*r, bank@, y, (x + 1) as nat)));
                        x = x + 1;
                    }
                    assert(s_sel.union(tile_palette(*r, bank@, y as nat)).union(row_palette(*r, bank@, y, rb as nat)) =~= s_sel.union(tile_palette(*r, bank@, (y + 1) as nat)));
                    y = y + 1;
                }
                proof {
                    s_sel = s_sel.union(tile_palette(*r, bank@, r.output[1] as nat));
                }
            }
        },
        Representation::Lookup4096x4 => {
            let mut rel: u64 = 0;
            while rel < 4096
                invariant
                    rel <= 4096,
                    flags_match(sel@, lookup_marks(*r, rel as nat)),
                decreases 4096 - rel,
            {
                mark_texel(&mut sel, r, rel, false, Ghost(lookup_marks(*r, rel as nat)));
                mark_texel(&mut sel, r, rel, true, Ghost(lookup_marks(*r, rel as nat).union(texel_marks(*r, rel, false))));
                rel = rel + 1;
            }
            proof {
                s_sel = lookup_marks(*r, 4096);
            }
            if r.fmt == 2 {
                let mut b: usize = 0;
                while b < 2048
                    invariant
                        b <= 2048,
                        bank@.len() == 4096,
                        flags_match(sel@, s_sel.union(bank_palette(*r, bank@, b as nat))),
                    decreases 2048 - b,
                {
                    mark_index(&mut sel, r, bank[b], true, Ghost(s_sel.union(bank_palette(*r, bank@, b as nat))));
                    assert(s_sel.union(bank_palette(*r, bank@, b as nat)).union(index_marks(*r, bank@[b as int], true)) =~= s_sel.union(bank_palette(*r, bank@, (b + 1) as nat)));
                    b = b + 1;
                }
                proof {
                    s_sel = s_sel.union(bank_palette(*r, bank@, 2048));
                }
            }
        },
        Representation::LinearCompat => {},
    }
    assert(s_sel =~= selected_set(*r, bank@)) by {
        if r.representation == Representation::LinearCompat {
        }
    }
    let ghost s_pal: Set<int> = Set::empty();
    assert(flags_match(pal@, s_pal));
    if r.representation == Representation::LinearCompat && r.fmt == 2 {
        let n0 = r.logical[0] as u128;
        let n1 = r.logical[1] as u128;
        assert(n0 * n1 <= 0xffff_ffff * 0xffff_ffff) by (nonlinear_arith)
            requires
                n0 <= 0xffff_ffff,
                n1 <= 0xffff_ffff,
        ;
        let px128 = n0 * n1;
        let mult: u128 = if r.siz == 0 {
            1
        } else if r.siz == 1 {
            2
        } else if r.siz == 2 {
            4
        } else {
            8
        };
        assert(px128 * mult <= 0xffff_ffff * 0xffff_ffff * 8) by (nonlinear_arith)
            requires
                px128 <= 0xffff_ffff * 0xffff_ffff,
                mult <= 8,
        ;
        let nb128 = (px128 * mult + 1) / 2;
        assert(nb128 == linear_bytes(*r));
        assert(linear@.len() == linear.len());
        assert(nb128 <= linear@.len());
        assert(px128 <= u64::MAX);
        let nb = nb128 as u64;
        let px = px128 as u64;
        let mut i: u64 = 0;
        while i < nb
            invariant
                i <= nb,
                nb == linear_bytes(*r),
                nb <= linear@.len(),
                px == pixels(*r),
                flags_match(pal@, linear_palette(*r, linear@, i as nat)),
            decreases nb - i,
        {
            let low = i + 1 < nb || px % 2 == 0;
            mark_index(&mut pal, r, linear[i as usize], low, Ghost(linear_palette(*r, linear@, i as nat)));
            assert(linear_palette(*r, linear@, i as nat).union(index_marks(*r, linear@[i as int], low)) =~= linear_palette(*r, linear@, (i + 1) as nat));
            i = i + 1;
        }
        proof {
            s_pal = linear_palette(*r, linear@, nb as nat);
        }
    }
    assert(s_pal =~= palette_set(*r, linear@));
    let mut out: Vec<u8> = Vec::new();
    let tag: [u8; 16] = [
        0x66, 0x61, 0x73, 0x74, 0x33, 0x64, 0x2d, 0x74, 0x6d, 0x65, 0x6d, 0x2d, 0x6b, 0x65, 0x79, 0x00,
    ];
    let mut k: usize = 0;
    while k < 16
        invariant
            k <= 16,
            tag@ == key_tag(),
            out@ == key_tag().subrange(0, k as int),
        decreases 16 - k,
    {
        out.push(tag[k]);
        assert(out@ =~= key_tag().subrange(0, k + 1));
        k = k + 1;
    }
    push_le16(&mut out, 1);
    out.push(super::representation_byte(r.representation));
    out.push(0);
    push_le32(&mut out, r.output[0]);
    push_le32(&mut out, r.output[1]);
    push_le32(&mut out, r.logical[0]);
    push_le32(&mut out, r.logical[1]);
    out.push(r.fmt);
    out.push(r.siz);
    push_le16(&mut out, r.base);
    push_le16(&mut out, r.line);
    out.push(r.palette);
    out.push(r.tlut);
    assert(out@ =~= header(*r));
    push_pairs(&mut out, &sel, bank, Ghost(s_sel));
    push_le32(&mut out, linear.len() as u32);
    let mut i: usize = 0;
    let ghost before = out@;
    while i < linear.len()
        invariant
            i <= linear@.len(),
            out@ == before + linear@.subrange(0, i as int),
        decreases linear@.len() - i,
    {
        out.push(linear[i]);
        assert(out@ =~= before + linear@.subrange(0, i + 1));
        i = i + 1;
    }
    assert(linear@.subrange(0, linear@.len() as int) =~= linear@);
    push_pairs(&mut out, &pal, bank, Ghost(s_pal));
    assert(out@ =~= preimage(*r, bank@, linear@));
    out
}
} // verus!
