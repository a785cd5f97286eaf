//! Texture-format decoders from linear TMEM bytes to RGBA8.
//!
//! Every decoder produces `4 * n` bytes for `n` texels: texel `i` occupies bytes `4i..4i+4`.
//! Source bytes past the end of the input read as zero. Nibble order for 4-bit formats:
//! even texel = high nibble.
use vstd::prelude::*;

verus! {

/// Byte `i` of `s`, or zero past its end.
pub open spec fn byte_or_zero(s: Seq<u8>, i: int) -> u8 {
    if 0 <= i < s.len() {
        s[i]
    } else {
        0
    }
}

/// The 4-bit value of texel `i` of a nibble-packed stream: even texels take the high nibble.
pub open spec fn nibble(s: Seq<u8>, i: int) -> u8 {
    let b = byte_or_zero(s, i / 2);
    if i % 2 == 0 {
        b >> 4u8
    } else {
        b & 0x0F
    }
}

/// A 4-bit value replicated to 8 bits.
pub open spec fn expand4(v: u8) -> u8 {
    (v << 4u8) | v
}

/// A 5-bit value replicated to 8 bits.
pub open spec fn expand5(c: u8) -> u8 {
    (c << 3u8) | (c >> 2u8)
}

/// The big-endian 16-bit word `hi:lo`.
pub open spec fn be16(hi: u8, lo: u8) -> u16 {
    ((hi as u16) << 8u16) | (lo as u16)
}

/// RGBA 5/5/5/1 word to RGBA8.
pub open spec fn rgba16_rgba8(v: u16) -> Seq<u8> {
    seq![
        expand5(((v >> 11u16) & 0x1F) as u8),
        expand5(((v >> 6u16) & 0x1F) as u8),
        expand5(((v >> 1u16) & 0x1F) as u8),
        if v & 1 != 0 { 255u8 } else { 0u8 },
    ]
}

/// IA16 word (intensity high byte, alpha low byte) to RGBA8.
pub open spec fn ia16_rgba8(v: u16) -> Seq<u8> {
    seq![(v >> 8u16) as u8, (v >> 8u16) as u8, (v >> 8u16) as u8, (v & 0xFF) as u8]
}

/// The big-endian palette entry at byte `off` of `tlut`, or zero when it is not wholly inside.
pub open spec fn tlut_entry(tlut: Seq<u8>, off: int) -> u16 {
    if 0 <= off && off + 1 < tlut.len() {
        be16(tlut[off], tlut[off + 1])
    } else {
        0
    }
}

/// A palette entry to RGBA8 by TLUT format: 2 = RGBA16, 3 = IA16, else transparent black.
pub open spec fn tlut_rgba8(entry: u16, tlut_fmt: u8) -> Seq<u8> {
    if tlut_fmt == 2 {
        rgba16_rgba8(entry)
    } else if tlut_fmt == 3 {
        ia16_rgba8(entry)
    } else {
        seq![0u8, 0u8, 0u8, 0u8]
    }
}

/// RGBA8 of texel `i` of format `(fmt, siz)`. Unsupported formats decode as RGBA16.
pub open spec fn spec_texel(
    fmt: u8,
    siz: u8,
    src: Seq<u8>,
    tlut: Seq<u8>,
    palette: u8,
    tlut_fmt: u8,
    i: int,
) -> Seq<u8> {
    if fmt == 4 && siz == 1 {
        let v = byte_or_zero(src, i);
        seq![v, v, v, v]
    } else if fmt == 4 && siz == 0 {
        let v = expand4(nibble(src, i));
        seq![v, v, v, v]
    } else if fmt == 3 && siz == 2 {
        let v = byte_or_zero(src, 2 * i);
        seq![v, v, v, byte_or_zero(src, 2 * i + 1)]
    } else if fmt == 3 && siz == 1 {
        let b = byte_or_zero(src, i);
        let v = expand4((b >> 4u8) & 0xF);
        seq![v, v, v, expand4(b & 0xF)]
    } else if fmt == 3 && siz == 0 {
        let n = nibble(src, i);
        let r = n & 0x0E;
        let v = (r << 4u8) | (r << 1u8) | (r >> 2u8);
        seq![v, v, v, if n & 1 != 0 { 255u8 } else { 0u8 }]
    } else if fmt == 0 && siz == 3 {
        seq![
            byte_or_zero(src, 4 * i),
            byte_or_zero(src, 4 * i + 1),
            byte_or_zero(src, 4 * i + 2),
            byte_or_zero(src, 4 * i + 3),
        ]
    } else if fmt == 2 && siz == 1 {
        tlut_rgba8(tlut_entry(tlut, (byte_or_zero(src, i) as int) * 8), tlut_fmt)
    } else if fmt == 2 && siz == 0 {
        tlut_rgba8(tlut_entry(tlut, (palette as int) * 128 + (nibble(src, i) as int) * 8), tlut_fmt)
    } else {
        rgba16_rgba8(be16(byte_or_zero(src, 2 * i), byte_or_zero(src, 2 * i + 1)))
    }
}

/// The RGBA8 image of the first `n` texels of format `(fmt, siz)`.
pub open spec fn spec_pixels(
    fmt: u8,
    siz: u8,
    src: Seq<u8>,
    tlut: Seq<u8>,
    palette: u8,
    tlut_fmt: u8,
    n: nat,
) -> Seq<u8> {
    Seq::new(4 * n, |p: int| spec_texel(fmt, siz, src, tlut, palette, tlut_fmt, p / 4)[p % 4])
}

pub proof fn lemma_texel_len(fmt: u8, siz: u8, src: Seq<u8>, tlut: Seq<u8>, palette: u8, tlut_fmt: u8, i: int)
    ensures
        spec_texel(fmt, siz, src, tlut, palette, tlut_fmt, i).len() == 4,
{
}

/// Appending texel `n` extends the image of the first `n` texels.
pub proof fn lemma_pixels_push(
    fmt: u8,
    siz: u8,
    src: Seq<u8>,
    tlut: Seq<u8>,
    palette: u8,
    tlut_fmt: u8,
    n: nat,
)
    ensures
        spec_pixels(fmt, siz, src, tlut, palette, tlut_fmt, n + 1) == spec_pixels(
            fmt,
            siz,
            src,
            tlut,
            palette,
            tlut_fmt,
            n,
        ) + spec_texel(fmt, siz, src, tlut, palette, tlut_fmt, n as int),
{
    let a = spec_pixels(fmt, siz, src, tlut, palette, tlut_fmt, n + 1);
    let t = spec_texel(fmt, siz, src, tlut, palette, tlut_fmt, n as int);
    let b = spec_pixels(fmt, siz, src, tlut, palette, tlut_fmt, n) + t;
    lemma_texel_len(fmt, siz, src, tlut, palette, tlut_fmt, n as int);
    assert forall|p: int| 0 <= p < a.len() implies #[trigger] a[p] == b[p] by {
        if p >= 4 * n {
            assert(p / 4 == n && p % 4 == p - 4 * n) by (nonlinear_arith)
                requires
                    4 * n <= p < 4 * n + 4,
            ;
        }
    }
    assert(a =~= b);
}

/// Byte `i` of `src`, or zero past its end.
fn byte_at(src: &[u8], i: usize) -> (r: u8)
    ensures
        r == byte_or_zero(src@, i as int),
{
    if i < src.len() {
        src[i]
    } else {
        0
    }
}

/// The 4-bit value of texel `i` of a nibble-packed stream.
fn nibble_at(src: &[u8], i: usize) -> (r: u8)
    ensures
        r == nibble(src@, i as int),
{
    let b = byte_at(src, i / 2);
    if i % 2 == 0 {
        b >> 4u8
    } else {
        b & 0x0F
    }
}

/// The big-endian palette entry at byte `off`, or zero when it is not wholly inside `tlut`.
fn tlut_entry_at(tlut: &[u8], off: usize) -> (r: u16)
    ensures
        r == tlut_entry(tlut@, off as int),
{
    if off < tlut.len() && off + 1 < tlut.len() {
        ((tlut[off] as u16) << 8u16) | (tlut[off + 1] as u16)
    } else {
        0
    }
}

/// RGBA16 palette entry (5/5/5/1 big-endian) to RGBA8.
fn decode_rgba16_entry(v: u16) -> (r: [u8; 4])
    ensures
        r@ == rgba16_rgba8(v),
{
    let r5 = ((v >> 11u16) & 0x1F) as u8;
    let g5 = ((v >> 6u16) & 0x1F) as u8;
    let b5 = ((v >> 1u16) & 0x1F) as u8;
    let a: u8 = if v & 1 != 0 {
        255
    } else {
        0
    };
    let out = [(r5 << 3u8) | (r5 >> 2u8), (g5 << 3u8) | (g5 >> 2u8), (b5 << 3u8) | (b5 >> 2u8), a];
    assert(out@ =~= rgba16_rgba8(v));
    out
}

/// IA16 palette entry to RGBA8: intensity in RGB, explicit alpha.
fn decode_ia16_entry(v: u16) -> (r: [u8; 4])
    ensures
        r@ == ia16_rgba8(v),
{
    let i = (v >> 8u16) as u8;
    let a = (v & 0xFF) as u8;
    let out = [i, i, i, a];
    assert(out@ =~= ia16_rgba8(v));
    out
}

/// A palette entry to RGBA8 by TLUT format.
fn tlut_pixel(entry: u16, tlut_fmt: u8) -> (r: [u8; 4])
    ensures
        r@ == tlut_rgba8(entry, tlut_fmt),
{
    if tlut_fmt == 2 {
        decode_rgba16_entry(entry)
    } else if tlut_fmt == 3 {
        decode_ia16_entry(entry)
    } else {
        let out = [0u8, 0u8, 0u8, 0u8];
        assert(out@ =~= tlut_rgba8(entry, tlut_fmt));
        out
    }
}


/// Appends one RGBA8 texel.
fn push_texel(out: &mut Vec<u8>, px: [u8; 4])
    ensures
        final(out)@ == old(out)@ + px@,
{
    out.push(px[0]);
    out.push(px[1]);
    out.push(px[2]);
    out.push(px[3]);
    assert(out@ =~= old(out)@ + px@);
}

/// The dimensions `w × h` name a texel count whose RGBA8 image fits in memory.
pub open spec fn dims_fit(w: u32, h: u32) -> bool {
    (w as int) * (h as int) <= u32::MAX && (w as int) * (h as int) * 4 <= usize::MAX
}

/// Texel count of a `w × h` texture.
fn texel_count(w: u32, h: u32) -> (n: usize)
    requires
        dims_fit(w, h),
    ensures
        n as int == (w as int) * (h as int),
        (n as int) * 4 <= usize::MAX,
{
    (w * h) as usize
}

/// Texel `i` of format `(fmt, siz)`, as the decoders compute it.
fn texel(fmt: u8, siz: u8, src: &[u8], tlut: &[u8], palette: u8, tlut_fmt: u8, i: usize) -> (r: [u8; 4])
    requires
        (i as int) * 4 + 4 <= usize::MAX,
    ensures
        r@ == spec_texel(fmt, siz, src@, tlut@, palette, tlut_fmt, i as int),
{
    if fmt == 4 && siz == 1 {
        let v = byte_at(src, i);
        let out = [v, v, v, v];
        assert(out@ =~= spec_texel(fmt, siz, src@, tlut@, palette, tlut_fmt, i as int));
        out
    } else if fmt == 4 && siz == 0 {
        let v4 = nibble_at(src, i);
        let v8 = (v4 << 4u8) | v4;
        let out = [v8, v8, v8, v8];
        assert(out@ =~= spec_texel(fmt, siz, src@, tlut@, palette, tlut_fmt, i as int));
        out
    } else if fmt == 3 && siz == 2 {
        let base = i * 2;
        let intensity = byte_at(src, base);
        let alpha = byte_at(src, base + 1);
        let out = [intensity, intensity, intensity, alpha];
        assert(out@ =~= spec_texel(fmt, siz, src@, tlut@, palette, tlut_fmt, i as int));
        out
    } else if fmt == 3 && siz == 1 {
        let v = byte_at(src, i);
        let i4 = (v >> 4u8) & 0xF;
        let a4 = v & 0xF;
        let i8 = (i4 << 4u8) | i4;
        let a8 = (a4 << 4u8) | a4;
        let out = [i8, i8, i8, a8];
        assert(out@ =~= spec_texel(fmt, siz, src@, tlut@, palette, tlut_fmt, i as int));
        out
    } else if fmt == 3 && siz == 0 {
        let nib = nibble_at(src, i);
        let i_raw = nib & 0x0E;
        let i8 = (i_raw << 4u8) | (i_raw << 1u8) | (i_raw >> 2u8);
        let a: u8 = if nib & 1 != 0 {
            255
        } else {
            0
        };
        let out = [i8, i8, i8, a];
        assert(out@ =~= spec_texel(fmt, siz, src@, tlut@, palette, tlut_fmt, i as int));
        out
    } else if fmt == 0 && siz == 3 {
        let base = i * 4;
        let out = [
            byte_at(src, base),
            byte_at(src, base + 1),
            byte_at(src, base + 2),
            byte_at(src, base + 3),
        ];
        assert(out@ =~= spec_texel(fmt, siz, src@, tlut@, palette, tlut_fmt, i as int));
        out
    } else if fmt == 2 && siz == 1 {
        let index = byte_at(src, i) as usize;
        let off = index << 3usize;
        assert(index << 3usize == index * 8) by (bit_vector)
            requires
                index < 256,
        ;
        tlut_pixel(tlut_entry_at(tlut, off), tlut_fmt)
    } else if fmt == 2 && siz == 0 {
        let base = (palette as usize) << 7usize;
        let index = nibble_at(src, i) as usize;
        let p = palette as usize;
        assert(p << 7usize == p * 128) by (bit_vector)
            requires
                p < 256,
        ;
        assert(index << 3usize == index * 8) by (bit_vector)
            requires
                index < 256,
        ;
        let off = base + (index << 3usize);
        tlut_pixel(tlut_entry_at(tlut, off), tlut_fmt)
    } else {
        let base = i * 2;
        decode_rgba16_entry(((byte_at(src, base) as u16) << 8u16) | (byte_at(src, base + 1) as u16))
    }
}


/// Decodes the first `n` texels of format `(fmt, siz)`.
fn decode_texels(
    fmt: u8,
    siz: u8,
    src: &[u8],
    tlut: &[u8],
    palette: u8,
    tlut_fmt: u8,
    n: usize,
) -> (r: Vec<u8>)
    requires
        (n as int) * 4 <= usize::MAX,
    ensures
        r@ == spec_pixels(fmt, siz, src@, tlut@, palette, tlut_fmt, n as nat),
{
    let mut out: Vec<u8> = Vec::with_capacity(n * 4);
    let mut i: usize = 0;
    assert(out@ =~= spec_pixels(fmt, siz, src@, tlut@, palette, tlut_fmt, 0));
    while i < n
        invariant
            i <= n,
            (n as int) * 4 <= usize::MAX,
            out@ == spec_pixels(fmt, siz, src@, tlut@, palette, tlut_fmt, i as nat),
        decreases n - i,
    {
        let px = texel(fmt, siz, src, tlut, palette, tlut_fmt, i);
        push_texel(&mut out, px);
        proof {
            lemma_pixels_push(fmt, siz, src@, tlut@, palette, tlut_fmt, i as nat);
        }
        i = i + 1;
    }
    out
}

/// Format + size descriptor of an N64 texture tile: `fmt` is the GBI `G_IM_FMT_*` value
/// (0 = RGBA, 2 = CI, 3 = IA, 4 = I), `siz` the `G_IM_SIZ_*` value (0 = 4b, 1 = 8b, 2 = 16b,
/// 3 = 32b).
pub struct FormatInfo {
    pub fmt: u8,
    pub siz: u8,
}

/// TMEM bytes a `texels`-texel texture occupies at size code `siz`: half a byte per texel at
/// 4b (rounded up), one at 8b, four at 32b, two otherwise.
pub open spec fn spec_tmem_bytes(siz: u8, texels: int) -> int {
    if siz == 0 {
        (texels + 1) / 2
    } else if siz == 1 {
        texels
    } else if siz == 3 {
        texels * 4
    } else {
        texels * 2
    }
}

impl FormatInfo {
    /// Number of TMEM bytes a `w × h` texture occupies in this format.
    pub fn tmem_bytes(&self, w: u32, h: u32) -> (r: usize)
        requires
            dims_fit(w, h),
        ensures
            r as int == spec_tmem_bytes(self.siz, (w as int) * (h as int)),
    {
        let texels = texel_count(w, h);
        if self.siz == 0 {
            texels / 2 + texels % 2
        } else if self.siz == 1 {
            texels
        } else if self.siz == 3 {
            texels * 4
        } else {
            texels * 2
        }
    }

    /// Decodes TMEM bytes to RGBA8 (`w × h × 4` bytes), dispatching on `(fmt, siz)`:
    /// I8, I4, IA16, IA8, IA4, RGBA16, RGBA32, CI8 and CI4. Any other format decodes as RGBA16.
    /// `tlut`, `palette` and `tlut_fmt` carry the palette state of the CI formats.
    pub fn decode(&self, src: &[u8], w: u32, h: u32, tlut: &[u8], palette: u8, tlut_fmt: u8) -> (r: Vec<u8>)
        requires
            dims_fit(w, h),
            src@.len() * 2 <= usize::MAX,
        ensures
            r@ == spec_decode(self.fmt, self.siz, src@, w, h, tlut@, palette, tlut_fmt),
    {
        if (self.fmt == 4 && self.siz == 1) || (self.fmt == 4 && self.siz == 0) || (self.fmt == 3
            && self.siz == 2) || (self.fmt == 3 && self.siz == 1) || (self.fmt == 3 && self.siz
            == 0) || (self.fmt == 0 && self.siz == 3) || (self.fmt == 2 && self.siz == 1) || (
        self.fmt == 2 && self.siz == 0) {
            decode_texels(self.fmt, self.siz, src, tlut, palette, tlut_fmt, texel_count(w, h))
        } else {
            decode_rgba16(src)
        }
    }
}

/// Whether `(fmt, siz)` is one of the formats with a decoder of its own.
pub open spec fn decodable_format(fmt: u8, siz: u8) -> bool {
    (fmt == 4 && siz == 1) || (fmt == 4 && siz == 0) || (fmt == 3 && siz == 2) || (fmt == 3 && siz
        == 1) || (fmt == 3 && siz == 0) || (fmt == 0 && siz == 3) || (fmt == 2 && siz == 1) || (fmt
        == 2 && siz == 0)
}

/// RGBA8 decode of `src` in format `(fmt, siz)`: `w × h` texels for the formats with a decoder
/// of their own, and otherwise one RGBA16 texel per two source bytes.
pub open spec fn spec_decode(
    fmt: u8,
    siz: u8,
    src: Seq<u8>,
    w: u32,
    h: u32,
    tlut: Seq<u8>,
    palette: u8,
    tlut_fmt: u8,
) -> Seq<u8> {
    if decodable_format(fmt, siz) {
        spec_pixels(fmt, siz, src, tlut, palette, tlut_fmt, ((w as int) * (h as int)) as nat)
    } else {
        spec_pixels(0, 2, src, tlut, palette, tlut_fmt, src.len() / 2)
    }
}

/// Decodes RGBA16 (big-endian 5/5/5/1) bytes to RGBA8, one texel per two source bytes; each
/// 5-bit channel is bit-replicated to 8 bits and the 1-bit alpha becomes 0 or 255.
pub fn decode_rgba16(src: &[u8]) -> (r: Vec<u8>)
    requires
        src@.len() * 2 <= usize::MAX,
    ensures
        r@ == spec_pixels(0, 2, src@, seq![], 0, 0, src@.len() / 2),
        r@.len() == 4 * (src@.len() / 2),
{
    let empty: [u8; 0] = [];
    let r = decode_texels(0, 2, src, empty.as_slice(), 0, 0, src.len() / 2);
    proof {
        assert(empty@ =~= Seq::<u8>::empty());
        lemma_texels_ignore_tlut(0, 2, src@, empty@, seq![], src@.len() / 2);
    }
    r
}

/// The image of a format without palette does not depend on the palette state.
pub proof fn lemma_texels_ignore_tlut(fmt: u8, siz: u8, src: Seq<u8>, t1: Seq<u8>, t2: Seq<u8>, n: nat)
    requires
        fmt != 2,
    ensures
        spec_pixels(fmt, siz, src, t1, 0, 0, n) == spec_pixels(fmt, siz, src, t2, 0, 0, n),
{
    assert(spec_pixels(fmt, siz, src, t1, 0, 0, n) =~= spec_pixels(fmt, siz, src, t2, 0, 0, n));
}

/// Decodes I8: each byte's intensity goes to all four channels, alpha included.
pub fn decode_i8(src: &[u8], w: u32, h: u32) -> (r: Vec<u8>)
    requires
        dims_fit(w, h),
    ensures
        r@ == spec_pixels(4, 1, src@, seq![], 0, 0, ((w as int) * (h as int)) as nat),
{
    decode_plain(4, 1, src, w, h)
}

/// Decodes I4: each nibble (even texel = high nibble) is replicated to 8 bits and to all four
/// channels.
pub fn decode_i4(src: &[u8], w: u32, h: u32) -> (r: Vec<u8>)
    requires
        dims_fit(w, h),
    ensures
        r@ == spec_pixels(4, 0, src@, seq![], 0, 0, ((w as int) * (h as int)) as nat),
{
    decode_plain(4, 0, src, w, h)
}

/// Decodes IA16: the big-endian high byte is the intensity of RGB, the low byte the alpha.
pub fn decode_ia16(src: &[u8], w: u32, h: u32) -> (r: Vec<u8>)
    requires
        dims_fit(w, h),
    ensures
        r@ == spec_pixels(3, 2, src@, seq![], 0, 0, ((w as int) * (h as int)) as nat),
{
    decode_plain(3, 2, src, w, h)
}

/// Decodes IA8: high nibble intensity, low nibble alpha, both replicated to 8 bits.
pub fn decode_ia8(src: &[u8], w: u32, h: u32) -> (r: Vec<u8>)
    requires
        dims_fit(w, h),
    ensures
        r@ == spec_pixels(3, 1, src@, seq![], 0, 0, ((w as int) * (h as int)) as nat),
{
    decode_plain(3, 1, src, w, h)
}

/// Decodes IA4: per nibble (even texel = high nibble), bits [3:1] are the intensity, expanded
/// as `(i << 4) | (i << 1) | (i >> 2)`, and bit 0 the alpha (0 or 255).
pub fn decode_ia4(src: &[u8], w: u32, h: u32) -> (r: Vec<u8>)
    requires
        dims_fit(w, h),
    ensures
        r@ == spec_pixels(3, 0, src@, seq![], 0, 0, ((w as int) * (h as int)) as nat),
{
    decode_plain(3, 0, src, w, h)
}

/// Decodes RGBA32: a direct copy of four 8-bit channels per texel.
pub fn decode_rgba32(src: &[u8], w: u32, h: u32) -> (r: Vec<u8>)
    requires
        dims_fit(w, h),
    ensures
        r@ == spec_pixels(0, 3, src@, seq![], 0, 0, ((w as int) * (h as int)) as nat),
{
    decode_plain(0, 3, src, w, h)
}

/// Decodes a `w × h` texture of a format without palette.
fn decode_plain(fmt: u8, siz: u8, src: &[u8], w: u32, h: u32) -> (r: Vec<u8>)
    requires
        dims_fit(w, h),
        fmt != 2,
    ensures
        r@ == spec_pixels(fmt, siz, src@, seq![], 0, 0, ((w as int) * (h as int)) as nat),
{
    let empty: [u8; 0] = [];
    let n = texel_count(w, h);
    let r = decode_texels(fmt, siz, src, empty.as_slice(), 0, 0, n);
    proof {
        lemma_texels_ignore_tlut(fmt, siz, src@, empty@, seq![], n as nat);
    }
    r
}

/// Decodes CI8: each byte indexes the stride-8 palette `tlut` (entry `k` at byte `8k`); an
/// entry not wholly inside `tlut` reads as zero. Entries decode by `tlut_fmt`: 2 = RGBA16,
/// 3 = IA16, anything else transparent black.
pub fn decode_ci8(src: &[u8], w: u32, h: u32, tlut: &[u8], tlut_fmt: u8) -> (r: Vec<u8>)
    requires
        dims_fit(w, h),
    ensures
        r@ == spec_pixels(2, 1, src@, tlut@, 0, tlut_fmt, ((w as int) * (h as int)) as nat),
{
    decode_texels(2, 1, src, tlut, 0, tlut_fmt, texel_count(w, h))
}

/// Decodes CI4: each nibble (even texel = high nibble) indexes palette bank `palette` of the
/// stride-8 palette `tlut`, at byte `palette * 128 + index * 8`.
pub fn decode_ci4(src: &[u8], w: u32, h: u32, tlut: &[u8], palette: u8, tlut_fmt: u8) -> (r: Vec<u8>)
    requires
        dims_fit(w, h),
    ensures
        r@ == spec_pixels(2, 0, src@, tlut@, palette, tlut_fmt, ((w as int) * (h as int)) as nat),
{
    decode_texels(2, 0, src, tlut, palette, tlut_fmt, texel_count(w, h))
}


proof fn lemma_texel_bits_bv(b: u8, hi: u8, lo: u8, c: u8, n: u8, h: u8, l: u8, v: u16, r: u16, g: u16, bl: u16, a: u16)
    by (bit_vector)
    requires
        hi < 16,
        lo < 16,
        c < 32,
        n < 16,
        r < 32,
        g < 32,
        bl < 32,
        a < 2,
    ensures
        b == hi * 16 + lo ==> b >> 4u8 == hi && b & 0x0Fu8 == lo && (b >> 4u8) & 0xFu8 == hi && b & 0xFu8 == lo,
        (hi << 4u8) | hi == hi * 17,
        (c << 3u8) | (c >> 2u8) == c * 8 + c / 4,
        ((n & 0x0Eu8) << 4u8) | ((n & 0x0Eu8) << 1u8) | ((n & 0x0Eu8) >> 2u8) == (n / 2) * 36 + (n / 2) / 2,
        (n & 1u8 != 0) == (n % 2 == 1),
        ((h as u16) << 8u16) | (l as u16) == (h as u16) * 256 + (l as u16),
        v == (h as u16) * 256 + (l as u16) ==> (v >> 8u16) as u8 == h && (v & 0xFFu16) as u8 == l,
        v == r * 2048 + g * 64 + bl * 2 + a ==> ((v >> 11u16) & 0x1Fu16) as u8 == r && ((v >> 6u16) & 0x1Fu16) as u8 == g
            && ((v >> 1u16) & 0x1Fu16) as u8 == bl && (v & 1u16 != 0) == (a == 1),
{
}

/// 4- and 5-bit channels widen by replication: a 4-bit value `x` becomes `17x`, a 5-bit
/// value `x` becomes `8x + x / 4`.
pub proof fn lemma_channel_widening(x4: u8, x5: u8)
    requires
        x4 < 16,
        x5 < 32,
    ensures
        expand4(x4) == x4 * 17,
        expand5(x5) == x5 * 8 + x5 / 4,
{
    lemma_texel_bits_bv(0, x4, 0, x5, 0, 0, 0, 0, 0, 0, 0, 0);
}

/// An RGBA 5/5/5/1 word `r << 11 | g << 6 | b << 1 | a` widens to `r`, `g`, `b` (each
/// widened from 5 bits) and an alpha of 255 when `a` is set, 0 when not; an IA16 word gives
/// its high byte as intensity and its low byte as alpha; a big-endian word is `256 hi + lo`.
pub proof fn lemma_sixteen_bit_texels(r: u16, g: u16, b: u16, a: u16, hi: u8, lo: u8)
    requires
        r < 32,
        g < 32,
        b < 32,
        a < 2,
    ensures
        rgba16_rgba8((r * 2048 + g * 64 + b * 2 + a) as u16) == seq![
            expand5(r as u8),
            expand5(g as u8),
            expand5(b as u8),
            if a == 1 { 255u8 } else { 0u8 },
        ],
        ia16_rgba8(be16(hi, lo)) == seq![hi, hi, hi, lo],
        be16(hi, lo) as int == hi * 256 + lo,
{
    let v = (r * 2048 + g * 64 + b * 2 + a) as u16;
    lemma_texel_bits_bv(0, 0, 0, 0, 0, 0, 0, v, r, g, b, a);
    lemma_texel_bits_bv(0, 0, 0, 0, 0, hi, lo, be16(hi, lo), 0, 0, 0, 0);
}

/// What each format reads for texel `i` of `src` (whose bytes are all present): I8 one
/// byte of intensity; I4 the high nibble of byte `i / 2` for even `i` and the low one for
/// odd, each widened ×17; IA16 intensity then alpha bytes; IA8 an intensity nibble above an
/// alpha nibble; IA4 a 3-bit intensity above a 1-bit alpha; RGBA32 four bytes in order;
/// RGBA16 a big-endian word; CI8 and CI4 the palette entry the byte (or nibble, within
/// 16-entry bank `palette`) indexes, 8 bytes apart.
pub proof fn lemma_texel_formats(src: Seq<u8>, tlut: Seq<u8>, palette: u8, tlut_fmt: u8, i: int, hi: u8, lo: u8)
    requires
        0 <= i,
        4 * i + 3 < src.len(),
        hi < 16,
        lo < 16,
    ensures
        spec_texel(4, 1, src, tlut, palette, tlut_fmt, i) == seq![src[i], src[i], src[i], src[i]],
        src[i] == hi * 16 + lo ==> spec_texel(4, 0, src, tlut, palette, tlut_fmt, 2 * i) == seq![
            (hi * 17) as u8,
            (hi * 17) as u8,
            (hi * 17) as u8,
            (hi * 17) as u8,
        ] && spec_texel(4, 0, src, tlut, palette, tlut_fmt, 2 * i + 1) == seq![
            (lo * 17) as u8,
            (lo * 17) as u8,
            (lo * 17) as u8,
            (lo * 17) as u8,
        ],
        spec_texel(3, 2, src, tlut, palette, tlut_fmt, i) == seq![src[2 * i], src[2 * i], src[2 * i], src[2 * i + 1]],
        src[i] == hi * 16 + lo ==> spec_texel(3, 1, src, tlut, palette, tlut_fmt, i) == seq![
            (hi * 17) as u8,
            (hi * 17) as u8,
            (hi * 17) as u8,
            (lo * 17) as u8,
        ],
        src[i] == hi * 16 + lo ==> spec_texel(3, 0, src, tlut, palette, tlut_fmt, 2 * i) == seq![
            ((hi / 2) * 36 + (hi / 2) / 2) as u8,
            ((hi / 2) * 36 + (hi / 2) / 2) as u8,
            ((hi / 2) * 36 + (hi / 2) / 2) as u8,
            if hi % 2 == 1 { 255u8 } else { 0u8 },
        ],
        spec_texel(0, 3, src, tlut, palette, tlut_fmt, i) == seq![src[4 * i], src[4 * i + 1], src[4 * i + 2], src[4 * i + 3]],
        spec_texel(0, 2, src, tlut, palette, tlut_fmt, i) == rgba16_rgba8((src[2 * i] * 256 + src[2 * i + 1]) as u16),
        spec_texel(2, 1, src, tlut, palette, tlut_fmt, i) == tlut_rgba8(tlut_entry(tlut, src[i] * 8), tlut_fmt),
        src[i] == hi * 16 + lo ==> spec_texel(2, 0, src, tlut, palette, tlut_fmt, 2 * i) == tlut_rgba8(
            tlut_entry(tlut, palette * 128 + hi * 8),
            tlut_fmt,
        ) && spec_texel(2, 0, src, tlut, palette, tlut_fmt, 2 * i + 1) == tlut_rgba8(
            tlut_entry(tlut, palette * 128 + lo * 8),
            tlut_fmt,
        ),
{
    assert((2 * i) / 2 == i && (2 * i) % 2 == 0);
    assert((2 * i + 1) / 2 == i && (2 * i + 1) % 2 == 1);
    lemma_texel_bits_bv(src[i], hi, lo, 0, hi, 0, 0, 0, 0, 0, 0, 0);
    lemma_texel_bits_bv(src[i], lo, lo, 0, 0, 0, 0, 0, 0, 0, 0, 0);
    lemma_texel_bits_bv(0, 0, 0, 0, 0, src[2 * i], src[2 * i + 1], 0, 0, 0, 0, 0);
}
} // verus!
