//! Big-endian readers over an assembled RDRAM image, with the segment table.
use vstd::prelude::*;

verus! {

/// Binary layout of the matrices and vertices a display list points at: authentic
/// fixed-point, or the `GBI_FLOATS` layout used by PC ports.
#[derive(Clone, Copy, PartialEq, Eq, Debug, Structural)]
pub enum GbiDataFormat {
    /// s15.16 split fixed-point matrices; `s16 ob[3]` vertices at a 16-byte stride.
    Fixed,
    /// `f32[4][4]` matrices; `f32 ob[3]` vertices at a 24-byte stride.
    Float,
}

/// One command: the two big-endian words and the full address operand.
#[derive(Clone, Copy, PartialEq, Eq, Debug, Structural)]
pub struct Command {
    pub w0: u32,
    pub w1: u32,
    pub w1_addr: u64,
}

/// The big-endian 16-bit value at `off` of `s`.
pub open spec fn be_u16(s: Seq<u8>, off: int) -> u16 {
    ((s[off] as u16) << 8u16) | (s[off + 1] as u16)
}

/// The big-endian 32-bit value at `off` of `s`.
pub open spec fn be_u32(s: Seq<u8>, off: int) -> u32 {
    ((s[off] as u32) << 24u32) | ((s[off + 1] as u32) << 16u32) | ((s[off + 2] as u32) << 8u32) | (
    s[off + 3] as u32)
}

/// A borrowed RDRAM image with its 16-entry segment table. The zero table maps every
/// segmented address to its low 24 bits.
pub struct RdramImage<'a> {
    pub bytes: &'a [u8],
    pub segments: [u32; 16],
}

impl<'a> RdramImage<'a> {
    /// The resolution of segmented address `a`: segment `(a >> 24) & 15`'s base plus the low
    /// 24 bits, wrapping at 2^32.
    pub open spec fn spec_from_segmented(&self, a: u32) -> u32 {
        vstd::wrapping::u32_specs::wrapping_add(self.segments@[((a >> 24u32) & 0x0F) as int], a & 0x00FF_FFFF)
    }

    /// An image over `bytes` with an all-zero segment table.
    pub fn new(bytes: &'a [u8]) -> (r: Self)
        ensures
            r.bytes@ == bytes@,
            r.segments@ == Seq::new(16, |i: int| 0u32),
    {
        let r = RdramImage { bytes, segments: [0u32; 16] };
        assert(r.segments@ =~= Seq::new(16, |i: int| 0u32));
        r
    }

    /// G_MW_SEGMENT store: the raw value into entry `seg & 15`.
    pub fn set_segment(&mut self, seg: u32, value: u32)
        ensures
            final(self).bytes == old(self).bytes,
            final(self).segments@ == old(self).segments@.update((seg & 0xF) as int, value),
    {
        let i = (seg & 0xF) as usize;
        assert(seg & 0xF < 16) by (bit_vector);
        self.segments[i] = value;
    }

    /// Unmasked resolution, for SETTIMG, SETCIMG and SETZIMG.
    pub fn from_segmented(&self, a: u32) -> (r: u32)
        ensures
            r == self.spec_from_segmented(a),
    {
        assert((a >> 24u32) & 0x0F < 16) by (bit_vector);
        self.segments[((a >> 24u32) & 0x0F) as usize].wrapping_add(a & 0x00FF_FFFF)
    }

    /// Masked resolution (`& 0x00FFFFF8`), for display-list targets, vertices, matrices and
    /// viewports.
    pub fn from_segmented_masked(&self, a: u32) -> (r: u32)
        ensures
            r == self.spec_from_segmented(a) & 0x00FF_FFF8,
    {
        self.from_segmented(a) & 0x00FF_FFF8
    }

    /// The big-endian signed 16-bit value at `off`.
    pub fn read_i16(&self, off: usize) -> (r: i16)
        requires
            off + 1 < self.bytes@.len(),
        ensures
            r == be_u16(self.bytes@, off as int) as i16,
    {
        (((self.bytes[off] as u16) << 8u16) | (self.bytes[off + 1] as u16)) as i16
    }

    /// The big-endian unsigned 16-bit value at `off`.
    pub fn read_u16(&self, off: usize) -> (r: u16)
        requires
            off + 1 < self.bytes@.len(),
        ensures
            r == be_u16(self.bytes@, off as int),
    {
        ((self.bytes[off] as u16) << 8u16) | (self.bytes[off + 1] as u16)
    }

    /// The byte at `off`.
    pub fn read_u8(&self, off: usize) -> (r: u8)
        requires
            off < self.bytes@.len(),
        ensures
            r == self.bytes@[off as int],
    {
        self.bytes[off]
    }

    /// The byte at `off`, sign-extended.
    pub fn read_i8(&self, off: usize) -> (r: i8)
        requires
            off < self.bytes@.len(),
        ensures
            r == self.bytes@[off as int] as i8,
    {
        self.read_u8(off) as i8
    }

    /// The `len` bytes from `addr`, cut short at the end of the image.
    pub fn read_slice(&self, addr: u32, len: usize) -> (r: &[u8])
        requires
            addr <= self.bytes@.len(),
            addr + len <= usize::MAX,
        ensures
            r@ == self.bytes@.subrange(
                addr as int,
                if addr + len < self.bytes@.len() {
                    addr + len
                } else {
                    self.bytes@.len() as int
                },
            ),
    {
        let start = addr as usize;
        let end = if start + len < self.bytes.len() {
            start + len
        } else {
            self.bytes.len()
        };
        &self.bytes[start..end]
    }

    /// The s15.16 fixed-point matrix at `off`: entry `(i, j)` (`k = 4i + j`) has its signed
    /// integer half at `off + 2k` and its fraction at `off + 32 + 2k`, both big-endian.
    pub fn read_matrix_fixed(&self, off: usize) -> (r: [[i32; 4]; 4])
        requires
            off + 64 <= self.bytes@.len(),
        ensures
            forall|i: int, j: int|
                0 <= i < 4 && 0 <= j < 4 ==> #[trigger] r@[i]@[j] == fixed_entry(
                    self.bytes@,
                    off as int,
                    4 * i + j,
                ),
    {
        let mut m = [[0i32; 4]; 4];
        let len = self.bytes.len();
        let mut i: usize = 0;
        while i < 4
            invariant
                i <= 4,
                off + 64 <= self.bytes@.len(),
                len == self.bytes@.len(),
                forall|a: int, b: int|
                    0 <= a < i && 0 <= b < 4 ==> #[trigger] m@[a]@[b] == fixed_entry(
                        self.bytes@,
                        off as int,
                        4 * a + b,
                    ),
            decreases 4 - i,
        {
            let mut row = [0i32; 4];
            let mut j: usize = 0;
            while j < 4
                invariant
                    i < 4,
                    j <= 4,
                    off + 64 <= self.bytes@.len(),
                    len == self.bytes@.len(),
                    forall|b: int|
                        0 <= b < j ==> #[trigger] row@[b] == fixed_entry(
                            self.bytes@,
                            off as int,
                            4 * i + b,
                        ),
                decreases 4 - j,
            {
                let k = i * 4 + j;
                assert(k < 16);
                let int_v = self.read_i16(off + k * 2) as i32;
                let frac_v = self.read_u16(off + 32 + k * 2) as i32;
                row[j] = (int_v << 16u32) | frac_v;
                j = j + 1;
            }
            m[i] = row;
            i = i + 1;
        }
        m
    }

    /// Unmasked resolution of a 64-bit address operand (its low 32 bits are segmented).
    pub fn resolve(&self, addr: u64) -> (r: u64)
        ensures
            r == self.spec_from_segmented(addr as u32) as u64,
    {
        self.from_segmented(addr as u32) as u64
    }

    /// The masked resolution of a 64-bit address operand: the segmented low 32 bits, aligned
    /// down to 8 bytes within 16 MiB.
    pub open spec fn spec_resolve_masked(&self, addr: u64) -> u64 {
        (self.spec_from_segmented(addr as u32) & 0x00FF_FFF8) as u64
    }

    /// Masked resolution of a 64-bit address operand.
    pub fn resolve_masked(&self, addr: u64) -> (r: u64)
        ensures
            r == (self.spec_from_segmented(addr as u32) & 0x00FF_FFF8) as u64,
    {
        self.from_segmented_masked(addr as u32) as u64
    }

    /// Whether the `stride` bytes at `pc` lie inside the image.
    pub fn in_bounds(&self, pc: u64, stride: u64) -> (r: bool)
        ensures
            r == (pc + stride <= self.bytes@.len()),
    {
        let len = self.bytes.len();
        assert(len as u64 == self.bytes@.len());
        match pc.checked_add(stride) {
            Some(end) => end <= len as u64,
            None => false,
        }
    }

    /// Commands are two 32-bit words.
    pub fn command_stride(&self) -> (r: u64)
        ensures
            r == 8,
    {
        8
    }

    /// The command at `pc`: big-endian `w0`, then `w1`, which is also the address operand.
    pub fn read_command(&self, pc: u64) -> (r: Command)
        requires
            pc + 8 <= self.bytes@.len(),
        ensures
            r.w0 == be_u32(self.bytes@, pc as int),
            r.w1 == be_u32(self.bytes@, pc + 4),
            r.w1_addr == r.w1 as u64,
    {
        let p = pc as usize;
        let w0 = ((self.bytes[p] as u32) << 24u32) | ((self.bytes[p + 1] as u32) << 16u32) | ((
        self.bytes[p + 2] as u32) << 8u32) | (self.bytes[p + 3] as u32);
        let w1 = ((self.bytes[p + 4] as u32) << 24u32) | ((self.bytes[p + 5] as u32) << 16u32) | ((
        self.bytes[p + 6] as u32) << 8u32) | (self.bytes[p + 7] as u32);
        Command { w0, w1, w1_addr: w1 as u64 }
    }

    /// The `len` bytes from `addr`, cut short at the end of the image.
    pub fn read_bytes(&self, addr: u64, len: usize) -> (r: &[u8])
        requires
            addr <= self.bytes@.len(),
            addr + len <= usize::MAX,
        ensures
            r@ == self.bytes@.subrange(
                addr as int,
                if addr + len < self.bytes@.len() {
                    addr + len
                } else {
                    self.bytes@.len() as int
                },
            ),
    {
        let s = addr as usize;
        let e = if s + len < self.bytes.len() {
            s + len
        } else {
            self.bytes.len()
        };
        &self.bytes[s..e]
    }
}

/// The s15.16 value of matrix entry `k` of the fixed-point layout at `off`.
pub open spec fn fixed_entry(bytes: Seq<u8>, off: int, k: int) -> i32 {
    ((be_u16(bytes, off + 2 * k) as i16 as i32) << 16u32) | (be_u16(bytes, off + 32 + 2 * k) as i32)
}


/// Big-endian reads: the byte at `off` is the most significant.
pub proof fn lemma_big_endian_reads(s: Seq<u8>, off: int)
    requires
        0 <= off,
        off + 3 < s.len(),
    ensures
        be_u32(s, off) as int == s[off] * 0x100_0000 + s[off + 1] * 0x1_0000 + s[off + 2] * 0x100 + s[off + 3],
        be_u16(s, off) as int == s[off] * 0x100 + s[off + 1],
{
    crate::rsp::lemma_bit_facts_bv(0, 0, 0, 0, 1, 0, 0, s[off], s[off + 1], s[off + 2], s[off + 3]);
}

/// A segmented address names segment `a / 2^24 % 16` and an offset `a % 2^24` into it: it
/// resolves to that segment's base plus the offset, modulo 2^32.
pub proof fn lemma_segmented_address(img: RdramImage, a: u32)
    ensures
        img.spec_from_segmented(a) as int == (img.segments@[((a as int / 0x100_0000) % 16)] + a as int % 0x100_0000)
            % 0x1_0000_0000,
{
    crate::rsp::lemma_bit_facts_bv(a, 0, 0, 0, 1, 0, 0, 0, 0, 0, 0);
}
} // verus!
