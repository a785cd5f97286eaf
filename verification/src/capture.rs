//! Captured display-list tasks: the memory layout a task was recorded from, the byte
//! spans it read, and the recording and replay of those reads.
pub mod format;

use vstd::prelude::*;
use crate::gbi::GbiUcode;
use crate::mem::GbiDataFormat;

verus! {

/// Why a capture was refused.
#[derive(Clone, Debug, PartialEq, Eq)]
pub enum CaptureError {
    Invalid(String),
    UnsupportedBackend,
    MissingSpan { address: u64, length: u64 },
    ConflictingRead { address: u64 },
    ClearPolicyMismatch,
    Gpu(String),
}

/// Whether `e` is `Invalid` with message `msg`.
pub open spec fn is_invalid(e: CaptureError, msg: &str) -> bool {
    e matches CaptureError::Invalid(m) && m@ == msg@
}

/// `Invalid(msg)`.
pub fn invalid(msg: &str) -> (r: CaptureError)
    ensures
        is_invalid(r, msg),
{
    CaptureError::Invalid(msg.to_owned())
}

/// Why a memory read failed.
#[derive(Clone, Copy, Debug, PartialEq, Eq, Structural)]
pub enum MemoryErrorKind {
    Unavailable,
    AddressOverflow,
    UnsupportedFormat,
}

/// A failed memory read of `length` bytes at `address`.
#[derive(Clone, Copy, Debug, PartialEq, Eq, Structural)]
pub struct MemoryError {
    pub address: u64,
    pub length: u64,
    pub kind: MemoryErrorKind,
}

pub fn memory_error(address: u64, length: u64, kind: MemoryErrorKind) -> (r: MemoryError)
    ensures
        r == (MemoryError { address, length, kind }),
{
    MemoryError { address, length, kind }
}

/// Where command addresses point: into an RDRAM image, or into host memory.
#[derive(Clone, Copy, Debug, PartialEq, Eq, Structural)]
pub enum AddressSpace {
    Image,
    Host,
}

#[derive(Clone, Copy, Debug, PartialEq, Eq, Structural)]
pub enum ByteOrder {
    Big,
    Little,
}

/// How a fixed-point matrix's sixteen integer and sixteen fraction halfwords are stored.
#[derive(Clone, Copy, Debug, PartialEq, Eq, Structural)]
pub enum FixedMatrixPacking {
    SplitHalfwords,
    PackedWords,
}

/// The binary layout of the memory a task was recorded from.
#[derive(Clone, Copy, Debug, PartialEq, Eq, Structural)]
pub struct MemoryLayout {
    pub address_space: AddressSpace,
    pub byte_order: ByteOrder,
    pub command_word_bytes: u8,
    pub command_stride: u8,
    pub fixed_matrix_packing: FixedMatrixPacking,
}

/// The RDRAM image layout: big-endian, 32-bit command words, split matrix halfwords.
pub open spec fn image_layout() -> MemoryLayout {
    MemoryLayout {
        address_space: AddressSpace::Image,
        byte_order: ByteOrder::Big,
        command_word_bytes: 4,
        command_stride: 8,
        fixed_matrix_packing: FixedMatrixPacking::SplitHalfwords,
    }
}

/// The 64-bit little-endian host layout: 64-bit command words, packed matrix words.
pub open spec fn host64_le_layout() -> MemoryLayout {
    MemoryLayout {
        address_space: AddressSpace::Host,
        byte_order: ByteOrder::Little,
        command_word_bytes: 8,
        command_stride: 16,
        fixed_matrix_packing: FixedMatrixPacking::PackedWords,
    }
}

/// A supported layout: the image layout, or the 64-bit host layout in either byte order.
pub open spec fn layout_supported(m: MemoryLayout) -> bool {
    m == image_layout() || (m.address_space == AddressSpace::Host && (MemoryLayout {
        byte_order: ByteOrder::Little,
        ..m
    }) == host64_le_layout())
}

/// The big-endian value of `s`, keeping the low 64 bits.
pub open spec fn be_value(s: Seq<u8>) -> u64
    decreases s.len(),
{
    if s.len() == 0 {
        0
    } else {
        (be_value(s.drop_last()) << 8u64) | (s.last() as u64)
    }
}

/// The little-endian value of `s`, keeping the low 64 bits.
pub open spec fn le_value(s: Seq<u8>) -> u64
    decreases s.len(),
{
    if s.len() == 0 {
        0
    } else {
        (le_value(s.drop_first()) << 8u64) | (s.first() as u64)
    }
}

/// The value of the word `s` in byte order `order`.
pub open spec fn word_value(order: ByteOrder, s: Seq<u8>) -> u64 {
    match order {
        ByteOrder::Big => be_value(s),
        ByteOrder::Little => le_value(s),
    }
}

/// `u16::to_ne_bytes` applied to 1: the two bytes of 1 in the machine's byte order, which
/// the contract claims are `[1, 0]` (little-endian) or `[0, 1]` (big-endian), without
/// stating which, as that depends on the machine.
#[verifier::external_body]
fn native_one() -> (r: [u8; 2])
    ensures
        r == [1u8, 0u8] || r == [0u8, 1u8],
{
    1u16.to_ne_bytes()
}

impl MemoryLayout {
    pub fn image() -> (r: Self)
        ensures
            r == image_layout(),
    {
        MemoryLayout {
            address_space: AddressSpace::Image,
            byte_order: ByteOrder::Big,
            command_word_bytes: 4,
            command_stride: 8,
            fixed_matrix_packing: FixedMatrixPacking::SplitHalfwords,
        }
    }

    pub fn host64_le() -> (r: Self)
        ensures
            r == host64_le_layout(),
    {
        MemoryLayout {
            address_space: AddressSpace::Host,
            byte_order: ByteOrder::Little,
            command_word_bytes: 8,
            command_stride: 16,
            fixed_matrix_packing: FixedMatrixPacking::PackedWords,
        }
    }

    /// The 64-bit host layout in the machine's own byte order.
    pub fn host_native() -> (r: Self)
        ensures
            r.byte_order == ByteOrder::Big || r.byte_order == ByteOrder::Little,
            r == (MemoryLayout { byte_order: r.byte_order, ..host64_le_layout() }),
    {
        let one = native_one();
        let order = if one[0] == 1 {
            ByteOrder::Little
        } else {
            ByteOrder::Big
        };
        MemoryLayout { byte_order: order, ..MemoryLayout::host64_le() }
    }

    /// Accepts the supported layouts (see `layout_supported`).
    pub fn validate(self) -> (r: Result<(), CaptureError>)
        ensures
            r is Ok <==> layout_supported(self),
            r matches Err(e) ==> is_invalid(e, "unsupported memory layout"),
    {
        let ok = match self.address_space {
            AddressSpace::Image => self == MemoryLayout::image(),
            AddressSpace::Host => MemoryLayout { byte_order: ByteOrder::Little, ..self }
                == MemoryLayout::host64_le(),
        };
        if ok {
            Ok(())
        } else {
            Err(invalid("unsupported memory layout"))
        }
    }

    /// The value of the word `bytes` in this layout's byte order.
    pub fn word(self, bytes: &[u8]) -> (r: u64)
        ensures
            r == word_value(self.byte_order, bytes@),
    {
        let n = bytes.len();
        let mut v: u64 = 0;
        match self.byte_order {
            ByteOrder::Big => {
                let mut i: usize = 0;
                while i < n
                    invariant
                        i <= n,
                        n == bytes@.len(),
                        v == be_value(bytes@.subrange(0, i as int)),
                    decreases n - i,
                {
                    assert(bytes@.subrange(0, i + 1).drop_last() =~= bytes@.subrange(0, i as int));
                    v = (v << 8u64) | (bytes[i] as u64);
                    i = i + 1;
                }
                assert(bytes@.subrange(0, n as int) =~= bytes@);
            },
            ByteOrder::Little => {
                let mut i: usize = n;
                while i > 0
                    invariant
                        i <= n,
                        n == bytes@.len(),
                        v == le_value(bytes@.subrange(i as int, n as int)),
                    decreases i,
                {
                    assert(bytes@.subrange(i - 1, n as int).drop_first() =~= bytes@.subrange(
                        i as int,
                        n as int,
                    ));
                    v = (v << 8u64) | (bytes[i - 1] as u64);
                    i = i - 1;
                }
                assert(bytes@.subrange(0, n as int) =~= bytes@);
            },
        }
        v
    }
}

/// The layout and segment table a task's addresses resolve through.
#[derive(Clone, Copy, Debug, PartialEq, Eq)]
pub struct SourceLayout {
    pub memory: MemoryLayout,
    pub segments: [u64; 16],
}

/// Bytes read from memory, starting at `address`.
#[derive(Clone, Debug, PartialEq, Eq)]
pub struct MemorySpan {
    pub address: u64,
    pub bytes: Vec<u8>,
}

/// One display-list task: where it starts, how it decodes, and the memory it read.
#[derive(Clone, Debug, PartialEq, Eq)]
pub struct Task {
    pub entry: u64,
    pub microcode: GbiUcode,
    pub data_format: GbiDataFormat,
    pub order: u32,
    pub source: SourceLayout,
    pub spans: Vec<MemorySpan>,
}

/// One past the last address of `s`.
pub open spec fn span_end(s: MemorySpan) -> int {
    s.address + s.bytes@.len()
}

/// Whether `s` holds the byte at `x`.
pub open spec fn span_holds(s: MemorySpan, x: int) -> bool {
    s.address <= x < span_end(s)
}

/// The first fault of the span list from index `i` on, given that the spans before it end
/// at `end`: 0 none, 1 an empty, overlapping or unordered span, 2 an address overflow.
pub open spec fn spans_fault(spans: Seq<MemorySpan>, i: int, end: int) -> int
    decreases spans.len() - i,
{
    if i < 0 || i >= spans.len() {
        0
    } else if spans[i].bytes@.len() == 0 || spans[i].address < end {
        1
    } else if span_end(spans[i]) > u64::MAX {
        2
    } else {
        spans_fault(spans, i + 1, span_end(spans[i]))
    }
}

/// Nonempty spans in increasing address order, none overlapping another or running past
/// the end of the address space.
pub open spec fn spans_ordered(spans: Seq<MemorySpan>) -> bool {
    &&& forall|j: int| 0 <= j < spans.len() ==> #[trigger] spans[j].bytes@.len() > 0 && span_end(spans[j]) <= u64::MAX
    &&& forall|a: int, b: int| 0 <= a < b < spans.len() ==> span_end(#[trigger] spans[a]) <= (#[trigger] spans[b]).address
}

/// A span list without fault from `i` on is ordered from `i` on.
proof fn lemma_spans_fault_ordered(spans: Seq<MemorySpan>, i: int, end: int)
    requires
        0 <= i <= spans.len(),
        spans_fault(spans, i, end) == 0,
    ensures
        forall|j: int| i <= j < spans.len() ==> #[trigger] spans[j].bytes@.len() > 0 && span_end(spans[j]) <= u64::MAX && spans[j].address >= end,
        forall|a: int, b: int| i <= a < b < spans.len() ==> span_end(#[trigger] spans[a]) <= (#[trigger] spans[b]).address,
    decreases spans.len() - i,
{
    if i < spans.len() {
        lemma_spans_fault_ordered(spans, i + 1, span_end(spans[i]));
    }
}

/// A supported layout and, for the image layout, fixed-point data and 32-bit segment bases.
pub open spec fn source_valid(src: SourceLayout, data_format: GbiDataFormat) -> bool {
    &&& layout_supported(src.memory)
    &&& src.memory.address_space == AddressSpace::Image ==> (data_format == GbiDataFormat::Fixed
        && forall|k: int| 0 <= k < 16 ==> src.segments[k] <= u32::MAX)
}

/// A task that replay accepts: a supported layout; for the image layout, fixed-point data
/// and 32-bit segment bases; and ordered spans.
pub open spec fn task_valid(t: Task) -> bool {
    &&& layout_supported(t.source.memory)
    &&& t.source.memory.address_space == AddressSpace::Image ==> (t.data_format
        == GbiDataFormat::Fixed && forall|k: int| 0 <= k < 16 ==> t.source.segments[k] <= u32::MAX)
    &&& spans_fault(t.spans@, 0, 0) == 0
}

impl Task {
    /// The error validation reports for an invalid task: the first of an unsupported
    /// layout, a broken image-layout restriction, a misplaced span, an overflowing span.
    pub open spec fn validate_error(self, e: CaptureError) -> bool {
        if !layout_supported(self.source.memory) {
            is_invalid(e, "unsupported memory layout")
        } else if !(self.source.memory.address_space == AddressSpace::Image ==> (self.data_format
            == GbiDataFormat::Fixed && forall|k: int| 0 <= k < 16 ==> self.source.segments[k] <= u32::MAX)) {
            is_invalid(e, "image layout requires fixed data and 32-bit segments")
        } else if spans_fault(self.spans@, 0, 0) == 1 {
            is_invalid(e, "empty, overlapping or unordered spans")
        } else {
            is_invalid(e, "span address overflow")
        }
    }

    /// Checks the layout, the image-layout restrictions and the span order, in that order.
    pub fn validate(&self) -> (r: Result<(), CaptureError>)
        ensures
            r is Ok <==> task_valid(*self),
            r is Ok ==> spans_ordered(self.spans@),
            r matches Err(e) ==> self.validate_error(e),
    {
        match self.source.memory.validate() {
            Err(e) => {
                return Err(e);
            },
            Ok(()) => {},
        }
        if self.source.memory.address_space == AddressSpace::Image {
            let fixed = match self.data_format {
                GbiDataFormat::Fixed => true,
                GbiDataFormat::Float => false,
            };
            let mut wide = false;
            let mut k: usize = 0;
            while k < 16
                invariant
                    k <= 16,
                    wide == exists|j: int| 0 <= j < k && self.source.segments[j] > u32::MAX,
                decreases 16 - k,
            {
                if self.source.segments[k] > u32::MAX as u64 {
                    wide = true;
                }
                k = k + 1;
            }
            if !fixed || wide {
                return Err(invalid("image layout requires fixed data and 32-bit segments"));
            }
        }
        let mut end: u64 = 0;
        let mut i: usize = 0;
        while i < self.spans.len()
            invariant
                i <= self.spans@.len(),
                spans_fault(self.spans@, 0, 0) == spans_fault(self.spans@, i as int, end as int),
                layout_supported(self.source.memory),
                self.source.memory.address_space == AddressSpace::Image ==> (self.data_format
                    == GbiDataFormat::Fixed && forall|k: int|
                    0 <= k < 16 ==> self.source.segments[k] <= u32::MAX),
            decreases self.spans@.len() - i,
        {
            let span = &self.spans[i];
            if span.bytes.len() == 0 || span.address < end {
                return Err(invalid("empty, overlapping or unordered spans"));
            }
            match span.address.checked_add(span.bytes.len() as u64) {
                None => {
                    return Err(invalid("span address overflow"));
                },
                Some(e) => {
                    end = e;
                },
            }
            i = i + 1;
        }
        proof {
            lemma_spans_fault_ordered(self.spans@, 0, 0);
        }
        Ok(())
    }
}


/// Whether some span of `spans` holds the byte at `x`.
pub open spec fn spans_hold(spans: Seq<MemorySpan>, x: int) -> bool {
    exists|j: int| 0 <= j < spans.len() && span_holds(#[trigger] spans[j], x)
}

/// Whether the spans hold every byte of `[address, address + length)`.
pub open spec fn covered(spans: Seq<MemorySpan>, address: int, length: int) -> bool {
    forall|x: int| address <= x < address + length ==> spans_hold(spans, x)
}

/// The byte at `x` of the span that holds it.
pub open spec fn spans_byte(spans: Seq<MemorySpan>, x: int) -> u8 {
    let j = choose|j: int| 0 <= j < spans.len() && span_holds(spans[j], x);
    spans[j].bytes@[x - spans[j].address]
}

/// The `length` bytes at `address` as the spans hold them.
pub open spec fn spans_read(spans: Seq<MemorySpan>, address: int, length: int) -> Seq<u8> {
    Seq::new(length as nat, |i: int| spans_byte(spans, address + i))
}

/// In ordered spans at most one span holds a byte, and later spans start later.
proof fn lemma_ordered_unique(spans: Seq<MemorySpan>, a: int, b: int, x: int)
    requires
        spans_ordered(spans),
        0 <= a < spans.len(),
        0 <= b < spans.len(),
        span_holds(spans[a], x),
        span_holds(spans[b], x),
    ensures
        a == b,
{
    if a < b {
        assert(span_end(spans[a]) <= spans[b].address);
    } else if b < a {
        assert(span_end(spans[b]) <= spans[a].address);
    }
}

/// The byte that span `j` holds at `x` is the byte the spans hold there.
proof fn lemma_spans_byte(spans: Seq<MemorySpan>, j: int, x: int)
    requires
        spans_ordered(spans),
        0 <= j < spans.len(),
        span_holds(spans[j], x),
    ensures
        spans_hold(spans, x),
        spans_byte(spans, x) == spans[j].bytes@[x - spans[j].address],
{
    let k = choose|k: int| 0 <= k < spans.len() && span_holds(spans[k], x);
    lemma_ordered_unique(spans, j, k, x);
}

/// The result of reading `length` bytes at `address` from ordered spans: an empty read
/// always succeeds; a range past the address space is an overflow; a range the spans do not
/// wholly hold is absent; a present range too long for memory is an overflow.
pub open spec fn find_result(spans: Seq<MemorySpan>, address: u64, length: u64) -> Result<Option<Seq<u8>>, MemoryError> {
    if length == 0 {
        Ok(Some(Seq::empty()))
    } else if address + length > u64::MAX {
        Err(MemoryError { address, length, kind: MemoryErrorKind::AddressOverflow })
    } else if !covered(spans, address as int, length as int) {
        Ok(None)
    } else if length > usize::MAX {
        Err(MemoryError { address, length, kind: MemoryErrorKind::AddressOverflow })
    } else {
        Ok(Some(spans_read(spans, address as int, length as int)))
    }
}

/// Replay of one task's recorded memory: reads are served from the task's spans through its
/// segment table; the first failed read is kept for `check`.
pub struct ReplayRdram<'a> {
    task: &'a Task,
    segments: [u64; 16],
    error: Option<CaptureError>,
}

impl<'a> ReplayRdram<'a> {
    #[verifier::type_invariant]
    spec fn inv(self) -> bool {
        spans_ordered(self.task.spans@) && layout_supported(self.task.source.memory)
    }

    /// The task being replayed.
    pub closed spec fn task(self) -> Task {
        *self.task
    }

    /// The current segment table.
    pub closed spec fn segments(self) -> Seq<u64> {
        self.segments@
    }

    /// The first failure recorded so far.
    pub closed spec fn first_error(self) -> Option<CaptureError> {
        self.error
    }

    /// The replay's memory layout.
    pub open spec fn layout(self) -> MemoryLayout {
        self.task().source.memory
    }

    /// Keeps `error` unless a failure was already recorded.
    fn fail(&mut self, error: CaptureError)
        ensures
            final(self).task() == old(self).task(),
            final(self).segments() == old(self).segments(),
            final(self).first_error() == if old(self).first_error() is None {
                Some(error)
            } else {
                old(self).first_error()
            },
    {
        proof {
            use_type_invariant(&*self);
        }
        if self.error.is_none() {
            self.error = Some(error);
        }
    }

    /// The first recorded failure, if any.
    pub fn check(&self) -> (r: Result<(), CaptureError>)
        ensures
            r == match self.first_error() {
                None => Ok(()),
                Some(e) => Err(e),
            },
    {
        match &self.error {
            None => Ok(()),
            Some(e) => Err(e.clone_error()),
        }
    }

    /// Number of spans whose address is at most `address`.
    fn spans_up_to(&self, address: u64) -> (r: usize)
        ensures
            r <= self.task().spans@.len(),
            forall|j: int| 0 <= j < r ==> (#[trigger] self.task().spans@[j]).address <= address,
            forall|j: int| r <= j < self.task().spans@.len() ==> (#[trigger] self.task().spans@[j]).address > address,
    {
        proof {
            use_type_invariant(self);
        }
        let spans = &self.task.spans;
        let mut lo: usize = 0;
        let mut hi: usize = spans.len();
        while lo < hi
            invariant
                lo <= hi <= spans@.len(),
                spans_ordered(spans@),
                forall|j: int| 0 <= j < lo ==> (#[trigger] spans@[j]).address <= address,
                forall|j: int| hi <= j < spans@.len() ==> (#[trigger] spans@[j]).address > address,
            decreases hi - lo,
        {
            let mid = lo + (hi - lo) / 2;
            if spans[mid].address <= address {
                assert forall|j: int| 0 <= j <= mid implies (#[trigger] spans@[j]).address <= address by {
                    if j < mid {
                        assert(span_end(spans@[j]) <= spans@[mid as int].address);
                    }
                }
                lo = mid + 1;
            } else {
                assert forall|j: int| mid <= j < spans@.len() implies (#[trigger] spans@[j]).address > address by {
                    if j > mid {
                        assert(span_end(spans@[mid as int]) <= spans@[j].address);
                    }
                }
                hi = mid;
            }
        }
        lo
    }

    /// Whether the spans hold every byte of `[address, end)`, for `address < end`.
    fn covers(&self, address: u64, end: u64) -> (r: bool)
        requires
            address < end,
        ensures
            r == covered(self.task().spans@, address as int, end - address),
    {
        proof {
            use_type_invariant(self);
        }
        let spans = &self.task.spans;
        let n = spans.len();
        let i = self.spans_up_to(address);
        if i == 0 {
            assert(!spans_hold(spans@, address as int));
            return false;
        }
        let mut k = i - 1;
        let mut cursor = address;
        assert forall|j: int| 0 <= j < k implies span_end(#[trigger] spans@[j]) <= cursor by {
            assert(span_end(spans@[j]) <= spans@[k as int].address);
        }
        while cursor < end && k < n
            invariant
                n == spans@.len(),
                spans@ == self.task().spans@,
                spans_ordered(spans@),
                0 < i <= n,
                i - 1 <= k,
                address <= cursor <= end,
                covered(spans@, address as int, cursor - address),
                cursor < end ==> forall|j: int| 0 <= j < k ==> span_end(#[trigger] spans@[j]) <= cursor,
                forall|j: int| i <= j < n ==> (#[trigger] spans@[j]).address > address,
            decreases n - k,
        {
            let s = &spans[k];
            let s_end = s.address + s.bytes.len() as u64;
            if s_end <= cursor {
                k = k + 1;
            } else if s.address > cursor {
                assert forall|j: int| 0 <= j < n implies !span_holds(#[trigger] spans@[j], cursor as int) by {
                    if j > k {
                        assert(span_end(spans@[k as int]) <= spans@[j].address);
                    }
                }
                assert(!spans_hold(spans@, cursor as int));
                return false;
            } else {
                let next = if s_end < end {
                    s_end
                } else {
                    end
                };
                assert forall|x: int| address <= x < next implies spans_hold(spans@, x) by {
                    if x >= cursor {
                        assert(span_holds(spans@[k as int], x));
                    }
                }
                assert forall|j: int| 0 <= j < k + 1 implies (next < end ==> span_end(#[trigger] spans@[j]) <= next) by {
                    if j < k {
                        assert(span_end(spans@[j]) <= spans@[k as int].address);
                    }
                }
                cursor = next;
                k = k + 1;
            }
        }
        if cursor < end {
            assert forall|j: int| 0 <= j < n implies !span_holds(#[trigger] spans@[j], cursor as int) by {}
            assert(!spans_hold(spans@, cursor as int));
            false
        } else {
            true
        }
    }

    /// Copies the `end - address` bytes at `address`, which the spans hold.
    fn gather(&self, address: u64, end: u64) -> (r: Vec<u8>)
        requires
            address < end,
            end - address <= usize::MAX,
            covered(self.task().spans@, address as int, end - address),
        ensures
            r@ == spans_read(self.task().spans@, address as int, end - address),
    {
        proof {
            use_type_invariant(self);
        }
        let spans = &self.task.spans;
        let n = spans.len();
        let i = self.spans_up_to(address);
        assert(spans_hold(spans@, address as int));
        let ghost j0 = choose|j: int| 0 <= j < n && span_holds(spans@[j], address as int);
        assert(i > 0) by {
            assert(spans@[j0].address <= address);
        }
        let mut out: Vec<u8> = Vec::new();
        let mut k = i - 1;
        let mut cursor = address;
        assert forall|j: int| 0 <= j < k implies span_end(#[trigger] spans@[j]) <= cursor by {
            assert(span_end(spans@[j]) <= spans@[k as int].address);
        }
        assert(out@ =~= spans_read(spans@, address as int, 0));
        while cursor < end
            invariant
                n == spans@.len(),
                spans_ordered(spans@),
                0 < i <= n,
                i - 1 <= k <= n,
                address <= cursor <= end,
                end - address <= usize::MAX,
                covered(spans@, address as int, end - address),
                out@ == spans_read(spans@, address as int, cursor - address),
                cursor < end ==> forall|j: int| 0 <= j < k ==> span_end(#[trigger] spans@[j]) <= cursor,
                forall|j: int| i <= j < n ==> (#[trigger] spans@[j]).address > address,
            decreases end - cursor, n - k,
        {
            assert(spans_hold(spans@, cursor as int));
            let ghost jc = choose|j: int| 0 <= j < n && span_holds(spans@[j], cursor as int);
            assert(k < n) by {
                assert(span_end(spans@[jc]) > cursor);
                if k >= n {
                    assert(jc < k);
                }
            }
            let s = &spans[k];
            let s_end = s.address + s.bytes.len() as u64;
            if s_end <= cursor {
                k = k + 1;
            } else {
                assert(s.address <= cursor) by {
                    if s.address > cursor {
                        if jc > k {
                            assert(span_end(spans@[k as int]) <= spans@[jc].address);
                        } else if jc < k {
                        }
                    }
                }
                let next = if s_end < end {
                    s_end
                } else {
                    end
                };
                let mut t = cursor;
                while t < next
                    invariant
                        n == spans@.len(),
                        spans_ordered(spans@),
                        k < n,
                        s == spans@[k as int],
                        address <= cursor <= t <= next,
                        next <= end,
                        next <= span_end(*s),
                        s.address <= cursor,
                        end - address <= usize::MAX,
                        out@ == spans_read(spans@, address as int, t - address),
                    decreases next - t,
                {
                    proof {
                        lemma_spans_byte(spans@, k as int, t as int);
                    }
                    assert(t - s.address < s.bytes@.len() && s.bytes@.len() == s.bytes.len());
                    let off = (t - s.address) as usize;
                    out.push(s.bytes[off]);
                    assert(out@ =~= spans_read(spans@, address as int, t + 1 - address));
                    t = t + 1;
                }
                assert forall|j: int| 0 <= j < k + 1 implies (next < end ==> span_end(#[trigger] spans@[j]) <= next) by {
                    if j < k {
                        assert(span_end(spans@[j]) <= spans@[k as int].address);
                    }
                }
                cursor = next;
                k = k + 1;
            }
        }
        out
    }

    /// Reads `length` bytes at `address` from the spans (see `find_result`).
    pub fn find(&self, address: u64, length: u64) -> (r: Result<Option<Vec<u8>>, MemoryError>)
        ensures
            match (r, find_result(self.task().spans@, address, length)) {
                (Ok(Some(v)), Ok(Some(w))) => v@ == w,
                (Ok(None), Ok(None)) => true,
                (Err(e), Err(f)) => e == f,
                _ => false,
            },
    {
        if length == 0 {
            return Ok(Some(Vec::new()));
        }
        let end = match address.checked_add(length) {
            Some(e) => e,
            None => {
                return Err(memory_error(address, length, MemoryErrorKind::AddressOverflow));
            },
        };
        if !self.covers(address, end) {
            return Ok(None);
        }
        if length > usize::MAX as u64 {
            return Err(memory_error(address, length, MemoryErrorKind::AddressOverflow));
        }
        Ok(Some(self.gather(address, end)))
    }
}

/// The first failure after a read of `length` bytes at `address` found them missing.
pub open spec fn after_miss(first: Option<CaptureError>, address: u64, length: u64) -> Option<CaptureError> {
    if first is None {
        Some(CaptureError::MissingSpan { address, length })
    } else {
        first
    }
}

/// The resolution of address operand `addr` through segment table `segments` in address
/// space `space`: image addresses are 32-bit, segment `(a >> 24) & 15` plus the low 24 bits,
/// wrapping; host addresses with a zero segment base are taken as they are, others are the
/// base plus the low 24 bits, which must not overflow.
pub open spec fn resolve_result(space: AddressSpace, segments: Seq<u64>, addr: u64) -> Result<u64, MemoryError> {
    match space {
        AddressSpace::Image => if addr > u32::MAX {
            Err(MemoryError { address: addr, length: 0, kind: MemoryErrorKind::AddressOverflow })
        } else {
            Ok(
                vstd::wrapping::u32_specs::wrapping_add(
                    segments[((addr as u32 >> 24u32) & 15) as int] as u32,
                    addr as u32 & 0x00ff_ffff,
                ) as u64,
            )
        },
        AddressSpace::Host => {
            let base = segments[((addr >> 24u64) & 15) as int];
            if base == 0 {
                Ok(addr)
            } else if base + (addr & 0x00ff_ffff) > u64::MAX {
                Err(MemoryError { address: addr, length: 0, kind: MemoryErrorKind::AddressOverflow })
            } else {
                Ok((base + (addr & 0x00ff_ffff)) as u64)
            }
        },
    }
}

impl<'a> ReplayRdram<'a> {
    /// Reads `length` bytes at `address`; bytes the spans do not hold are a missing span,
    /// which is recorded.
    pub fn bytes(&mut self, address: u64, length: usize) -> (r: Result<Vec<u8>, MemoryError>)
        ensures
            final(self).task() == old(self).task(),
            final(self).segments() == old(self).segments(),
            match find_result(old(self).task().spans@, address, length as u64) {
                Ok(Some(w)) => r matches Ok(v) && v@ == w && final(self).first_error()
                    == old(self).first_error(),
                Ok(None) => r == Err::<Vec<u8>, MemoryError>(
                    MemoryError { address, length: length as u64, kind: MemoryErrorKind::Unavailable },
                ) && final(self).first_error() == after_miss(
                    old(self).first_error(),
                    address,
                    length as u64,
                ),
                Err(e) => r == Err::<Vec<u8>, MemoryError>(e) && final(self).first_error()
                    == old(self).first_error(),
            },
    {
        match self.find(address, length as u64) {
            Ok(Some(v)) => Ok(v),
            Ok(None) => {
                self.fail(CaptureError::MissingSpan { address, length: length as u64 });
                Err(memory_error(address, length as u64, MemoryErrorKind::Unavailable))
            },
            Err(e) => Err(e),
        }
    }

    /// Reads `length` bytes at `address` the way a display list sees memory: bytes the spans
    /// do not hold read as zeros, and a range they do not hold is recorded as a missing span.
    pub fn read_bytes(&mut self, address: u64, length: usize) -> (r: Vec<u8>)
        ensures
            final(self).task() == old(self).task(),
            final(self).segments() == old(self).segments(),
            match find_result(old(self).task().spans@, address, length as u64) {
                Ok(Some(w)) => r@ == w && final(self).first_error() == old(self).first_error(),
                Ok(None) => r@ == Seq::new(length as nat, |i: int| 0u8) && final(self).first_error()
                    == after_miss(old(self).first_error(), address, length as u64),
                Err(_) => r@ == Seq::new(length as nat, |i: int| 0u8) && final(self).first_error()
                    == old(self).first_error(),
            },
    {
        match self.bytes(address, length) {
            Ok(v) => v,
            Err(_) => {
                let mut z: Vec<u8> = Vec::new();
                let mut i: usize = 0;
                while i < length
                    invariant
                        i <= length,
                        z@ == Seq::new(i as nat, |k: int| 0u8),
                    decreases length - i,
                {
                    z.push(0u8);
                    assert(z@ =~= Seq::new((i + 1) as nat, |k: int| 0u8));
                    i = i + 1;
                }
                z
            },
        }
    }

    /// The `length`-byte word at `address` in the replay's byte order.
    pub fn word(&mut self, address: u64, length: usize) -> (r: Result<u64, MemoryError>)
        ensures
            final(self).task() == old(self).task(),
            final(self).segments() == old(self).segments(),
            match find_result(old(self).task().spans@, address, length as u64) {
                Ok(Some(w)) => r == Ok::<u64, MemoryError>(word_value(old(self).layout().byte_order, w))
                    && final(self).first_error() == old(self).first_error(),
                Ok(None) => r == Err::<u64, MemoryError>(
                    MemoryError { address, length: length as u64, kind: MemoryErrorKind::Unavailable },
                ) && final(self).first_error() == after_miss(
                    old(self).first_error(),
                    address,
                    length as u64,
                ),
                Err(e) => r == Err::<u64, MemoryError>(e) && final(self).first_error()
                    == old(self).first_error(),
            },
    {
        let b = self.bytes(address, length)?;
        Ok(self.task.source.memory.word(b.as_slice()))
    }

    /// The command at `address`: one stride of bytes holding `w0`, then the address operand,
    /// each `command_word_bytes` wide in the replay's byte order; `w1` is the operand's low
    /// 32 bits.
    pub fn read_command(&mut self, address: u64) -> (r: Result<crate::mem::Command, MemoryError>)
        ensures
            final(self).task() == old(self).task(),
            final(self).segments() == old(self).segments(),
            ({
                let m = old(self).layout();
                let width = m.command_word_bytes as int;
                match find_result(old(self).task().spans@, address, m.command_stride as u64) {
                    Ok(Some(w)) => final(self).first_error() == old(self).first_error() && if w.len()
                        < 2 * width {
                        r == Err::<crate::mem::Command, MemoryError>(
                            MemoryError {
                                address,
                                length: m.command_stride as u64,
                                kind: MemoryErrorKind::Unavailable,
                            },
                        )
                    } else {
                        let op = word_value(m.byte_order, w.subrange(width, 2 * width));
                        r == Ok::<crate::mem::Command, MemoryError>(
                            crate::mem::Command {
                                w0: word_value(m.byte_order, w.subrange(0, width)) as u32,
                                w1: op as u32,
                                w1_addr: op,
                            },
                        )
                    },
                    Ok(None) => r == Err::<crate::mem::Command, MemoryError>(
                        MemoryError {
                            address,
                            length: m.command_stride as u64,
                            kind: MemoryErrorKind::Unavailable,
                        },
                    ) && final(self).first_error() == after_miss(
                        old(self).first_error(),
                        address,
                        m.command_stride as u64,
                    ),
                    Err(e) => r == Err::<crate::mem::Command, MemoryError>(e)
                        && final(self).first_error() == old(self).first_error(),
                }
            }),
    {
        let layout = self.task.source.memory;
        let b = self.bytes(address, layout.command_stride as usize)?;
        let width = layout.command_word_bytes as usize;
        if b.len() < 2 * width {
            return Err(memory_error(address, layout.command_stride as u64, MemoryErrorKind::Unavailable));
        }
        let w0 = layout.word(&b.as_slice()[0..width]) as u32;
        let w1_addr = layout.word(&b.as_slice()[width..2 * width]);
        Ok(crate::mem::Command { w0, w1: w1_addr as u32, w1_addr })
    }

    /// Whether the spans hold the `length` bytes at `address`; a range they do not hold is
    /// recorded as a missing span.
    pub fn in_bounds(&mut self, address: u64, length: u64) -> (r: bool)
        ensures
            final(self).task() == old(self).task(),
            final(self).segments() == old(self).segments(),
            r == (find_result(old(self).task().spans@, address, length) matches Ok(Some(_))),
            final(self).first_error() == if find_result(old(self).task().spans@, address, length)
                is Ok && !r {
                after_miss(old(self).first_error(), address, length)
            } else {
                old(self).first_error()
            },
    {
        match self.find(address, length) {
            Ok(Some(_)) => true,
            Ok(None) => {
                self.fail(CaptureError::MissingSpan { address, length });
                false
            },
            Err(_) => false,
        }
    }

    /// The byte at `address`.
    pub fn read_u8(&mut self, address: u64) -> (r: Result<u8, MemoryError>)
        ensures
            final(self).task() == old(self).task(),
            final(self).segments() == old(self).segments(),
            match find_result(old(self).task().spans@, address, 1) {
                Ok(Some(w)) => r == Ok::<u8, MemoryError>(w[0]),
                Ok(None) => r == Err::<u8, MemoryError>(
                    MemoryError { address, length: 1, kind: MemoryErrorKind::Unavailable },
                ),
                Err(e) => r == Err::<u8, MemoryError>(e),
            },
            final(self).first_error() == if find_result(old(self).task().spans@, address, 1) is Ok
                && !(find_result(old(self).task().spans@, address, 1) matches Ok(Some(_))) {
                after_miss(old(self).first_error(), address, 1)
            } else {
                old(self).first_error()
            },
    {
        let b = self.bytes(address, 1)?;
        Ok(b[0])
    }

    /// The 16-bit word at `address` in the replay's byte order.
    pub fn read_u16(&mut self, address: u64) -> (r: Result<u16, MemoryError>)
        ensures
            final(self).task() == old(self).task(),
            final(self).segments() == old(self).segments(),
            match find_result(old(self).task().spans@, address, 2) {
                Ok(Some(w)) => r == Ok::<u16, MemoryError>(
                    word_value(old(self).layout().byte_order, w) as u16,
                ),
                Ok(None) => r == Err::<u16, MemoryError>(
                    MemoryError { address, length: 2, kind: MemoryErrorKind::Unavailable },
                ),
                Err(e) => r == Err::<u16, MemoryError>(e),
            },
            final(self).first_error() == if find_result(old(self).task().spans@, address, 2) is Ok
                && !(find_result(old(self).task().spans@, address, 2) matches Ok(Some(_))) {
                after_miss(old(self).first_error(), address, 2)
            } else {
                old(self).first_error()
            },
    {
        let v = self.word(address, 2)?;
        Ok(v as u16)
    }

    /// The signed byte at `address`.
    pub fn read_i8(&mut self, address: u64) -> (r: Result<i8, MemoryError>)
        ensures
            final(self).task() == old(self).task(),
            final(self).segments() == old(self).segments(),
            match find_result(old(self).task().spans@, address, 1) {
                Ok(Some(w)) => r == Ok::<i8, MemoryError>(w[0] as i8),
                Ok(None) => r == Err::<i8, MemoryError>(
                    MemoryError { address, length: 1, kind: MemoryErrorKind::Unavailable },
                ),
                Err(e) => r == Err::<i8, MemoryError>(e),
            },
            final(self).first_error() == if find_result(old(self).task().spans@, address, 1) is Ok
                && !(find_result(old(self).task().spans@, address, 1) matches Ok(Some(_))) {
                after_miss(old(self).first_error(), address, 1)
            } else {
                old(self).first_error()
            },
    {
        let b = self.bytes(address, 1)?;
        Ok(b[0] as i8)
    }

    /// The signed 16-bit word at `address` in the replay's byte order.
    pub fn read_i16(&mut self, address: u64) -> (r: Result<i16, MemoryError>)
        ensures
            final(self).task() == old(self).task(),
            final(self).segments() == old(self).segments(),
            match find_result(old(self).task().spans@, address, 2) {
                Ok(Some(w)) => r == Ok::<i16, MemoryError>(
                    word_value(old(self).layout().byte_order, w) as i16,
                ),
                Ok(None) => r == Err::<i16, MemoryError>(
                    MemoryError { address, length: 2, kind: MemoryErrorKind::Unavailable },
                ),
                Err(e) => r == Err::<i16, MemoryError>(e),
            },
            final(self).first_error() == if find_result(old(self).task().spans@, address, 2) is Ok
                && !(find_result(old(self).task().spans@, address, 2) matches Ok(Some(_))) {
                after_miss(old(self).first_error(), address, 2)
            } else {
                old(self).first_error()
            },
    {
        let v = self.word(address, 2)?;
        Ok(v as i16)
    }

    /// Resolves address operand `addr` through the current segment table (see
    /// `resolve_result`).
    pub fn resolve(&self, addr: u64) -> (r: Result<u64, MemoryError>)
        ensures
            r == resolve_result(self.layout().address_space, self.segments(), addr),
    {
        match self.task.source.memory.address_space {
            AddressSpace::Image => {
                if addr > u32::MAX as u64 {
                    return Err(memory_error(addr, 0, MemoryErrorKind::AddressOverflow));
                }
                let a = addr as u32;
                let idx = (a >> 24u32) & 15;
                assert((a >> 24u32) & 15 < 16) by (bit_vector);
                let base = self.segments[idx as usize] as u32;
                Ok(base.wrapping_add(a & 0x00ff_ffff) as u64)
            },
            AddressSpace::Host => {
                let idx = (addr >> 24u64) & 15;
                assert((addr >> 24u64) & 15 < 16) by (bit_vector);
                let base = self.segments[idx as usize];
                if base == 0 {
                    Ok(addr)
                } else {
                    match base.checked_add(addr & 0x00ff_ffff) {
                        Some(v) => Ok(v),
                        None => Err(memory_error(addr, 0, MemoryErrorKind::AddressOverflow)),
                    }
                }
            },
        }
    }

    /// `resolve`, then, for image addresses, aligned down to 8 bytes within 16 MiB.
    pub fn resolve_masked(&self, addr: u64) -> (r: Result<u64, MemoryError>)
        ensures
            r == match resolve_result(self.layout().address_space, self.segments(), addr) {
                Ok(v) => Ok(
                    if self.layout().address_space == AddressSpace::Image {
                        v & 0x00ff_fff8
                    } else {
                        v
                    },
                ),
                Err(e) => Err(e),
            },
    {
        let v = self.resolve(addr)?;
        match self.task.source.memory.address_space {
            AddressSpace::Image => Ok(v & 0x00ff_fff8),
            AddressSpace::Host => Ok(v),
        }
    }

    /// G_MW_SEGMENT: entry `seg & 15` takes `value`, cut to 32 bits for image addresses.
    pub fn set_segment(&mut self, seg: u32, value: u64)
        ensures
            final(self).task() == old(self).task(),
            final(self).first_error() == old(self).first_error(),
            final(self).segments() == old(self).segments().update(
                (seg & 15) as int,
                if old(self).layout().address_space == AddressSpace::Image {
                    value as u32 as u64
                } else {
                    value
                },
            ),
    {
        proof {
            use_type_invariant(&*self);
        }
        let v = match self.task.source.memory.address_space {
            AddressSpace::Image => value as u32 as u64,
            AddressSpace::Host => value,
        };
        let idx = seg & 15;
        assert(seg & 15 < 16) by (bit_vector);
        self.segments[idx as usize] = v;
    }

    /// Bytes between commands.
    pub fn command_stride(&self) -> (r: u64)
        ensures
            r == self.layout().command_stride,
    {
        self.task.source.memory.command_stride as u64
    }

    /// Bytes between vertices: 16 fixed-point, 24 floating-point; image memory holds no
    /// floating-point vertices.
    pub fn vertex_stride(&self, format: GbiDataFormat) -> (r: Result<u64, MemoryError>)
        ensures
            r == if self.layout().address_space == AddressSpace::Image && format
                == GbiDataFormat::Float {
                Err(MemoryError { address: 0, length: 0, kind: MemoryErrorKind::UnsupportedFormat })
            } else if format == GbiDataFormat::Fixed {
                Ok(16u64)
            } else {
                Ok(24u64)
            },
    {
        match (self.task.source.memory.address_space, format) {
            (AddressSpace::Image, GbiDataFormat::Float) => Err(
                memory_error(0, 0, MemoryErrorKind::UnsupportedFormat),
            ),
            (_, GbiDataFormat::Fixed) => Ok(16),
            (_, GbiDataFormat::Float) => Ok(24),
        }
    }

    /// Whether addresses point into an RDRAM image.
    pub fn is_rdram_image(&self) -> (r: bool)
        ensures
            r == (self.layout().address_space == AddressSpace::Image),
    {
        match self.task.source.memory.address_space {
            AddressSpace::Image => true,
            AddressSpace::Host => false,
        }
    }

    /// The layout and current segment table, as a new recording would see them.
    pub fn capture_layout(&self) -> (r: Option<SourceLayout>)
        ensures
            r matches Some(l) && l.memory == self.layout() && l.segments@ == self.segments(),
    {
        Some(SourceLayout { memory: self.task.source.memory, segments: self.segments })
    }
}

/// Replay of a validated task.
pub struct ReplayHardware<'a> {
    rdram: ReplayRdram<'a>,
    vi: Option<format::ViRegisters>,
}

impl<'a> ReplayHardware<'a> {
    /// The replay state.
    pub closed spec fn replay(self) -> ReplayRdram<'a> {
        self.rdram
    }

    /// The VI registers the frame was presented with.
    pub closed spec fn spec_vi(self) -> Option<format::ViRegisters> {
        self.vi
    }

    /// Replays `task`, which must validate (see `Task::validate`), presenting with `vi`.
    pub fn new(task: &'a Task, vi: Option<format::ViRegisters>) -> (r: Result<Self, CaptureError>)
        ensures
            r is Ok <==> task_valid(*task),
            r matches Ok(h) ==> h.replay().task() == *task && h.replay().first_error() is None
                && h.replay().segments() == task.source.segments@ && h.spec_vi() == vi,
            r matches Err(e) ==> task.validate_error(e) && e is Invalid,
    {
        match task.validate() {
            Err(e) => Err(e),
            Ok(()) => Ok(
                ReplayHardware {
                    rdram: ReplayRdram { task, segments: task.source.segments, error: None },
                    vi,
                },
            ),
        }
    }

    /// The VI registers given at construction.
    pub fn vi(&self) -> (r: Option<format::ViRegisters>)
        ensures
            r == self.spec_vi(),
    {
        self.vi
    }

    /// The replay memory, with the segment table reset to the task's.
    pub fn rdram(&mut self) -> (r: &mut ReplayRdram<'a>)
        ensures
            r.task() == old(self).replay().task(),
            r.first_error() == old(self).replay().first_error(),
            r.segments() == old(self).replay().task().source.segments@,
            final(self).replay() == *final(r),
    {
        proof {
            use_type_invariant(&self.rdram);
        }
        self.rdram.segments = self.rdram.task.source.segments;
        &mut self.rdram
    }

    /// The first failed read of the replay, if any.
    pub fn check(&self) -> (r: Result<(), CaptureError>)
        ensures
            r == match self.replay().first_error() {
                None => Ok(()),
                Some(e) => Err(e),
            },
    {
        self.rdram.check()
    }
}

/// Spans at least one byte apart: nonempty, in address order, none reaching the next or
/// running past the end of the address space.
pub open spec fn spans_separated(spans: Seq<MemorySpan>) -> bool {
    &&& forall|j: int| 0 <= j < spans.len() ==> #[trigger] spans[j].bytes@.len() > 0 && span_end(spans[j]) <= u64::MAX
    &&& forall|a: int, b: int| 0 <= a < b < spans.len() ==> span_end(#[trigger] spans[a]) < (#[trigger] spans[b]).address
}

/// Whether span `s` overlaps or touches the range `[a, e)`.
pub open spec fn touches(s: MemorySpan, a: int, e: int) -> bool {
    s.address <= e && span_end(s) >= a
}

/// Where the merge of a read of `[a, e)` into `spans` starts: at the start of the span that
/// touches the range and starts at or before `a`, if there is one, else at `a`.
pub open spec fn merge_lo(spans: Seq<MemorySpan>, a: int, e: int) -> int {
    if exists|k: int| 0 <= k < spans.len() && touches(spans[k], a, e) && spans[k].address <= a {
        spans[choose|k: int| 0 <= k < spans.len() && touches(spans[k], a, e) && spans[k].address <= a].address as int
    } else {
        a
    }
}

/// Where the merge of a read of `[a, e)` into `spans` ends: at the end of the span that
/// touches the range and ends after `e`, if there is one, else at `e`.
pub open spec fn merge_hi(spans: Seq<MemorySpan>, a: int, e: int) -> int {
    if exists|k: int| 0 <= k < spans.len() && touches(spans[k], a, e) && span_end(spans[k]) > e {
        span_end(spans[choose|k: int| 0 <= k < spans.len() && touches(spans[k], a, e) && span_end(spans[k]) > e])
    } else {
        e
    }
}

/// Whether a read of `bytes` at `address` disagrees at `x` with what `spans` hold.
pub open spec fn conflict_at(spans: Seq<MemorySpan>, address: int, bytes: Seq<u8>, x: int) -> bool {
    address <= x < address + bytes.len() && spans_hold(spans, x) && spans_byte(spans, x) != bytes[x - address]
}

/// `new` is `old` with the read of `bytes` at `address` merged in: it holds what `old` held
/// and the read, the read's bytes where it reaches and `old`'s elsewhere.
pub open spec fn merged_log(old: Seq<MemorySpan>, new: Seq<MemorySpan>, address: int, bytes: Seq<u8>) -> bool {
    &&& spans_separated(new)
    &&& forall|x: int| #[trigger] spans_hold(new, x) <==> (spans_hold(old, x) || address <= x < address + bytes.len())
    &&& forall|x: int| spans_hold(new, x) ==> #[trigger] spans_byte(new, x) == if address <= x < address + bytes.len() {
        bytes[x - address]
    } else {
        spans_byte(old, x)
    }
}

/// `old` with spans `[lo, hi)` replaced by `m`.
pub open spec fn splice(old: Seq<MemorySpan>, lo: int, hi: int, m: MemorySpan) -> Seq<MemorySpan> {
    old.subrange(0, lo).push(m) + old.subrange(hi, old.len() as int)
}

/// Separated spans are ordered.
proof fn lemma_separated_ordered(spans: Seq<MemorySpan>)
    requires
        spans_separated(spans),
    ensures
        spans_ordered(spans),
{
}

/// Replacing the spans `[lo, hi)`, which all touch or overlap `[address, end)`, by one span
/// holding their union with that range, as `merged_log` describes.
#[verifier::spinoff_prover]
#[verifier::rlimit(40)]
proof fn lemma_splice(
    old: Seq<MemorySpan>,
    lo: int,
    hi: int,
    m: MemorySpan,
    address: int,
    bytes: Seq<u8>,
)
    requires
        spans_separated(old),
        0 <= lo <= hi <= old.len(),
        bytes.len() > 0,
        address + bytes.len() <= u64::MAX,
        forall|k: int| 0 <= k < lo ==> span_end(#[trigger] old[k]) < address,
        forall|k: int| hi <= k < old.len() ==> (#[trigger] old[k]).address > address + bytes.len(),
        forall|k: int| lo <= k < hi ==> span_end(#[trigger] old[k]) >= address && old[k].address <= address + bytes.len(),
        m.address == if lo < hi && old[lo].address < address {
            old[lo].address as int
        } else {
            address
        },
        span_end(m) == if lo < hi && span_end(old[hi - 1]) > address + bytes.len() {
            span_end(old[hi - 1])
        } else {
            address + bytes.len()
        },
        forall|x: int| span_holds(m, x) ==> m.bytes@[x - m.address] == if address <= x < address
            + bytes.len() {
            bytes[x - address]
        } else {
            spans_byte(old, x)
        },
    ensures
        merged_log(old, splice(old, lo, hi, m), address, bytes),
{
    let new = splice(old, lo, hi, m);
    let end = address + bytes.len();
    lemma_separated_ordered(old);
    assert(new.len() == old.len() - (hi - lo) + 1);
    assert forall|j: int| 0 <= j < new.len() implies (if j < lo {
        new[j] == old[j]
    } else if j == lo {
        new[j] == m
    } else {
        new[j] == old[j + hi - lo - 1]
    }) by {}
    // every byte of m's range is the read or held by span lo or hi - 1
    assert forall|x: int| span_holds(m, x) implies (spans_hold(old, x) || address <= x < end) by {
        if x < address {
            assert(span_holds(old[lo], x));
        } else if x >= end {
            assert(span_holds(old[hi - 1], x));
        }
    }
    assert forall|k: int, x: int| lo <= k < hi && span_holds(old[k], x) implies span_holds(m, x) by {
        if lo < k {
            assert(span_end(old[lo]) < old[k].address);
        }
        if k < hi - 1 {
            assert(span_end(old[k]) < old[hi - 1].address);
        }
    }
    assert(spans_separated(new)) by {
        assert forall|a: int, b: int| 0 <= a < b < new.len() implies span_end(#[trigger] new[a]) < (#[trigger] new[b]).address by {
            if b < lo {
            } else if b == lo {
                if lo < hi {
                    assert(span_end(old[a]) < old[lo].address);
                }
            } else if a < lo {
                if lo < hi {
                    assert(span_end(old[a]) < old[lo].address);
                }
                assert(span_end(old[a]) < old[b + hi - lo - 1].address);
            } else if a == lo {
                if lo < hi {
                    assert(span_end(old[hi - 1]) < old[b + hi - lo - 1].address);
                }
            } else {
                assert(span_end(old[a + hi - lo - 1]) < old[b + hi - lo - 1].address);
            }
        }
    }
    assert forall|x: int| #[trigger] spans_hold(new, x) <==> (spans_hold(old, x) || address <= x < end) by {
        if spans_hold(new, x) {
            let j = choose|j: int| 0 <= j < new.len() && span_holds(new[j], x);
            if j < lo {
                assert(span_holds(old[j], x));
            } else if j > lo {
                assert(span_holds(old[j + hi - lo - 1], x));
            }
        }
        if spans_hold(old, x) {
            let k = choose|k: int| 0 <= k < old.len() && span_holds(old[k], x);
            if k < lo {
                assert(span_holds(new[k], x));
            } else if k >= hi {
                assert(span_holds(new[k - (hi - lo) + 1], x));
            } else {
                assert(span_holds(new[lo], x));
            }
        }
        if address <= x < end {
            assert(span_holds(new[lo], x));
        }
    }
    assert forall|x: int| spans_hold(new, x) implies #[trigger] spans_byte(new, x) == if address <= x < end {
        bytes[x - address]
    } else {
        spans_byte(old, x)
    } by {
        let j = choose|j: int| 0 <= j < new.len() && span_holds(new[j], x);
        lemma_separated_ordered(new);
        lemma_spans_byte(new, j, x);
        if j < lo {
            lemma_spans_byte(old, j, x);
            assert(!(address <= x < end));
        } else if j > lo {
            lemma_spans_byte(old, j + hi - lo - 1, x);
            assert(!(address <= x < end));
        }
    }
}

/// The bytes a task's reads saw, kept as separated spans, with the source layout the reads
/// went through and the first failure.
pub struct ReadLog {
    source: Option<SourceLayout>,
    spans: Vec<MemorySpan>,
    error: Option<CaptureError>,
}

impl ReadLog {
    #[verifier::type_invariant]
    spec fn inv(self) -> bool {
        spans_separated(self.spans@)
    }

    pub closed spec fn source(self) -> Option<SourceLayout> {
        self.source
    }

    pub closed spec fn spans(self) -> Seq<MemorySpan> {
        self.spans@
    }

    pub closed spec fn first_error(self) -> Option<CaptureError> {
        self.error
    }

    /// An empty log.
    pub fn new() -> (r: Self)
        ensures
            r.source() is None,
            r.spans().len() == 0,
            r.first_error() is None,
    {
        ReadLog { source: None, spans: Vec::new(), error: None }
    }

    /// Keeps `error` unless a failure was already recorded.
    pub fn fail(&mut self, error: CaptureError)
        ensures
            final(self).source() == old(self).source(),
            final(self).spans() == old(self).spans(),
            spans_separated(final(self).spans()),
            final(self).first_error() == if old(self).first_error() is None {
                Some(error)
            } else {
                old(self).first_error()
            },
    {
        proof {
            use_type_invariant(&*self);
        }
        if self.error.is_none() {
            self.error = Some(error);
        }
    }

    /// The least address at which a read of `bytes` at `address` (ending at `end`)
    /// disagrees with the log, if any.
    fn first_conflict(&self, address: u64, end: u64, bytes: &[u8], lo: usize, hi: usize) -> (r: Option<u64>)
        requires
            address < end,
            end == address + bytes@.len(),
            lo <= hi <= self.spans().len(),
            forall|k: int| 0 <= k < lo ==> span_end(#[trigger] self.spans()[k]) < address,
            forall|k: int| hi <= k < self.spans().len() ==> (#[trigger] self.spans()[k]).address > end,
            forall|k: int| lo <= k < hi ==> (#[trigger] self.spans()[k]).address <= end && span_end(self.spans()[k]) >= address,
        ensures
            r matches Some(x) ==> conflict_at(self.spans(), address as int, bytes@, x as int)
                && forall|y: int| y < x ==> !conflict_at(self.spans(), address as int, bytes@, y),
            r is None ==> forall|y: int| !conflict_at(self.spans(), address as int, bytes@, y),
    {
        proof {
            use_type_invariant(self);
            lemma_separated_ordered(self.spans@);
        }
        let spans = &self.spans;
        let mut k = lo;
        let mut pos = address;
        while k < hi
            invariant
                spans@ == self.spans(),
                spans_separated(spans@),
                spans_ordered(spans@),
                lo <= k <= hi <= spans@.len(),
                address <= pos <= end,
                end == address + bytes@.len(),
                forall|j: int| 0 <= j < lo ==> span_end(#[trigger] spans@[j]) < address,
                forall|j: int| hi <= j < spans@.len() ==> (#[trigger] spans@[j]).address > end,
                forall|j: int| lo <= j < hi ==> (#[trigger] spans@[j]).address <= end && span_end(spans@[j]) >= address,
                k < hi ==> (k == lo ==> pos == address) && (k > lo ==> span_end(spans@[k - 1]) <= pos || pos == end),
                k > lo ==> forall|j: int| 0 <= j < k ==> span_end(#[trigger] spans@[j]) <= pos || pos == end,
                forall|y: int| y < pos ==> !conflict_at(spans@, address as int, bytes@, y),
            decreases hi - k,
        {
            let s = &spans[k];
            let s_end = s.address + s.bytes.len() as u64;
            let from = if s.address > address {
                s.address
            } else {
                address
            };
            let to = if s_end < end {
                s_end
            } else {
                end
            };
            assert forall|y: int| pos <= y < from implies !conflict_at(spans@, address as int, bytes@, y) by {
                assert forall|j: int| 0 <= j < spans@.len() implies !span_holds(#[trigger] spans@[j], y) by {
                    if j > k {
                        assert(span_end(spans@[k as int]) < spans@[j].address);
                    } else if j < k {
                        if k > lo {
                            assert(span_end(spans@[j]) <= span_end(spans@[k - 1]));
                        }
                    }
                }
            }
            let mut x = from;
            if x < pos {
                x = pos;
            }
            while x < to
                invariant
                    spans@ == self.spans(),
                    spans_separated(spans@),
                    spans_ordered(spans@),
                    lo <= k < hi <= spans@.len(),
                    s == spans@[k as int],
                    address <= from <= x,
                    pos <= x,
                    x <= end,
                    address <= pos <= end,
                    to <= end,
                    to <= span_end(*s),
                    s.address <= from,
                    end == address + bytes@.len(),
                    forall|y: int| y < x ==> !conflict_at(spans@, address as int, bytes@, y),
                decreases to - x,
            {
                proof {
                    lemma_spans_byte(spans@, k as int, x as int);
                }
                assert(x - s.address < s.bytes@.len() && s.bytes@.len() == s.bytes.len());
                assert(x - address < bytes@.len() && bytes@.len() == bytes.len());
                if s.bytes[(x - s.address) as usize] != bytes[(x - address) as usize] {
                    return Some(x);
                }
                x = x + 1;
            }
            if x > pos {
                pos = x;
            }
            proof {
                assert forall|j: int| 0 <= j < k + 1 implies span_end(#[trigger] spans@[j]) <= pos || pos == end by {
                    if j < k {
                        assert(span_end(spans@[j]) < spans@[k as int].address);
                    }
                }
            }
            k = k + 1;
        }
        assert forall|y: int| !conflict_at(spans@, address as int, bytes@, y) by {
            if pos <= y < end && spans_hold(spans@, y) {
                let j = choose|j: int| 0 <= j < spans@.len() && span_holds(spans@[j], y);
                if j >= hi {
                } else if j < lo {
                } else {
                    assert(span_end(spans@[j]) <= pos || pos == end);
                }
            }
        }
        None
    }

    /// The byte the merge of a read of `bytes` at `address` into `spans` holds at `x`.
    pub open spec fn merge_byte(spans: Seq<MemorySpan>, address: int, bytes: Seq<u8>, x: int) -> u8 {
        if address <= x < address + bytes.len() {
            bytes[x - address]
        } else {
            spans_byte(spans, x)
        }
    }

    /// The effect of recording a read of `bytes` at `address` on log `old` (see `insert`).
    pub open spec fn insert_post(old: ReadLog, new: ReadLog, address: u64, bytes: Seq<u8>) -> bool {
        &&& new.source() == old.source()
        &&& spans_separated(new.spans())
        &&& {
            let o = old.spans();
                let n = bytes.len();
                if n == 0 || old.first_error() is Some {
                    new.spans() == o && new.first_error() == old.first_error()
                } else if address + n > u64::MAX {
                    &&& new.spans() == o
                    &&& new.first_error() matches Some(e) && is_invalid(e, "read address overflow")
                } else if exists|x: int| conflict_at(o, address as int, bytes, x) {
                    &&& new.spans() == o
                    &&& new.first_error() matches Some(CaptureError::ConflictingRead { address: x })
                        && conflict_at(o, address as int, bytes, x as int) && forall|y: int|
                        y < x ==> !conflict_at(o, address as int, bytes, y)
                } else if merge_hi(o, address as int, address + n) - merge_lo(o, address as int, address + n) > usize::MAX {
                    &&& new.spans() == o
                    &&& new.first_error() matches Some(e) && is_invalid(e, "snapshot too large")
                } else {
                    &&& new.first_error() is None
                    &&& merged_log(o, new.spans(), address as int, bytes)
                }
            }
    }

    /// Records a read of `bytes` at `address`. An empty read, or any read after a failure,
    /// changes nothing. A read past the address space, or one that disagrees with bytes
    /// already recorded, is a failure (the least disagreeing address is reported) and leaves
    /// the spans alone. Otherwise the read is merged in: the spans it overlaps or touches
    /// become one.
    #[verifier::rlimit(60)]
    #[verifier::spinoff_prover]
    pub fn insert(&mut self, address: u64, bytes: &[u8])
        ensures
            ReadLog::insert_post(*old(self), *final(self), address, bytes@),
    {
        proof {
            use_type_invariant(&*self);
            lemma_separated_ordered(self.spans@);
        }
        if bytes.len() == 0 || self.error.is_some() {
            return;
        }
        let end = match address.checked_add(bytes.len() as u64) {
            None => {
                self.fail(invalid("read address overflow"));
                return;
            },
            Some(e) => e,
        };
        let ghost o = self.spans@;
        let n = self.spans.len();
        let mut lo: usize = 0;
        while lo < n && self.spans[lo].address + (self.spans[lo].bytes.len() as u64) < address
            invariant
                self.spans@ == o,
                n == o.len(),
                spans_separated(o),
                lo <= n,
                forall|k: int| 0 <= k < lo ==> span_end(#[trigger] o[k]) < address,
            decreases n - lo,
        {
            lo = lo + 1;
        }
        assert forall|k: int| lo <= k < n implies span_end(#[trigger] o[k]) >= address by {
            if k > lo {
                assert(span_end(o[lo as int]) < o[k].address);
            }
        }
        let mut hi: usize = lo;
        while hi < n && self.spans[hi].address <= end
            invariant
                self.spans@ == o,
                n == o.len(),
                spans_separated(o),
                lo <= hi <= n,
                forall|k: int| lo <= k < hi ==> (#[trigger] o[k]).address <= end,
            decreases n - hi,
        {
            hi = hi + 1;
        }
        assert forall|k: int| hi <= k < n implies (#[trigger] o[k]).address > end by {
            if k > hi {
                assert(span_end(o[hi as int]) < o[k].address);
            }
        }
        match self.first_conflict(address, end, bytes, lo, hi) {
            Some(x) => {
                self.fail(CaptureError::ConflictingRead { address: x });
                return;
            },
            None => {},
        }
        let take_left = lo < hi && self.spans[lo].address <= address;
        let mstart = if take_left {
            self.spans[lo].address
        } else {
            address
        };
        let tail_from_last = lo < hi && self.spans[hi - 1].address + (self.spans[hi - 1].bytes.len() as u64) > end;
        let mend = if tail_from_last {
            self.spans[hi - 1].address + (self.spans[hi - 1].bytes.len() as u64)
        } else {
            end
        };
        proof {
            lemma_merge_extent(o, lo as int, hi as int, address as int, end as int);
        }
        if mend - mstart > usize::MAX as u64 {
            self.fail(invalid("snapshot too large"));
            return;
        }
        let tail: Vec<u8> = if tail_from_last {
            let last = &self.spans[hi - 1];
            assert(end - last.address <= last.bytes@.len() && last.bytes@.len() == last.bytes.len());
            let from = (end - last.address) as usize;
            vstd::slice::slice_to_vec(&last.bytes.as_slice()[from..last.bytes.len()])
        } else {
            Vec::new()
        };
        let mut v: Vec<MemorySpan> = Vec::new();
        std::mem::swap(&mut v, &mut self.spans);
        let mut first: Vec<u8> = Vec::new();
        let mut j = lo;
        while j < hi
            invariant
                lo <= j <= hi <= n,
                n == o.len(),
                v@ == o.subrange(0, lo as int) + o.subrange(j as int, n as int),
                take_left ==> lo < hi,
                j > lo && take_left ==> first@ == o[lo as int].bytes@,
            decreases hi - j,
        {
            assert(v@[lo as int] == o[j as int]);
            let sp = v.remove(lo);
            if j == lo && take_left {
                first = sp.bytes;
            }
            assert(v@ =~= o.subrange(0, lo as int) + o.subrange(j + 1, n as int));
            j = j + 1;
        }
        let mut merged: Vec<u8> = if take_left {
            first
        } else {
            Vec::new()
        };
        proof {
            if take_left {
                assert forall|i: int| 0 <= i < merged@.len() implies merged@[i] == ReadLog::merge_byte(o, address as int, bytes@, mstart + i) by {
                    lemma_spans_byte(o, lo as int, mstart + i);
                    assert(!conflict_at(o, address as int, bytes@, mstart + i));
                }
            }
        }
        let mut x: u64 = mstart + merged.len() as u64;
        if take_left {
            assert(x == span_end(o[lo as int]));
        }
        while x < mend
            invariant
                mstart <= x <= mend,
                mend <= u64::MAX,
                mend - mstart <= usize::MAX,
                end == address + bytes@.len(),
                address <= end <= mend,
                merged@.len() == x - mstart,
                forall|i: int| 0 <= i < merged@.len() ==> merged@[i] == ReadLog::merge_byte(o, address as int, bytes@, mstart + i),
                tail_from_last ==> lo < hi && mend == span_end(o[hi - 1]) && tail@ == o[hi - 1].bytes@.subrange(end - o[hi - 1].address, o[hi - 1].bytes@.len() as int),
                !tail_from_last ==> mend == end,
                take_left ==> mstart <= address,
                !take_left ==> mstart == address,
                take_left ==> lo < hi && x >= span_end(o[lo as int]),
                spans_separated(o),
                n == o.len(),
                lo <= hi <= n,
                forall|k: int| lo <= k < hi ==> (#[trigger] o[k]).address <= end,
                forall|k: int| lo <= k < n ==> span_end(#[trigger] o[k]) >= address,
                forall|y: int| !conflict_at(o, address as int, bytes@, y),
            decreases mend - x,
        {
            if x < end {
                assert(x >= address);
                assert(x - address < bytes@.len() && bytes@.len() == bytes.len());
                merged.push(bytes[(x - address) as usize]);
            } else {
                assert(tail_from_last);
                assert(x - end < tail@.len() && tail@.len() == tail.len());
                proof {
                    lemma_spans_byte(o, hi - 1, x as int);
                }
                merged.push(tail[(x - end) as usize]);
            }
            x = x + 1;
        }
        let m = MemorySpan { address: mstart, bytes: merged };
        proof {
            assert forall|y: int| span_holds(m, y) implies m.bytes@[y - m.address] == ReadLog::merge_byte(o, address as int, bytes@, y) by {}
            if lo < hi && o[lo as int].address == address {
                assert(m.address == address);
            }
            lemma_splice(o, lo as int, hi as int, m, address as int, bytes@);
        }
        v.insert(lo, m);
        assert(v@ =~= splice(o, lo as int, hi as int, m));
        self.spans = v;
    }
}

/// With `[lo, hi)` the spans that touch `[a, e)`, the merge starts at span `lo` when it
/// starts at or before `a`, and ends at span `hi - 1` when it ends after `e`.
proof fn lemma_merge_extent(o: Seq<MemorySpan>, lo: int, hi: int, a: int, e: int)
    requires
        spans_separated(o),
        0 <= lo <= hi <= o.len(),
        a <= e,
        forall|k: int| 0 <= k < lo ==> span_end(#[trigger] o[k]) < a,
        forall|k: int| hi <= k < o.len() ==> (#[trigger] o[k]).address > e,
        forall|k: int| lo <= k < hi ==> (#[trigger] o[k]).address <= e,
        forall|k: int| lo <= k < o.len() ==> span_end(#[trigger] o[k]) >= a,
    ensures
        merge_lo(o, a, e) == if lo < hi && o[lo].address <= a { o[lo].address as int } else { a },
        merge_hi(o, a, e) == if lo < hi && span_end(o[hi - 1]) > e { span_end(o[hi - 1]) } else { e },
{
    if exists|k: int| 0 <= k < o.len() && touches(o[k], a, e) && o[k].address <= a {
        let k = choose|k: int| 0 <= k < o.len() && touches(o[k], a, e) && o[k].address <= a;
        assert(lo <= k < hi);
        if k > lo {
            assert(span_end(o[lo]) < o[k].address);
        }
    } else if lo < hi && o[lo].address <= a {
        assert(touches(o[lo], a, e));
    }
    if exists|k: int| 0 <= k < o.len() && touches(o[k], a, e) && span_end(o[k]) > e {
        let k = choose|k: int| 0 <= k < o.len() && touches(o[k], a, e) && span_end(o[k]) > e;
        assert(lo <= k < hi);
        if k < hi - 1 {
            assert(span_end(o[k]) < o[hi - 1].address);
        }
    } else if lo < hi && span_end(o[hi - 1]) > e {
        assert(touches(o[hi - 1], a, e));
    }
}

/// Separated spans have no fault from `i` on, given the spans before `i` end at `end`.
proof fn lemma_separated_no_fault(spans: Seq<MemorySpan>, i: int, end: int)
    requires
        spans_separated(spans),
        0 <= i <= spans.len(),
        i < spans.len() ==> end <= spans[i].address,
    ensures
        spans_fault(spans, i, end) == 0,
    decreases spans.len() - i,
{
    if i < spans.len() {
        if i + 1 < spans.len() {
            assert(span_end(spans[i]) < spans[i + 1].address);
        }
        lemma_separated_no_fault(spans, i + 1, span_end(spans[i]));
    }
}

/// A merge of a read that disagrees nowhere keeps every byte held before and holds the
/// read's bytes: what was recorded stays recorded.
pub proof fn lemma_merge_keeps_reads(old: Seq<MemorySpan>, new: Seq<MemorySpan>, address: int, bytes: Seq<u8>)
    requires
        merged_log(old, new, address, bytes),
        forall|y: int| !conflict_at(old, address, bytes, y),
    ensures
        forall|x: int| spans_hold(old, x) ==> spans_hold(new, x) && spans_byte(new, x) == spans_byte(old, x),
        forall|i: int| 0 <= i < bytes.len() ==> spans_hold(new, address + i) && spans_byte(new, address + i) == bytes[i],
{
    assert forall|x: int| spans_hold(old, x) implies spans_hold(new, x) && spans_byte(new, x) == spans_byte(old, x) by {
        assert(!conflict_at(old, address, bytes, x));
    }
    assert forall|i: int| 0 <= i < bytes.len() implies spans_hold(new, address + i) && spans_byte(new, address + i) == bytes[i] by {
        assert(spans_hold(new, address + i));
    }
}

/// Replaying spans that hold the `bytes` at `address` reads exactly those bytes back.
pub proof fn lemma_recorded_bytes_read_back(spans: Seq<MemorySpan>, address: u64, bytes: Seq<u8>)
    requires
        spans_ordered(spans),
        0 < bytes.len() <= usize::MAX,
        address + bytes.len() <= u64::MAX,
        forall|i: int| 0 <= i < bytes.len() ==> spans_hold(spans, address + i) && spans_byte(spans, address + i) == bytes[i],
    ensures
        find_result(spans, address, bytes.len() as u64) == Ok::<Option<Seq<u8>>, MemoryError>(Some(bytes)),
{
    assert forall|x: int| address <= x < address + bytes.len() implies spans_hold(spans, x) by {
        let i = x - address;
        assert(spans_byte(spans, address + i) == bytes[i]);
    }
    assert(spans_read(spans, address as int, bytes.len() as int) =~= bytes);
}

/// Records the reads of one task from the memory of the hardware being recorded.
pub struct RecordingHardware {
    log: ReadLog,
}

impl RecordingHardware {
    /// The reads recorded so far.
    pub closed spec fn log(self) -> ReadLog {
        self.log
    }

    /// A recorder with nothing recorded.
    pub fn new() -> (r: Self)
        ensures
            r.log().source() is None,
            r.log().spans().len() == 0,
            r.log().first_error() is None,
    {
        RecordingHardware { log: ReadLog::new() }
    }

    /// The hardware's memory is handed out, with `source` its layout and segment table (none
    /// when its memory cannot be captured). It may be handed out once; the layout must be
    /// supported. Returns the layout reads are decoded in.
    pub fn rdram(&mut self, source: Option<SourceLayout>) -> (r: MemoryLayout)
        ensures
            final(self).log().spans() == old(self).log().spans(),
            final(self).log().source() == if source is Some {
                source
            } else {
                old(self).log().source()
            },
            r == match source {
                Some(s) => s.memory,
                None => image_layout(),
            },
            old(self).log().first_error() is Some ==> final(self).log().first_error() == old(self).log().first_error(),
            old(self).log().first_error() is None && old(self).log().source() is Some ==> (final(self).log().first_error() matches Some(e)
                && is_invalid(e, "recording hardware consumed more than once")),
            old(self).log().first_error() is None && old(self).log().source() is None ==> match source {
                None => final(self).log().first_error() == Some(CaptureError::UnsupportedBackend),
                Some(s) => if layout_supported(s.memory) {
                    final(self).log().first_error() is None
                } else {
                    final(self).log().first_error() matches Some(e) && is_invalid(e, "unsupported memory layout")
                },
            },
    {
        proof {
            use_type_invariant(&self.log);
        }
        if self.log.source.is_some() {
            self.log.fail(invalid("recording hardware consumed more than once"));
        }
        match source {
            Some(src) => {
                match src.memory.validate() {
                    Err(e) => self.log.fail(e),
                    Ok(()) => {},
                }
                self.log.source = Some(src);
                src.memory
            },
            None => {
                self.log.fail(CaptureError::UnsupportedBackend);
                MemoryLayout::image()
            },
        }
    }

    /// Records a read of `length` bytes at `address`, given what the hardware's memory
    /// returned for it (`inner`). After a failure every read fails. A failed or short read
    /// is a missing span. Otherwise the bytes are recorded (see `ReadLog::insert`) and
    /// returned, unless recording them failed.
    pub fn bytes(&mut self, address: u64, length: usize, inner: Result<Vec<u8>, MemoryError>) -> (r: Result<Vec<u8>, MemoryError>)
        ensures
            final(self).log().source() == old(self).log().source(),
            ({
                let unavailable = MemoryError { address, length: length as u64, kind: MemoryErrorKind::Unavailable };
                if old(self).log().first_error() is Some {
                    &&& final(self).log() == old(self).log()
                    &&& r == Err::<Vec<u8>, MemoryError>(unavailable)
                } else {
                    match inner {
                        Err(e) => {
                            &&& final(self).log().spans() == old(self).log().spans()
                            &&& final(self).log().first_error() == Some(CaptureError::MissingSpan { address: e.address, length: e.length })
                            &&& r == Err::<Vec<u8>, MemoryError>(e)
                        },
                        Ok(b) => if b@.len() != length {
                            &&& final(self).log().spans() == old(self).log().spans()
                            &&& final(self).log().first_error() == Some(CaptureError::MissingSpan { address, length: length as u64 })
                            &&& r == Err::<Vec<u8>, MemoryError>(unavailable)
                        } else {
                            &&& ReadLog::insert_post(old(self).log(), final(self).log(), address, b@)
                            &&& final(self).log().first_error() is None ==> (r matches Ok(v) && v@ == b@)
                            &&& final(self).log().first_error() is Some ==> r == Err::<Vec<u8>, MemoryError>(unavailable)
                        },
                    }
                }
            }),
    {
        if self.log.error.is_some() {
            return Err(memory_error(address, length as u64, MemoryErrorKind::Unavailable));
        }
        match inner {
            Err(e) => {
                self.log.fail(CaptureError::MissingSpan { address: e.address, length: e.length });
                Err(e)
            },
            Ok(b) => {
                if b.len() != length {
                    self.log.fail(CaptureError::MissingSpan { address, length: length as u64 });
                    return Err(memory_error(address, length as u64, MemoryErrorKind::Unavailable));
                }
                self.log.insert(address, b.as_slice());
                if self.log.error.is_some() {
                    Err(memory_error(address, length as u64, MemoryErrorKind::Unavailable))
                } else {
                    Ok(b)
                }
            },
        }
    }

    /// The recorded task: the first failure if there was one; an error if the memory was
    /// never handed out; otherwise the task over the recorded spans, if it validates.
    pub fn finish(self, entry: u64, microcode: GbiUcode, data_format: GbiDataFormat, order: u32) -> (r: Result<Task, CaptureError>)
        ensures
            match self.log().first_error() {
                Some(e) => r == Err::<Task, CaptureError>(e),
                None => match self.log().source() {
                    None => r matches Err(e) && is_invalid(e, "task was not consumed"),
                    Some(src) => {
                        &&& r is Ok <==> source_valid(src, data_format)
                        &&& r matches Ok(task) ==> task.entry == entry && task.microcode == microcode
                            && task.data_format == data_format && task.order == order && task.source == src
                            && task.spans@ == self.log().spans() && task_valid(task)
                        &&& r matches Err(e) ==> if !layout_supported(src.memory) {
                            is_invalid(e, "unsupported memory layout")
                        } else {
                            is_invalid(e, "image layout requires fixed data and 32-bit segments")
                        }
                    },
                },
            },
    {
        proof {
            use_type_invariant(&self.log);
        }
        let log = self.log;
        match log.error {
            Some(e) => Err(e),
            None => match log.source {
                None => Err(invalid("task was not consumed")),
                Some(src) => {
                    let task = Task { entry, microcode, data_format, order, source: src, spans: log.spans };
                    proof {
                        lemma_separated_no_fault(task.spans@, 0, 0);
                    }
                    match task.validate() {
                        Ok(()) => Ok(task),
                        Err(e) => Err(e),
                    }
                },
            },
        }
    }
}

impl CaptureError {
    /// A copy of this error.
    pub fn clone_error(&self) -> (r: CaptureError)
        ensures
            r == *self,
    {
        match self {
            CaptureError::Invalid(m) => CaptureError::Invalid(m.clone()),
            CaptureError::UnsupportedBackend => CaptureError::UnsupportedBackend,
            CaptureError::MissingSpan { address, length } => CaptureError::MissingSpan {
                address: *address,
                length: *length,
            },
            CaptureError::ConflictingRead { address } => CaptureError::ConflictingRead {
                address: *address,
            },
            CaptureError::ClearPolicyMismatch => CaptureError::ClearPolicyMismatch,
            CaptureError::Gpu(m) => CaptureError::Gpu(m.clone()),
        }
    }
}


/// A valid task's spans are ordered.
pub proof fn lemma_spans_ordered_of_valid(t: Task)
    requires
        task_valid(t),
    ensures
        spans_ordered(t.spans@),
{
    lemma_spans_fault_ordered(t.spans@, 0, 0);
}


/// Host-memory segment resolution: a zero base leaves the address as it is; any other adds
/// the address's low 24 bits to the base of segment `(address >> 24) & 15`, and fails when
/// that overflows.
pub open spec fn spec_host_resolve(segments: Seq<u64>, address: u64) -> Result<u64, MemoryError> {
    let base = segments[((address >> 24u64) & 0x0fu64) as int];
    let low = address & 0x00ff_ffffu64;
    if base == 0 {
        Ok(address)
    } else if base + low > u64::MAX {
        Err(MemoryError { address, length: 0, kind: MemoryErrorKind::AddressOverflow })
    } else {
        Ok((base + low) as u64)
    }
}

/// Resolves `address` against a host segment table (see `spec_host_resolve`).
pub fn host_resolve(segments: &[u64; 16], address: u64) -> (r: Result<u64, MemoryError>)
    ensures
        r == spec_host_resolve(segments@, address),
{
    assert((address >> 24u64) & 0x0fu64 < 16) by (bit_vector);
    let i = ((address >> 24) & 0x0f) as usize;
    let base = segments[i];
    let low = address & 0x00ff_ffff;
    if base == 0 {
        Ok(address)
    } else {
        match base.checked_add(low) {
            Some(v) => Ok(v),
            None => Err(memory_error(address, 0, MemoryErrorKind::AddressOverflow)),
        }
    }
}

/// Entry `(i, 2p)` and `(i, 2p + 1)` of a host s15.16 matrix from its integer word
/// `integer[2i + p]` and fraction word `fraction[2i + p]`: the high halves, then the low
/// halves, each joined and read as signed.
pub open spec fn spec_host_fixed_entry(integer: Seq<u32>, fraction: Seq<u32>, i: int, j: int) -> i32 {
    let w = 2 * i + j / 2;
    if j % 2 == 0 {
        ((integer[w] & 0xffff_0000u32) | (fraction[w] >> 16u32)) as i32
    } else {
        (((integer[w] << 16u32) | (fraction[w] & 0xffffu32)) as u32) as i32
    }
}

/// The s15.16 matrix a host port stores as eight native integer words and eight fraction
/// words.
pub fn host_matrix_fixed(integer: &[u32; 8], fraction: &[u32; 8]) -> (r: [[i32; 4]; 4])
    ensures
        forall|i: int, j: int|
            0 <= i < 4 && 0 <= j < 4 ==> #[trigger] r@[i]@[j] == spec_host_fixed_entry(integer@, fraction@, i, j),
{
    let mut m = [[0i32; 4]; 4];
    let mut i: usize = 0;
    while i < 4
        invariant
            i <= 4,
            forall|a: int, b: int|
                0 <= a < i && 0 <= b < 4 ==> #[trigger] m@[a]@[b] == spec_host_fixed_entry(integer@, fraction@, a, b),
        decreases 4 - i,
    {
        let mut row = [0i32; 4];
        let mut p: usize = 0;
        while p < 2
            invariant
                i < 4,
                p <= 2,
                forall|b: int| 0 <= b < 2 * p ==> #[trigger] row@[b] == spec_host_fixed_entry(integer@, fraction@, i as int, b),
            decreases 2 - p,
        {
            let w = 2 * i + p;
            let int_word = integer[w];
            let frac_word = fraction[w];
            row[2 * p] = ((int_word & 0xffff_0000) | (frac_word >> 16)) as i32;
            row[2 * p + 1] = ((int_word << 16) | (frac_word & 0xffff)) as i32;
            assert forall|b: int| 0 <= b < 2 * (p + 1) implies #[trigger] row@[b] == spec_host_fixed_entry(
                integer@,
                fraction@,
                i as int,
                b,
            ) by {
                if b >= 2 * p {
                    assert(2 * (i as int) + b / 2 == w);
                }
            }
            p = p + 1;
        }
        m[i] = row;
        i = i + 1;
    }
    m
}

proof fn lemma_fixed_halves_bv(x: u32, y: u32)
    by (bit_vector)
    ensures
        (((x & 0xffff_0000u32) | (y >> 16u32)) as i32) as u32 >> 16u32 == x >> 16u32,
        (((x & 0xffff_0000u32) | (y >> 16u32)) as i32) as u32 & 0xffffu32 == y >> 16u32,
        ((((x << 16u32) | (y & 0xffffu32)) as u32) as i32) as u32 >> 16u32 == x & 0xffffu32,
        ((((x << 16u32) | (y & 0xffffu32)) as u32) as i32) as u32 & 0xffffu32 == y & 0xffffu32,
{
}

/// A host s15.16 matrix is the libultra `Mtx` layout, row-major: entries `(i, 2p)` and
/// `(i, 2p + 1)` come from integer word `2i + p` and fraction word `2i + p`, the even entry
/// taking both words' high halves (integer part above, fraction below) and the odd entry
/// both low halves.
pub proof fn lemma_host_matrix_row_major(integer: Seq<u32>, fraction: Seq<u32>, i: int, p: int)
    requires
        integer.len() == 8,
        fraction.len() == 8,
        0 <= i < 4,
        0 <= p < 2,
    ensures
        spec_host_fixed_entry(integer, fraction, i, 2 * p) as u32 >> 16u32 == integer[2 * i + p] >> 16u32,
        spec_host_fixed_entry(integer, fraction, i, 2 * p) as u32 & 0xffffu32 == fraction[2 * i + p] >> 16u32,
        spec_host_fixed_entry(integer, fraction, i, 2 * p + 1) as u32 >> 16u32 == integer[2 * i + p] & 0xffffu32,
        spec_host_fixed_entry(integer, fraction, i, 2 * p + 1) as u32 & 0xffffu32 == fraction[2 * i + p] & 0xffffu32,
{
    assert((2 * p) / 2 == p && (2 * p) % 2 == 0);
    assert((2 * p + 1) / 2 == p && (2 * p + 1) % 2 == 1);
    lemma_fixed_halves_bv(integer[2 * i + p], fraction[2 * i + p]);
}
} // verus!
