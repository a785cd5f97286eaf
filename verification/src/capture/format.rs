//! The capture container: a frame's renderer settings, provenance strings and recorded
//! tasks in one little-endian byte file.
use vstd::prelude::*;
use vstd::utf8::{encode_utf8, valid_utf8};
use crate::gbi::GbiUcode;
use crate::mem::GbiDataFormat;
use super::{
    AddressSpace, ByteOrder, CaptureError, FixedMatrixPacking, MemoryLayout, MemorySpan,
    SourceLayout, Task, invalid, is_invalid, task_valid,
};

verus! {

/// Video interface registers that select the scanout framebuffer.
#[derive(Clone, Copy, Debug, PartialEq, Eq, Structural)]
pub struct ViRegisters {
    pub status: u32,
    pub origin: u32,
    pub width: u32,
    pub x_scale: u32,
    pub y_scale: u32,
    pub h_start: u32,
    pub v_start: u32,
    pub v_current: u32,
}

/// All-zero registers.
pub open spec fn zero_vi() -> ViRegisters {
    ViRegisters {
        status: 0,
        origin: 0,
        width: 0,
        x_scale: 0,
        y_scale: 0,
        h_start: 0,
        v_start: 0,
        v_current: 0,
    }
}

impl Default for ViRegisters {
    fn default() -> (r: Self)
        ensures
            r == zero_vi(),
    {
        ViRegisters {
            status: 0,
            origin: 0,
            width: 0,
            x_scale: 0,
            y_scale: 0,
            h_start: 0,
            v_start: 0,
            v_current: 0,
        }
    }
}

/// Surface presentation mode.
#[derive(Clone, Copy, Debug, PartialEq, Eq, Structural)]
pub enum PresentMode {
    AutoVsync,
    AutoNoVsync,
    Fifo,
    FifoRelaxed,
    Immediate,
    Mailbox,
}

/// Output texture format; `Other` stands for any format capture cannot store.
#[derive(Clone, Copy, Debug, PartialEq, Eq, Structural)]
pub enum OutputFormat {
    Rgba8Unorm,
    Bgra8Unorm,
    Rgba8UnormSrgb,
    Bgra8UnormSrgb,
    Other,
}

/// Whether the internal framebuffer is cleared every frame or persists.
#[derive(Clone, Copy, Debug, PartialEq, Eq, Structural)]
pub enum ClearPolicy {
    PerFrame,
    Persist,
}

/// GPU adapter preference.
#[derive(Clone, Copy, Debug, PartialEq, Eq, Structural)]
pub enum PowerPreference {
    NoPreference,
    LowPower,
    HighPerformance,
}

/// Renderer settings a frame was captured with.
#[derive(Clone, Copy, Debug, PartialEq, Eq, Structural)]
pub struct RendererConfig {
    pub resolution_multiplier: u32,
    pub sample_count: u32,
    pub present_mode: PresentMode,
    pub format: Option<OutputFormat>,
    pub clear_policy: ClearPolicy,
    pub power_preference: PowerPreference,
}

/// Where a fixture's data came from.
#[derive(Clone, Debug, PartialEq, Eq)]
pub struct Provenance {
    pub decomp_revision: String,
    pub source_symbols: String,
    pub command_vector: String,
    pub synthetic_data: String,
}

/// One captured frame's settings.
#[derive(Clone, Debug, PartialEq, Eq)]
pub struct Frame {
    pub serial: u64,
    pub dither_seed: u32,
    pub config: RendererConfig,
    pub width: u32,
    pub height: u32,
    pub vi: Option<ViRegisters>,
    pub dual_source_blending: bool,
}

/// A captured frame: its settings, its tasks in order, and provenance.
#[derive(Clone, Debug, PartialEq, Eq)]
pub struct Fixture {
    pub frame: Frame,
    pub tasks: Vec<Task>,
    pub provenance: Provenance,
}

pub open spec fn present_code(m: PresentMode) -> u32 {
    match m {
        PresentMode::AutoVsync => 0,
        PresentMode::AutoNoVsync => 1,
        PresentMode::Fifo => 2,
        PresentMode::FifoRelaxed => 3,
        PresentMode::Immediate => 4,
        PresentMode::Mailbox => 5,
    }
}

/// The stored code of an output format; `Other` has none.
pub open spec fn format_code(f: Option<OutputFormat>) -> u32 {
    match f {
        Option::None => 0,
        Option::Some(OutputFormat::Rgba8Unorm) => 1,
        Option::Some(OutputFormat::Bgra8Unorm) => 2,
        Option::Some(OutputFormat::Rgba8UnormSrgb) => 3,
        Option::Some(OutputFormat::Bgra8UnormSrgb) => 4,
        Option::Some(OutputFormat::Other) => 5,
    }
}

pub open spec fn clear_code(c: ClearPolicy) -> u32 {
    match c {
        ClearPolicy::PerFrame => 0,
        ClearPolicy::Persist => 1,
    }
}

pub open spec fn power_code(p: PowerPreference) -> u32 {
    match p {
        PowerPreference::NoPreference => 0,
        PowerPreference::LowPower => 1,
        PowerPreference::HighPerformance => 2,
    }
}

pub open spec fn ucode_code(u: GbiUcode) -> u32 {
    match u {
        GbiUcode::F3dex2 => 0,
        GbiUcode::F3d => 1,
    }
}

pub open spec fn data_format_code(d: GbiDataFormat) -> u32 {
    match d {
        GbiDataFormat::Fixed => 0,
        GbiDataFormat::Float => 1,
    }
}

/// The eight stored bytes of a memory layout: address space, byte order, command word
/// width, command stride, matrix packing, three reserved zeros.
pub open spec fn layout_bytes(m: MemoryLayout) -> Seq<u8> {
    seq![
        match m.address_space {
            AddressSpace::Image => 0u8,
            AddressSpace::Host => 1u8,
        },
        match m.byte_order {
            ByteOrder::Big => 0u8,
            ByteOrder::Little => 1u8,
        },
        m.command_word_bytes,
        m.command_stride,
        match m.fixed_matrix_packing {
            FixedMatrixPacking::SplitHalfwords => 0u8,
            FixedMatrixPacking::PackedWords => 1u8,
        },
        0u8,
        0u8,
        0u8,
    ]
}

/// Little-endian bytes of a 32-bit value.
pub open spec fn u32_le(v: u32) -> Seq<u8> {
    seq![v as u8, (v >> 8u32) as u8, (v >> 16u32) as u8, (v >> 24u32) as u8]
}

/// Little-endian bytes of a 64-bit value.
pub open spec fn u64_le(v: u64) -> Seq<u8> {
    u32_le(v as u32) + u32_le((v >> 32u64) as u32)
}

/// A stored string: its UTF-8 byte length, then the bytes.
pub open spec fn enc_string(s: Seq<char>) -> Seq<u8> {
    u32_le(encode_utf8(s).len() as u32) + encode_utf8(s)
}

/// Little-endian bytes of a list of 32-bit values.
pub open spec fn u32s_le(vals: Seq<u32>) -> Seq<u8>
    decreases vals.len(),
{
    if vals.len() == 0 {
        Seq::empty()
    } else {
        u32s_le(vals.drop_last()) + u32_le(vals.last())
    }
}

/// The 32-bit fields of the stored frame settings after the serial: dither seed, extent,
/// resolution multiplier, sample count, present mode, output format, clear policy, power
/// preference, dual-source blending, VI presence and the eight VI registers (zeros when
/// absent).
pub open spec fn frame_words(f: Frame) -> Seq<u32> {
    let vi = match f.vi {
        Option::Some(v) => v,
        Option::None => zero_vi(),
    };
    seq![
        f.dither_seed,
        f.width,
        f.height,
        f.config.resolution_multiplier,
        f.config.sample_count,
        present_code(f.config.present_mode),
        format_code(f.config.format),
        clear_code(f.config.clear_policy),
        power_code(f.config.power_preference),
        if f.dual_source_blending {
            1u32
        } else {
            0u32
        },
        if f.vi is Some {
            1u32
        } else {
            0u32
        },
        vi.status,
        vi.origin,
        vi.width,
        vi.x_scale,
        vi.y_scale,
        vi.h_start,
        vi.v_start,
        vi.v_current,
    ]
}

/// The stored frame settings: the serial, then `frame_words`.
pub open spec fn enc_frame(f: Frame) -> Seq<u8> {
    u64_le(f.serial) + u32s_le(frame_words(f))
}

/// Total byte length of the spans.
pub open spec fn payload_len(spans: Seq<MemorySpan>) -> int
    decreases spans.len(),
{
    if spans.len() == 0 {
        0
    } else {
        payload_len(spans.drop_last()) + spans.last().bytes@.len()
    }
}

/// The span directory: address, length and payload offset of each span.
pub open spec fn enc_directory(spans: Seq<MemorySpan>) -> Seq<u8>
    decreases spans.len(),
{
    if spans.len() == 0 {
        Seq::empty()
    } else {
        enc_directory(spans.drop_last()) + u64_le(spans.last().address) + u64_le(
            spans.last().bytes@.len() as u64,
        ) + u64_le(payload_len(spans.drop_last()) as u64)
    }
}

/// The span bytes, one after another.
pub open spec fn enc_payload(spans: Seq<MemorySpan>) -> Seq<u8>
    decreases spans.len(),
{
    if spans.len() == 0 {
        Seq::empty()
    } else {
        enc_payload(spans.drop_last()) + spans.last().bytes@
    }
}

/// The fixed head of a stored task: order, microcode, data format, a reserved word, entry
/// point, memory layout and the sixteen segment bases.
pub open spec fn task_head(t: Task) -> Seq<u8> {
    u32s_le(seq![t.order, ucode_code(t.microcode), data_format_code(t.data_format), 0u32])
        + u64_le(t.entry) + layout_bytes(t.source.memory) + enc_segments(t.source.segments@, 16)
}

/// The span records of a stored task: count, reserved word, payload length, directory and
/// payload.
pub open spec fn task_spans(spans: Seq<MemorySpan>) -> Seq<u8> {
    u32s_le(seq![spans.len() as u32, 0u32]) + u64_le(payload_len(spans) as u64)
        + enc_directory(spans) + enc_payload(spans)
}

/// One stored task.
pub open spec fn enc_task(t: Task) -> Seq<u8> {
    task_head(t) + task_spans(t.spans@)
}

/// The first `n` segment bases.
pub open spec fn enc_segments(s: Seq<u64>, n: nat) -> Seq<u8>
    decreases n,
{
    if n == 0 {
        Seq::empty()
    } else {
        enc_segments(s, (n - 1) as nat) + u64_le(s[n - 1])
    }
}

/// The stored tasks, one after another.
pub open spec fn enc_tasks(ts: Seq<Task>) -> Seq<u8>
    decreases ts.len(),
{
    if ts.len() == 0 {
        Seq::empty()
    } else {
        enc_tasks(ts.drop_last()) + enc_task(ts.last())
    }
}

/// Everything after the container length: task count, reserved word, frame, provenance,
/// tasks.
pub open spec fn enc_body(f: Fixture) -> Seq<u8> {
    u32_le(f.tasks@.len() as u32) + u32_le(0) + enc_frame(f.frame) + enc_string(
        f.provenance.decomp_revision@,
    ) + enc_string(f.provenance.source_symbols@) + enc_string(f.provenance.command_vector@)
        + enc_string(f.provenance.synthetic_data@) + enc_tasks(f.tasks@)
}

/// "F3DCAP\0\0".
pub open spec fn magic() -> Seq<u8> {
    seq![0x46u8, 0x33, 0x44, 0x43, 0x41, 0x50, 0x00, 0x00]
}

/// The container: magic, version 1, byte-order mark, total length, body.
pub open spec fn enc_fixture(f: Fixture) -> Seq<u8> {
    magic() + u32_le(1) + u32_le(0x0403_0201) + u64_le((24 + enc_body(f).len()) as u64) + enc_body(f)
}

/// Whether the task list from `i` on is numbered `i, i + 1, ...` and every task validates.
pub open spec fn tasks_valid_from(ts: Seq<Task>, i: int) -> bool {
    forall|k: int| i <= k < ts.len() ==> #[trigger] ts[k].order == k && task_valid(ts[k])
}

/// A fixture `validate` accepts.
pub open spec fn fixture_valid(f: Fixture) -> bool {
    &&& 1 <= f.frame.width <= 16384
    &&& 1 <= f.frame.height <= 16384
    &&& f.tasks@.len() > 0
    &&& f.frame.config.format != Option::Some(OutputFormat::Other)
    &&& tasks_valid_from(f.tasks@, 0)
}

/// Whether every record length fits the container's 32-bit length fields.
pub open spec fn lengths_fit(f: Fixture) -> bool {
    &&& f.tasks@.len() <= u32::MAX
    &&& forall|k: int| 0 <= k < f.tasks@.len() ==> (#[trigger] f.tasks@[k]).spans@.len() <= u32::MAX
    &&& encode_utf8(f.provenance.decomp_revision@).len() <= u32::MAX
    &&& encode_utf8(f.provenance.source_symbols@).len() <= u32::MAX
    &&& encode_utf8(f.provenance.command_vector@).len() <= u32::MAX
    &&& encode_utf8(f.provenance.synthetic_data@).len() <= u32::MAX
    &&& 24 + enc_body(f).len() <= u64::MAX
}


/// The first task from `i` on that is misnumbered or does not validate, or the length.
pub open spec fn first_bad_task(ts: Seq<Task>, i: int) -> int
    decreases ts.len() - i,
{
    if i < 0 || i >= ts.len() {
        ts.len() as int
    } else if ts[i].order == i && task_valid(ts[i]) {
        first_bad_task(ts, i + 1)
    } else {
        i
    }
}

proof fn lemma_first_bad_task(ts: Seq<Task>, i: int)
    requires
        0 <= i <= ts.len(),
    ensures
        i <= first_bad_task(ts, i) <= ts.len(),
        first_bad_task(ts, i) == ts.len() <==> tasks_valid_from(ts, i),
        first_bad_task(ts, i) < ts.len() ==> !(ts[first_bad_task(ts, i)].order == first_bad_task(ts, i)
            && task_valid(ts[first_bad_task(ts, i)])),
        forall|k: int| i <= k < first_bad_task(ts, i) ==> #[trigger] ts[k].order == k && task_valid(ts[k]),
    decreases ts.len() - i,
{
    if i < ts.len() {
        lemma_first_bad_task(ts, i + 1);
    }
}

/// The error `validate` reports for an invalid fixture: the first of a bad extent, no
/// tasks, an output format capture cannot store, a misnumbered or invalid task.
pub open spec fn fixture_error(f: Fixture, e: CaptureError) -> bool {
    if !(1 <= f.frame.width <= 16384 && 1 <= f.frame.height <= 16384) {
        is_invalid(e, "output extent must be between 1 and 16384")
    } else if f.tasks@.len() == 0 {
        is_invalid(e, "frame contains no tasks")
    } else if f.frame.config.format == Option::Some(OutputFormat::Other) {
        is_invalid(e, "capture supports RGBA8 and BGRA8 outputs")
    } else {
        let k = first_bad_task(f.tasks@, 0);
        if f.tasks@[k].order != k {
            is_invalid(e, "task order is not contiguous")
        } else {
            f.tasks@[k].validate_error(e)
        }
    }
}

fn push_u32(out: &mut Vec<u8>, v: u32)
    ensures
        final(out)@ == old(out)@ + u32_le(v),
{
    out.push(v as u8);
    out.push((v >> 8u32) as u8);
    out.push((v >> 16u32) as u8);
    out.push((v >> 24u32) as u8);
    assert(final(out)@ =~= old(out)@ + u32_le(v));
}

fn push_u64(out: &mut Vec<u8>, v: u64)
    ensures
        final(out)@ == old(out)@ + u64_le(v),
{
    push_u32(out, v as u32);
    push_u32(out, (v >> 32u64) as u32);
    assert(final(out)@ =~= old(out)@ + u64_le(v));
}

fn push_bytes(out: &mut Vec<u8>, b: &[u8])
    ensures
        final(out)@ == old(out)@ + b@,
{
    let mut i: usize = 0;
    let ghost start = out@;
    while i < b.len()
        invariant
            i <= b@.len(),
            out@ == start + b@.subrange(0, i as int),
        decreases b@.len() - i,
    {
        out.push(b[i]);
        assert(out@ =~= start + b@.subrange(0, i + 1));
        i = i + 1;
    }
    assert(b@.subrange(0, b@.len() as int) =~= b@);
}

fn push_string(out: &mut Vec<u8>, s: &String)
    requires
        encode_utf8(s@).len() <= u32::MAX,
    ensures
        final(out)@ == old(out)@ + enc_string(s@),
{
    let b = s.as_str().as_bytes();
    push_u32(out, b.len() as u32);
    push_bytes(out, b);
    assert(final(out)@ =~= old(out)@ + enc_string(s@));
}

pub fn present_id(m: PresentMode) -> (r: u32)
    ensures
        r == present_code(m),
{
    match m {
        PresentMode::AutoVsync => 0,
        PresentMode::AutoNoVsync => 1,
        PresentMode::Fifo => 2,
        PresentMode::FifoRelaxed => 3,
        PresentMode::Immediate => 4,
        PresentMode::Mailbox => 5,
    }
}

/// The stored code of an output format (5 for a format capture cannot store).
pub fn format_id(f: Option<OutputFormat>) -> (r: u32)
    ensures
        r == format_code(f),
{
    match f {
        Option::None => 0,
        Option::Some(OutputFormat::Rgba8Unorm) => 1,
        Option::Some(OutputFormat::Bgra8Unorm) => 2,
        Option::Some(OutputFormat::Rgba8UnormSrgb) => 3,
        Option::Some(OutputFormat::Bgra8UnormSrgb) => 4,
        Option::Some(OutputFormat::Other) => 5,
    }
}

#[verifier::rlimit(80)]
#[verifier::spinoff_prover]
fn enc_frame_into(out: &mut Vec<u8>, f: &Frame)
    ensures
        final(out)@ == old(out)@ + enc_frame(*f),
{
    push_u64(out, f.serial);
    let vi = match f.vi {
        Option::Some(v) => v,
        Option::None => ViRegisters::default(),
    };
    let words: [u32; 19] = [
        f.dither_seed,
        f.width,
        f.height,
        f.config.resolution_multiplier,
        f.config.sample_count,
        present_id(f.config.present_mode),
        format_id(f.config.format),
        match f.config.clear_policy {
            ClearPolicy::PerFrame => 0,
            ClearPolicy::Persist => 1,
        },
        match f.config.power_preference {
            PowerPreference::NoPreference => 0,
            PowerPreference::LowPower => 1,
            PowerPreference::HighPerformance => 2,
        },
        if f.dual_source_blending {
            1
        } else {
            0
        },
        if f.vi.is_some() {
            1
        } else {
            0
        },
        vi.status,
        vi.origin,
        vi.width,
        vi.x_scale,
        vi.y_scale,
        vi.h_start,
        vi.v_start,
        vi.v_current,
    ];
    assert(words@ =~= frame_words(*f));
    push_u32s(out, &words);
}

/// Appends the little-endian bytes of each value.
fn push_u32s(out: &mut Vec<u8>, vals: &[u32])
    ensures
        final(out)@ == old(out)@ + u32s_le(vals@),
{
    let ghost start = out@;
    let mut i: usize = 0;
    while i < vals.len()
        invariant
            i <= vals@.len(),
            out@ == start + u32s_le(vals@.subrange(0, i as int)),
        decreases vals@.len() - i,
    {
        push_u32(out, vals[i]);
        assert(vals@.subrange(0, i + 1).drop_last() =~= vals@.subrange(0, i as int));
        assert(out@ =~= start + u32s_le(vals@.subrange(0, i + 1)));
        i = i + 1;
    }
    assert(vals@.subrange(0, vals@.len() as int) =~= vals@);
}

/// Spans of a validated task hold fewer bytes in all than the address space.
proof fn lemma_payload_bound(spans: Seq<MemorySpan>, n: int)
    requires
        super::spans_ordered(spans),
        0 <= n <= spans.len(),
    ensures
        payload_len(spans.subrange(0, n)) <= if n == 0 {
            0
        } else {
            super::span_end(spans[n - 1])
        },
        payload_len(spans.subrange(0, n)) >= 0,
    decreases n,
{
    if n > 0 {
        lemma_payload_bound(spans, n - 1);
        assert(spans.subrange(0, n).drop_last() =~= spans.subrange(0, n - 1));
        if n > 1 {
            assert(super::span_end(spans[n - 2]) <= spans[n - 1].address);
        }
    }
}

#[verifier::rlimit(80)]
#[verifier::spinoff_prover]
fn enc_task_into(out: &mut Vec<u8>, t: &Task)
    requires
        task_valid(*t),
        t.spans@.len() <= u32::MAX,
    ensures
        final(out)@ == old(out)@ + enc_task(*t),
{
    let ghost start = out@;
    let head: [u32; 4] = [
        t.order,
        match t.microcode {
            GbiUcode::F3dex2 => 0,
            GbiUcode::F3d => 1,
        },
        match t.data_format {
            GbiDataFormat::Fixed => 0,
            GbiDataFormat::Float => 1,
        },
        0,
    ];
    assert(head@ =~= seq![t.order, ucode_code(t.microcode), data_format_code(t.data_format), 0u32]);
    push_u32s(out, &head);
    push_u64(out, t.entry);
    let m = t.source.memory;
    let lb: [u8; 8] = [
        match m.address_space {
            AddressSpace::Image => 0,
            AddressSpace::Host => 1,
        },
        match m.byte_order {
            ByteOrder::Big => 0,
            ByteOrder::Little => 1,
        },
        m.command_word_bytes,
        m.command_stride,
        match m.fixed_matrix_packing {
            FixedMatrixPacking::SplitHalfwords => 0,
            FixedMatrixPacking::PackedWords => 1,
        },
        0,
        0,
        0,
    ];
    assert(lb@ =~= layout_bytes(m));
    push_bytes(out, lb.as_slice());
    let ghost mid = out@;
    let mut k: usize = 0;
    while k < 16
        invariant
            k <= 16,
            out@ == mid + enc_segments(t.source.segments@, k as nat),
        decreases 16 - k,
    {
        push_u64(out, t.source.segments[k]);
        assert(out@ =~= mid + enc_segments(t.source.segments@, (k + 1) as nat));
        k = k + 1;
    }
    assert(out@ =~= start + task_head(*t));
    let ghost head_end = out@;
    let cw: [u32; 2] = [t.spans.len() as u32, 0];
    assert(cw@ =~= seq![t.spans@.len() as u32, 0u32]);
    push_u32s(out, &cw);
    let ghost spans = t.spans@;
    proof {
        lemma_separated_ordered_from_valid(*t);
    }
    let mut total: u64 = 0;
    let mut i: usize = 0;
    while i < t.spans.len()
        invariant
            i <= spans.len(),
            spans == t.spans@,
            super::spans_ordered(spans),
            total == payload_len(spans.subrange(0, i as int)),
        decreases spans.len() - i,
    {
        proof {
            lemma_payload_bound(spans, i + 1);
            assert(spans.subrange(0, i + 1).drop_last() =~= spans.subrange(0, i as int));
        }
        total = total + t.spans[i].bytes.len() as u64;
        i = i + 1;
    }
    assert(spans.subrange(0, spans.len() as int) =~= spans);
    push_u64(out, total);
    let ghost dir_start = out@;
    let mut off: u64 = 0;
    let mut i: usize = 0;
    while i < t.spans.len()
        invariant
            i <= spans.len(),
            spans == t.spans@,
            super::spans_ordered(spans),
            off == payload_len(spans.subrange(0, i as int)),
            out@ == dir_start + enc_directory(spans.subrange(0, i as int)),
        decreases spans.len() - i,
    {
        proof {
            lemma_payload_bound(spans, i + 1);
            assert(spans.subrange(0, i + 1).drop_last() =~= spans.subrange(0, i as int));
        }
        let span = &t.spans[i];
        push_u64(out, span.address);
        push_u64(out, span.bytes.len() as u64);
        push_u64(out, off);
        off = off + span.bytes.len() as u64;
        assert(out@ =~= dir_start + enc_directory(spans.subrange(0, i + 1)));
        i = i + 1;
    }
    let ghost pay_start = out@;
    let mut i: usize = 0;
    while i < t.spans.len()
        invariant
            i <= spans.len(),
            spans == t.spans@,
            out@ == pay_start + enc_payload(spans.subrange(0, i as int)),
        decreases spans.len() - i,
    {
        push_bytes(out, t.spans[i].bytes.as_slice());
        assert(spans.subrange(0, i + 1).drop_last() =~= spans.subrange(0, i as int));
        assert(out@ =~= pay_start + enc_payload(spans.subrange(0, i + 1)));
        i = i + 1;
    }
    assert(out@ =~= head_end + task_spans(t.spans@));
    assert(out@ =~= old(out)@ + enc_task(*t));
}

proof fn lemma_separated_ordered_from_valid(t: Task)
    requires
        task_valid(t),
    ensures
        super::spans_ordered(t.spans@),
{
    super::lemma_spans_ordered_of_valid(t);
}

impl Fixture {
    /// Accepts a fixture with an output extent between 1 and 16384, at least one task, an
    /// output format capture can store, and tasks numbered in order that each validate.
    #[verifier::spinoff_prover]
    pub fn validate(&self) -> (r: Result<(), CaptureError>)
        ensures
            r is Ok <==> fixture_valid(*self),
            r matches Err(e) ==> fixture_error(*self, e),
    {
        proof {
            lemma_first_bad_task(self.tasks@, 0);
        }
        if self.frame.width == 0 || self.frame.height == 0 || self.frame.width > 16384
            || self.frame.height > 16384 {
            return Err(invalid("output extent must be between 1 and 16384"));
        }
        if self.tasks.len() == 0 {
            return Err(invalid("frame contains no tasks"));
        }
        if format_id(self.frame.config.format) == 5 {
            return Err(invalid("capture supports RGBA8 and BGRA8 outputs"));
        }
        let mut i: usize = 0;
        while i < self.tasks.len()
            invariant
                i <= self.tasks@.len(),
                1 <= self.frame.width <= 16384 && 1 <= self.frame.height <= 16384,
                self.tasks@.len() > 0,
                self.frame.config.format != Option::Some(OutputFormat::Other),
                forall|k: int| 0 <= k < i ==> #[trigger] self.tasks@[k].order == k && task_valid(self.tasks@[k]),
                first_bad_task(self.tasks@, 0) == first_bad_task(self.tasks@, i as int),
            decreases self.tasks@.len() - i,
        {
            let task = &self.tasks[i];
            if task.order as usize != i {
                return Err(invalid("task order is not contiguous"));
            }
            match task.validate() {
                Err(e) => {
                    return Err(e);
                },
                Ok(()) => {},
            }
            assert(self.tasks@[i as int].order == i && task_valid(self.tasks@[i as int]));
            i = i + 1;
        }
        proof {
            lemma_first_bad_task(self.tasks@, i as int);
        }
        Ok(())
    }

    /// The container bytes of a valid fixture whose record lengths fit 32 bits (see
    /// `enc_fixture`).
    pub fn to_bytes(&self) -> (r: Result<Vec<u8>, CaptureError>)
        ensures
            r is Ok <==> fixture_valid(*self) && lengths_fit(*self),
            r matches Ok(b) ==> b@ == enc_fixture(*self),
            r matches Err(e) ==> if !fixture_valid(*self) {
                fixture_error(*self, e)
            } else {
                is_invalid(e, "record length exceeds u32")
            },
    {
        match self.validate() {
            Err(e) => {
                return Err(e);
            },
            Ok(()) => {},
        }
        let strings_fit = self.provenance.decomp_revision.as_str().as_bytes().len() <= u32::MAX as usize
            && self.provenance.source_symbols.as_str().as_bytes().len() <= u32::MAX as usize
            && self.provenance.command_vector.as_str().as_bytes().len() <= u32::MAX as usize
            && self.provenance.synthetic_data.as_str().as_bytes().len() <= u32::MAX as usize;
        let mut spans_fit = true;
        let mut k: usize = 0;
        while k < self.tasks.len()
            invariant
                k <= self.tasks@.len(),
                spans_fit == forall|j: int| 0 <= j < k ==> (#[trigger] self.tasks@[j]).spans@.len() <= u32::MAX,
            decreases self.tasks@.len() - k,
        {
            if self.tasks[k].spans.len() > u32::MAX as usize {
                spans_fit = false;
            }
            k = k + 1;
        }
        if self.tasks.len() > u32::MAX as usize || !strings_fit || !spans_fit {
            return Err(invalid("record length exceeds u32"));
        }
        let mut body: Vec<u8> = Vec::new();
        push_u32(&mut body, self.tasks.len() as u32);
        push_u32(&mut body, 0);
        enc_frame_into(&mut body, &self.frame);
        push_string(&mut body, &self.provenance.decomp_revision);
        push_string(&mut body, &self.provenance.source_symbols);
        push_string(&mut body, &self.provenance.command_vector);
        push_string(&mut body, &self.provenance.synthetic_data);
        let ghost tasks_start = body@;
        let mut i: usize = 0;
        while i < self.tasks.len()
            invariant
                i <= self.tasks@.len(),
                tasks_valid_from(self.tasks@, 0),
                forall|j: int| 0 <= j < self.tasks@.len() ==> (#[trigger] self.tasks@[j]).spans@.len() <= u32::MAX,
                body@ == tasks_start + enc_tasks(self.tasks@.subrange(0, i as int)),
            decreases self.tasks@.len() - i,
        {
            assert(self.tasks@[i as int].order == i && task_valid(self.tasks@[i as int]));
            enc_task_into(&mut body, &self.tasks[i]);
            assert(self.tasks@.subrange(0, i + 1).drop_last() =~= self.tasks@.subrange(0, i as int));
            assert(body@ =~= tasks_start + enc_tasks(self.tasks@.subrange(0, i + 1)));
            i = i + 1;
        }
        assert(self.tasks@.subrange(0, self.tasks@.len() as int) =~= self.tasks@);
        assert(body@ =~= enc_body(*self));
        if body.len() as u64 > u64::MAX - 24 {
            return Err(invalid("record length exceeds u32"));
        }
        let mut out: Vec<u8> = Vec::new();
        let m: [u8; 8] = [0x46, 0x33, 0x44, 0x43, 0x41, 0x50, 0x00, 0x00];
        push_bytes(&mut out, m.as_slice());
        assert(m@ =~= magic());
        push_u32(&mut out, 1);
        push_u32(&mut out, 0x0403_0201);
        push_u64(&mut out, 24 + body.len() as u64);
        push_bytes(&mut out, body.as_slice());
        assert(out@ =~= enc_fixture(*self));
        Ok(out)
    }
}

/// `String::from_utf8` (the error dropped): claimed to return a string whose UTF-8 encoding
/// is `bytes`, and to succeed whenever `bytes` is the UTF-8 encoding of some characters.
#[verifier::external_body]
fn utf8_string(bytes: &[u8]) -> (r: Option<String>)
    ensures
        r matches Some(s) ==> encode_utf8(s@) == bytes@,
        (exists|c: Seq<char>| encode_utf8(c) == bytes@) ==> r is Some,
{
    String::from_utf8(bytes.to_vec()).ok()
}


/// Two spans with the same address and the same bytes.
pub open spec fn span_same(a: MemorySpan, b: MemorySpan) -> bool {
    a.address == b.address && a.bytes@ == b.bytes@
}

/// Two span lists that agree span by span.
pub open spec fn spans_same(a: Seq<MemorySpan>, b: Seq<MemorySpan>) -> bool {
    a.len() == b.len() && forall|k: int| 0 <= k < a.len() ==> span_same(#[trigger] a[k], b[k])
}

/// Two tasks that agree in every field, spans compared by their bytes.
pub open spec fn task_same(a: Task, b: Task) -> bool {
    &&& a.entry == b.entry
    &&& a.microcode == b.microcode
    &&& a.data_format == b.data_format
    &&& a.order == b.order
    &&& a.source.memory == b.source.memory
    &&& a.source.segments@ == b.source.segments@
    &&& spans_same(a.spans@, b.spans@)
}

/// Two fixtures that agree in every field, strings compared by their characters and
/// tasks by `task_same`.
pub open spec fn fixture_same(a: Fixture, b: Fixture) -> bool {
    &&& a.frame == b.frame
    &&& a.provenance.decomp_revision@ == b.provenance.decomp_revision@
    &&& a.provenance.source_symbols@ == b.provenance.source_symbols@
    &&& a.provenance.command_vector@ == b.provenance.command_vector@
    &&& a.provenance.synthetic_data@ == b.provenance.synthetic_data@
    &&& a.tasks@.len() == b.tasks@.len()
    &&& forall|k: int| 0 <= k < a.tasks@.len() ==> task_same(#[trigger] a.tasks@[k], b.tasks@[k])
}

/// Whether `e` stands in `b` at `pos`.
pub open spec fn holds_at(b: Seq<u8>, pos: int, e: Seq<u8>) -> bool {
    0 <= pos && pos + e.len() <= b.len() && b.subrange(pos, pos + e.len()) == e
}

proof fn lemma_holds_split(b: Seq<u8>, pos: int, e1: Seq<u8>, e2: Seq<u8>)
    requires
        holds_at(b, pos, e1 + e2),
    ensures
        holds_at(b, pos, e1),
        holds_at(b, pos + e1.len(), e2),
{
    let whole = b.subrange(pos, pos + e1.len() + e2.len());
    assert(whole == e1 + e2);
    assert(b.subrange(pos, pos + e1.len()) =~= whole.subrange(0, e1.len() as int));
    assert(whole.subrange(0, e1.len() as int) =~= e1);
    assert(b.subrange(pos + e1.len(), pos + e1.len() + e2.len()) =~= whole.subrange(
        e1.len() as int,
        (e1.len() + e2.len()) as int,
    ));
    assert(whole.subrange(e1.len() as int, (e1.len() + e2.len()) as int) =~= e2);
}

proof fn lemma_holds_join(b: Seq<u8>, pos: int, e1: Seq<u8>, e2: Seq<u8>)
    requires
        holds_at(b, pos, e1),
        holds_at(b, pos + e1.len(), e2),
    ensures
        holds_at(b, pos, e1 + e2),
{
    assert(b.subrange(pos, pos + e1.len() + e2.len()) =~= b.subrange(pos, pos + e1.len()) + b.subrange(
        pos + e1.len(),
        pos + e1.len() + e2.len(),
    ));
}

proof fn lemma_u32_le_inj(a: u32, c: u32)
    requires
        u32_le(a) == u32_le(c),
    ensures
        a == c,
{
    assert(u32_le(a)[0] == u32_le(c)[0] && u32_le(a)[1] == u32_le(c)[1] && u32_le(a)[2] == u32_le(c)[2]
        && u32_le(a)[3] == u32_le(c)[3]);
    assert(a == c) by (bit_vector)
        requires
            a as u8 == c as u8,
            (a >> 8u32) as u8 == (c >> 8u32) as u8,
            (a >> 16u32) as u8 == (c >> 16u32) as u8,
            (a >> 24u32) as u8 == (c >> 24u32) as u8,
    ;
}

proof fn lemma_u64_le_inj(a: u64, c: u64)
    requires
        u64_le(a) == u64_le(c),
    ensures
        a == c,
{
    assert(u32_le(a as u32) =~= u64_le(a).subrange(0, 4));
    assert(u32_le(c as u32) =~= u64_le(c).subrange(0, 4));
    assert(u32_le((a >> 32u64) as u32) =~= u64_le(a).subrange(4, 8));
    assert(u32_le((c >> 32u64) as u32) =~= u64_le(c).subrange(4, 8));
    lemma_u32_le_inj(a as u32, c as u32);
    lemma_u32_le_inj((a >> 32u64) as u32, (c >> 32u64) as u32);
    assert(a == c) by (bit_vector)
        requires
            a as u32 == c as u32,
            (a >> 32u64) as u32 == (c >> 32u64) as u32,
    ;
}

proof fn lemma_u32s_le_len(v: Seq<u32>)
    ensures
        u32s_le(v).len() == 4 * v.len(),
    decreases v.len(),
{
    if v.len() > 0 {
        lemma_u32s_le_len(v.drop_last());
    }
}

proof fn lemma_u32s_le_inj(a: Seq<u32>, c: Seq<u32>)
    requires
        a.len() == c.len(),
        u32s_le(a) == u32s_le(c),
    ensures
        a == c,
    decreases a.len(),
{
    if a.len() > 0 {
        lemma_u32s_le_len(a.drop_last());
        lemma_u32s_le_len(c.drop_last());
        let e = u32s_le(a);
        assert(e.subrange(0, e.len() as int) =~= e);
        lemma_holds_split(e, 0, u32s_le(a.drop_last()), u32_le(a.last()));
        lemma_holds_split(e, 0, u32s_le(c.drop_last()), u32_le(c.last()));
        lemma_u32s_le_inj(a.drop_last(), c.drop_last());
        lemma_u32_le_inj(a.last(), c.last());
        assert(a =~= a.drop_last().push(a.last()));
        assert(c =~= c.drop_last().push(c.last()));
    }
}

proof fn lemma_utf8_inj(a: Seq<char>, c: Seq<char>)
    requires
        encode_utf8(a) == encode_utf8(c),
    ensures
        a == c,
{
    vstd::utf8::encode_utf8_decode_utf8(a);
    vstd::utf8::encode_utf8_decode_utf8(c);
}

proof fn lemma_holds_within(b: Seq<u8>, pos: int, e: Seq<u8>, k: int, f: Seq<u8>)
    requires
        holds_at(b, pos, e),
        holds_at(e, k, f),
    ensures
        holds_at(b, pos + k, f),
{
    assert(b.subrange(pos + k, pos + k + f.len()) =~= b.subrange(pos, pos + e.len()).subrange(k, k + f.len()));
}

proof fn lemma_holds_whole(e: Seq<u8>)
    ensures
        holds_at(e, 0, e),
{
    assert(e.subrange(0, e.len() as int) =~= e);
}

/// Where segment base `k` stands in the encoding of the first `n`.
proof fn lemma_enc_segments_at(s: Seq<u64>, n: nat, k: int)
    requires
        0 <= k < n,
    ensures
        enc_segments(s, n).len() == 8 * n,
        holds_at(enc_segments(s, n), 8 * k, u64_le(s[k])),
    decreases n,
{
    lemma_enc_segments_len(s, (n - 1) as nat);
    let e = enc_segments(s, n);
    lemma_holds_whole(e);
    lemma_holds_split(e, 0, enc_segments(s, (n - 1) as nat), u64_le(s[n - 1]));
    if k < n - 1 {
        lemma_enc_segments_at(s, (n - 1) as nat, k);
        lemma_holds_within(e, 0, enc_segments(s, (n - 1) as nat), 8 * k, u64_le(s[k]));
    }
}

proof fn lemma_enc_segments_len(s: Seq<u64>, n: nat)
    ensures
        enc_segments(s, n).len() == 8 * n,
    decreases n,
{
    if n > 0 {
        lemma_enc_segments_len(s, (n - 1) as nat);
    }
}

/// Equal encodings of sixteen segment bases are equal bases.
proof fn lemma_enc_segments_inj(a: Seq<u64>, c: Seq<u64>)
    requires
        a.len() == 16,
        c.len() == 16,
        enc_segments(a, 16) == enc_segments(c, 16),
    ensures
        a == c,
{
    assert forall|k: int| 0 <= k < 16 implies a[k] == c[k] by {
        lemma_enc_segments_at(a, 16, k);
        lemma_enc_segments_at(c, 16, k);
        lemma_u64_le_inj(a[k], c[k]);
    }
    assert(a =~= c);
}

/// The directory record of span `j`.
pub open spec fn dir_entry(s: Seq<MemorySpan>, j: int) -> Seq<u8> {
    u64_le(s[j].address) + u64_le(s[j].bytes@.len() as u64) + u64_le(payload_len(s.subrange(0, j)) as u64)
}

proof fn lemma_directory_entry(s: Seq<MemorySpan>, j: int)
    requires
        0 <= j < s.len(),
    ensures
        enc_directory(s).len() == 24 * s.len(),
        holds_at(enc_directory(s), 24 * j, dir_entry(s, j)),
    decreases s.len(),
{
    let d = s.drop_last();
    lemma_directory_len(d);
    let e = enc_directory(s);
    assert(d =~= s.subrange(0, s.len() - 1));
    assert(e =~= enc_directory(d) + dir_entry(s, s.len() - 1));
    lemma_holds_whole(e);
    lemma_holds_split(e, 0, enc_directory(d), dir_entry(s, s.len() - 1));
    if j < s.len() - 1 {
        lemma_directory_entry(d, j);
        assert(d.subrange(0, j) =~= s.subrange(0, j));
        assert(dir_entry(d, j) == dir_entry(s, j));
        lemma_holds_within(e, 0, enc_directory(d), 24 * j, dir_entry(s, j));
    }
}

proof fn lemma_directory_len(s: Seq<MemorySpan>)
    ensures
        enc_directory(s).len() == 24 * s.len(),
    decreases s.len(),
{
    if s.len() > 0 {
        lemma_directory_len(s.drop_last());
    }
}

proof fn lemma_payload_len(s: Seq<MemorySpan>)
    ensures
        enc_payload(s).len() == payload_len(s),
        payload_len(s) >= 0,
    decreases s.len(),
{
    if s.len() > 0 {
        lemma_payload_len(s.drop_last());
    }
}

/// Where the bytes of span `j` stand in the payload.
proof fn lemma_payload_piece(s: Seq<MemorySpan>, j: int)
    requires
        0 <= j < s.len(),
    ensures
        payload_len(s.subrange(0, j + 1)) == payload_len(s.subrange(0, j)) + s[j].bytes@.len(),
        payload_len(s.subrange(0, j)) >= 0,
        payload_len(s.subrange(0, j + 1)) <= payload_len(s),
        holds_at(enc_payload(s), payload_len(s.subrange(0, j)), s[j].bytes@),
    decreases s.len(),
{
    let d = s.drop_last();
    lemma_payload_len(d);
    lemma_payload_len(s.subrange(0, j));
    let e = enc_payload(s);
    lemma_holds_whole(e);
    lemma_holds_split(e, 0, enc_payload(d), s.last().bytes@);
    assert(s.subrange(0, j + 1).drop_last() =~= s.subrange(0, j));
    if j == s.len() - 1 {
        assert(d =~= s.subrange(0, j));
        assert(s.subrange(0, j + 1) =~= s);
    } else {
        lemma_payload_piece(d, j);
        assert(d.subrange(0, j) =~= s.subrange(0, j));
        assert(d.subrange(0, j + 1) =~= s.subrange(0, j + 1));
        lemma_holds_within(e, 0, enc_payload(d), payload_len(s.subrange(0, j)), s[j].bytes@);
    }
}

/// Spans that agree have the same payload length.
proof fn lemma_spans_same_payload(a: Seq<MemorySpan>, c: Seq<MemorySpan>)
    requires
        spans_same(a, c),
    ensures
        payload_len(a) == payload_len(c),
    decreases a.len(),
{
    if a.len() > 0 {
        assert(span_same(a[a.len() - 1], c[c.len() - 1]));
        assert(spans_same(a.drop_last(), c.drop_last())) by {
            assert forall|k: int| 0 <= k < a.drop_last().len() implies span_same(
                #[trigger] a.drop_last()[k],
                c.drop_last()[k],
            ) by {
                assert(span_same(a[k], c[k]));
            }
        }
        lemma_spans_same_payload(a.drop_last(), c.drop_last());
    }
}

/// Spans that agree fault alike.
proof fn lemma_spans_same_fault(a: Seq<MemorySpan>, c: Seq<MemorySpan>, i: int, end: int)
    requires
        spans_same(a, c),
    ensures
        super::spans_fault(a, i, end) == super::spans_fault(c, i, end),
    decreases a.len() - i,
{
    if 0 <= i < a.len() {
        assert(span_same(a[i], c[i]));
        lemma_spans_same_fault(a, c, i + 1, super::span_end(a[i]));
    }
}

/// Tasks that agree validate alike.
proof fn lemma_task_same_valid(u: Task, t: Task)
    requires
        task_same(u, t),
    ensures
        task_valid(u) == task_valid(t),
{
    lemma_spans_same_fault(u.spans@, t.spans@, 0, 0);
}

/// Whether task `t`, valid and with a 32-bit span count, stands stored in `b` at `pos`.
pub open spec fn task_at(b: Seq<u8>, pos: int, t: Task) -> bool {
    task_valid(t) && t.spans@.len() <= u32::MAX && holds_at(b, pos, enc_task(t))
}

/// The pieces of a stored task's fixed head and where each stands.
pub open spec fn head_parts(b: Seq<u8>, pos: int, t: Task) -> bool {
    &&& holds_at(b, pos, u32_le(t.order))
    &&& holds_at(b, pos + 4, u32_le(ucode_code(t.microcode)))
    &&& holds_at(b, pos + 8, u32_le(data_format_code(t.data_format)))
    &&& holds_at(b, pos + 12, u32_le(0))
    &&& holds_at(b, pos + 16, u64_le(t.entry))
    &&& holds_at(b, pos + 24, layout_bytes(t.source.memory))
    &&& holds_at(b, pos + 32, enc_segments(t.source.segments@, 16))
    &&& enc_segments(t.source.segments@, 16).len() == 128
    &&& layout_supported_of(t)
}

/// The pieces of a stored task and where each stands.
pub open spec fn task_parts(b: Seq<u8>, pos: int, t: Task) -> bool {
    &&& head_parts(b, pos, t)
    &&& enc_task(t).len() == 160 + task_spans(t.spans@).len()
    &&& spans_at(b, pos + 160, t.spans@)
}

/// The layout of `t` is supported.
pub open spec fn layout_supported_of(t: Task) -> bool {
    super::layout_supported(t.source.memory)
}

#[verifier::rlimit(60)]
#[verifier::spinoff_prover]
proof fn lemma_task_at_parts(b: Seq<u8>, pos: int, t: Task)
    requires
        task_at(b, pos, t),
    ensures
        task_parts(b, pos, t),
{
    let sp = t.spans@;
    let n = sp.len();
    let h4: Seq<u32> = seq![t.order, ucode_code(t.microcode), data_format_code(t.data_format), 0u32];
    assert(u32s_le(h4) =~= u32_le(t.order) + u32_le(ucode_code(t.microcode)) + u32_le(
        data_format_code(t.data_format),
    ) + u32_le(0)) by {
        reveal_with_fuel(u32s_le, 5);
        assert(h4.drop_last().drop_last().drop_last().drop_last() =~= Seq::<u32>::empty());
        assert(h4.drop_last().drop_last().drop_last() =~= seq![t.order]);
        assert(h4.drop_last().drop_last() =~= seq![t.order, ucode_code(t.microcode)]);
        assert(h4.drop_last() =~= seq![t.order, ucode_code(t.microcode), data_format_code(t.data_format)]);
    }
    let cw: Seq<u32> = seq![n as u32, 0u32];
    assert(u32s_le(cw) =~= u32_le(n as u32) + u32_le(0)) by {
        reveal_with_fuel(u32s_le, 3);
        assert(cw.drop_last() =~= seq![n as u32]);
        assert(cw.drop_last().drop_last() =~= Seq::<u32>::empty());
    }
    lemma_enc_segments_len(t.source.segments@, 16);
    lemma_directory_len(sp);
    lemma_payload_len(sp);
    super::lemma_spans_ordered_of_valid(t);
    lemma_payload_bound(sp, n as int);
    assert(sp.subrange(0, n as int) =~= sp);
    let head = task_head(t);
    let tail = task_spans(sp);
    lemma_holds_split(b, pos, head, tail);
    let a1 = u32s_le(h4);
    let a2 = u64_le(t.entry);
    let a3 = layout_bytes(t.source.memory);
    let a4 = enc_segments(t.source.segments@, 16);
    lemma_holds_split(b, pos, a1 + a2 + a3, a4);
    lemma_holds_split(b, pos, a1 + a2, a3);
    lemma_holds_split(b, pos, a1, a2);
    lemma_holds_split(b, pos, u32_le(t.order) + u32_le(ucode_code(t.microcode)) + u32_le(
        data_format_code(t.data_format),
    ), u32_le(0));
    lemma_holds_split(b, pos, u32_le(t.order) + u32_le(ucode_code(t.microcode)), u32_le(
        data_format_code(t.data_format),
    ));
    lemma_holds_split(b, pos, u32_le(t.order), u32_le(ucode_code(t.microcode)));
    let h = pos + 160;
    let c1 = u32s_le(cw);
    let c2 = u64_le(payload_len(sp) as u64);
    let c3 = enc_directory(sp);
    let c4 = enc_payload(sp);
    lemma_holds_split(b, h, c1 + c2 + c3, c4);
    lemma_holds_split(b, h, c1 + c2, c3);
    lemma_holds_split(b, h, c1, c2);
    lemma_holds_split(b, h, u32_le(n as u32), u32_le(0));
}

/// Whether the span records of `sp`, with a 32-bit count and a 64-bit payload length,
/// stand in `b` at `pos`.
pub open spec fn spans_at(b: Seq<u8>, pos: int, sp: Seq<MemorySpan>) -> bool {
    sp.len() <= u32::MAX && payload_len(sp) <= u64::MAX && holds_at(b, pos, task_spans(sp))
}

/// The pieces of stored span records and where each stands.
pub open spec fn spans_parts(b: Seq<u8>, pos: int, sp: Seq<MemorySpan>) -> bool {
    let n = sp.len();
    &&& holds_at(b, pos, u32_le(n as u32))
    &&& holds_at(b, pos + 4, u32_le(0))
    &&& holds_at(b, pos + 8, u64_le(payload_len(sp) as u64))
    &&& holds_at(b, pos + 16, enc_directory(sp))
    &&& enc_directory(sp).len() == 24 * n
    &&& holds_at(b, pos + 16 + 24 * n, enc_payload(sp))
    &&& enc_payload(sp).len() == payload_len(sp)
    &&& 0 <= payload_len(sp) <= u64::MAX
    &&& task_spans(sp).len() == 16 + 24 * n + payload_len(sp)
}

proof fn lemma_spans_at_parts(b: Seq<u8>, pos: int, sp: Seq<MemorySpan>)
    requires
        spans_at(b, pos, sp),
    ensures
        spans_parts(b, pos, sp),
{
    let n = sp.len();
    let cw: Seq<u32> = seq![n as u32, 0u32];
    assert(u32s_le(cw) =~= u32_le(n as u32) + u32_le(0)) by {
        reveal_with_fuel(u32s_le, 3);
        assert(cw.drop_last() =~= seq![n as u32]);
        assert(cw.drop_last().drop_last() =~= Seq::<u32>::empty());
    }
    lemma_directory_len(sp);
    lemma_payload_len(sp);
    let c1 = u32s_le(cw);
    let c2 = u64_le(payload_len(sp) as u64);
    let c3 = enc_directory(sp);
    let c4 = enc_payload(sp);
    lemma_holds_split(b, pos, c1 + c2 + c3, c4);
    lemma_holds_split(b, pos, c1 + c2, c3);
    lemma_holds_split(b, pos, c1, c2);
    lemma_holds_split(b, pos, u32_le(n as u32), u32_le(0));
}

/// Round trip of the container: the bytes `to_bytes` writes for a valid fixture whose record
/// lengths fit (`enc_fixture`) are bytes on which `from_bytes` succeeds with a fixture that
/// agrees with it in every field (`fixture_same`).
pub proof fn lemma_written_container_reads_back(f: Fixture)
    requires
        fixture_valid(f),
        lengths_fit(f),
    ensures
        fixture_at(enc_fixture(f), f),
{
}

/// The container starts with the magic "F3DCAP\0\0", version 1 and the byte-order tag
/// `01 02 03 04`, followed by its own total length, little-endian.
#[verifier::spinoff_prover]
#[verifier::rlimit(60)]
pub proof fn lemma_container_header(f: Fixture)
    requires
        24 + enc_body(f).len() <= u64::MAX,
    ensures
        enc_fixture(f).subrange(0, 16) == magic() + header_words(),
        header_words() == seq![1u8, 0, 0, 0, 1, 2, 3, 4],
        enc_fixture(f).subrange(16, 24) == u64_le(enc_fixture(f).len() as u64),
{
    let b = enc_fixture(f);
    lemma_fixture_head(b, f);
    assert(b.subrange(0, 16) =~= b.subrange(0, 8) + b.subrange(8, 12) + b.subrange(12, 16));
    lemma_header_words();
}

/// Version 1 and the byte-order tag, as stored.
pub open spec fn header_words() -> Seq<u8> {
    u32_le(1) + u32_le(0x0403_0201)
}

proof fn lemma_header_words()
    ensures
        header_words() == seq![1u8, 0, 0, 0, 1, 2, 3, 4],
{
    assert((0x0403_0201u32 >> 8u32) as u8 == 2 && (0x0403_0201u32 >> 16u32) as u8 == 3
        && (0x0403_0201u32 >> 24u32) as u8 == 4 && 0x0403_0201u32 as u8 == 1 && 1u32 as u8 == 1
        && (1u32 >> 8u32) as u8 == 0 && (1u32 >> 16u32) as u8 == 0 && (1u32 >> 24u32) as u8 == 0)
        by (bit_vector);
    assert(header_words() =~= seq![1u8, 0, 0, 0, 1, 2, 3, 4]);
}

/// Whether `b` is the container of `f`, a valid fixture whose record lengths fit.
pub open spec fn fixture_at(b: Seq<u8>, f: Fixture) -> bool {
    fixture_valid(f) && lengths_fit(f) && enc_fixture(f) == b
}

/// Where the provenance strings of `f` start in its container, and where its tasks start.
pub open spec fn string_starts(f: Fixture) -> (int, int, int, int, int) {
    let s1 = 116int;
    let s2 = s1 + enc_string(f.provenance.decomp_revision@).len();
    let s3 = s2 + enc_string(f.provenance.source_symbols@).len();
    let s4 = s3 + enc_string(f.provenance.command_vector@).len();
    let s5 = s4 + enc_string(f.provenance.synthetic_data@).len();
    (s1, s2, s3, s4, s5)
}

/// The pieces of a container and where each stands.
pub open spec fn fixture_parts(b: Seq<u8>, f: Fixture) -> bool {
    let (s1, s2, s3, s4, s5) = string_starts(f);
    &&& holds_at(b, 0, magic())
    &&& holds_at(b, 8, u32_le(1))
    &&& holds_at(b, 12, u32_le(0x0403_0201))
    &&& holds_at(b, 16, u64_le(b.len() as u64))
    &&& b.len() <= u64::MAX
    &&& holds_at(b, 24, u32_le(f.tasks@.len() as u32))
    &&& holds_at(b, 28, u32_le(0))
    &&& frame_at(b, 32, f.frame)
    &&& enc_frame(f.frame).len() == 84
    &&& holds_at(b, s1, enc_string(f.provenance.decomp_revision@))
    &&& holds_at(b, s2, enc_string(f.provenance.source_symbols@))
    &&& holds_at(b, s3, enc_string(f.provenance.command_vector@))
    &&& holds_at(b, s4, enc_string(f.provenance.synthetic_data@))
    &&& holds_at(b, s5, enc_tasks(f.tasks@))
    &&& s5 + enc_tasks(f.tasks@).len() == b.len()
}

proof fn lemma_fixture_parts(b: Seq<u8>, f: Fixture)
    requires
        fixture_at(b, f),
    ensures
        fixture_parts(b, f),
{
    lemma_fixture_head(b, f);
    lemma_fixture_body(b, f);
}

#[verifier::spinoff_prover]
proof fn lemma_fixture_head(b: Seq<u8>, f: Fixture)
    requires
        b == enc_fixture(f),
        24 + enc_body(f).len() <= u64::MAX,
    ensures
        holds_at(b, 0, magic()),
        holds_at(b, 8, u32_le(1)),
        holds_at(b, 12, u32_le(0x0403_0201)),
        holds_at(b, 16, u64_le(b.len() as u64)),
        b.len() <= u64::MAX,
        holds_at(b, 24, enc_body(f)),
        b.len() == 24 + enc_body(f).len(),
{
    let body = enc_body(f);
    let h = magic() + u32_le(1) + u32_le(0x0403_0201) + u64_le((24 + body.len()) as u64);
    lemma_holds_whole(b);
    lemma_holds_split(b, 0, h, body);
    lemma_holds_split(b, 0, magic() + u32_le(1) + u32_le(0x0403_0201), u64_le((24 + body.len()) as u64));
    lemma_holds_split(b, 0, magic() + u32_le(1), u32_le(0x0403_0201));
    lemma_holds_split(b, 0, magic(), u32_le(1));
}

#[verifier::spinoff_prover]
proof fn lemma_fixture_body(b: Seq<u8>, f: Fixture)
    requires
        holds_at(b, 24, enc_body(f)),
        b.len() == 24 + enc_body(f).len(),
    ensures
        ({
            let (s1, s2, s3, s4, s5) = string_starts(f);
            &&& holds_at(b, 24, u32_le(f.tasks@.len() as u32))
            &&& holds_at(b, 28, u32_le(0))
            &&& holds_at(b, 32, enc_frame(f.frame))
            &&& enc_frame(f.frame).len() == 84
            &&& holds_at(b, s1, enc_string(f.provenance.decomp_revision@))
            &&& holds_at(b, s2, enc_string(f.provenance.source_symbols@))
            &&& holds_at(b, s3, enc_string(f.provenance.command_vector@))
            &&& holds_at(b, s4, enc_string(f.provenance.synthetic_data@))
            &&& holds_at(b, s5, enc_tasks(f.tasks@))
            &&& s5 + enc_tasks(f.tasks@).len() == b.len()
        }),
{
    let fr = enc_frame(f.frame);
    lemma_u32s_le_len(frame_words(f.frame));
    let e1 = enc_string(f.provenance.decomp_revision@);
    let e2 = enc_string(f.provenance.source_symbols@);
    let e3 = enc_string(f.provenance.command_vector@);
    let e4 = enc_string(f.provenance.synthetic_data@);
    let ts = enc_tasks(f.tasks@);
    let c0 = u32_le(f.tasks@.len() as u32) + u32_le(0);
    lemma_holds_split(b, 24, c0 + fr + e1 + e2 + e3 + e4, ts);
    lemma_holds_split(b, 24, c0 + fr + e1 + e2 + e3, e4);
    lemma_holds_split(b, 24, c0 + fr + e1 + e2, e3);
    lemma_holds_split(b, 24, c0 + fr + e1, e2);
    lemma_holds_split(b, 24, c0 + fr, e1);
    lemma_holds_split(b, 24, c0, fr);
    lemma_holds_split(b, 24, u32_le(f.tasks@.len() as u32), u32_le(0));
}

/// Where task `i` stands in the stored task list.
proof fn lemma_enc_tasks_at(b: Seq<u8>, s: int, ts: Seq<Task>, i: int)
    requires
        holds_at(b, s, enc_tasks(ts)),
        0 <= i < ts.len(),
    ensures
        holds_at(b, s + enc_tasks(ts.subrange(0, i)).len(), enc_task(ts[i])),
        enc_tasks(ts.subrange(0, i + 1)).len() == enc_tasks(ts.subrange(0, i)).len() + enc_task(ts[i]).len(),
    decreases ts.len(),
{
    let d = ts.drop_last();
    lemma_holds_split(b, s, enc_tasks(d), enc_task(ts.last()));
    assert(ts.subrange(0, i + 1).drop_last() =~= ts.subrange(0, i));
    if i == ts.len() - 1 {
        assert(d =~= ts.subrange(0, i));
    } else {
        lemma_enc_tasks_at(b, s, d, i);
        assert(d.subrange(0, i) =~= ts.subrange(0, i));
    }
}

/// What reading the container of `f` relies on: the frame, the provenance and the tasks,
/// each where it stands, and the tasks running to the end.
pub open spec fn fixture_pieces(b: Seq<u8>, f: Fixture) -> bool {
    let s5 = string_starts(f).4;
    &&& frame_at(b, 32, f.frame)
    &&& enc_frame(f.frame).len() == 84
    &&& provenance_at(b, 116, f.provenance)
    &&& s5 == 116 + provenance_len(f.provenance)
    &&& tasks_at(b, s5, f.tasks@)
    &&& s5 + enc_tasks(f.tasks@).len() == b.len()
    &&& f.tasks@.len() <= u32::MAX
}

proof fn lemma_fixture_pieces(b: Seq<u8>, x: Fixture)
    requires
        fixture_at(b, x),
    ensures
        fixture_pieces(b, x),
{
    lemma_fixture_parts(b, x);
    let e1 = enc_string(x.provenance.decomp_revision@);
    let e2 = enc_string(x.provenance.source_symbols@);
    let e3 = enc_string(x.provenance.command_vector@);
    let e4 = enc_string(x.provenance.synthetic_data@);
    lemma_holds_join(b, 116, e1, e2);
    lemma_holds_join(b, 116, e1 + e2, e3);
    lemma_holds_join(b, 116, e1 + e2 + e3, e4);
    assert forall|k: int| 0 <= k < x.tasks@.len() implies task_valid(#[trigger] x.tasks@[k])
        && x.tasks@[k].spans@.len() <= u32::MAX by {
        assert(x.tasks@[k].order == k && task_valid(x.tasks@[k]));
    }
}

/// A fixture that agrees with a valid one is valid.
proof fn lemma_same_fixture_valid(g: Fixture, x: Fixture)
    requires
        fixture_valid(x),
        g.frame == x.frame,
        g.tasks@.len() == x.tasks@.len(),
        forall|k: int| 0 <= k < x.tasks@.len() ==> #[trigger] task_same(g.tasks@[k], x.tasks@[k]),
    ensures
        fixture_valid(g),
{
    assert forall|k: int| 0 <= k < g.tasks@.len() implies #[trigger] g.tasks@[k].order == k && task_valid(
        g.tasks@[k],
    ) by {
        assert(task_same(g.tasks@[k], x.tasks@[k]));
        assert(x.tasks@[k].order == k && task_valid(x.tasks@[k]));
        lemma_task_same_valid(g.tasks@[k], x.tasks@[k]);
    }
}

/// Every error `validate` reports is `Invalid`.
proof fn lemma_fixture_error_invalid(f: Fixture, e: CaptureError)
    requires
        fixture_error(f, e),
    ensures
        e is Invalid,
{
}

/// A container read piece by piece encodes the fixture assembled from the pieces.
proof fn lemma_container_assembled(bytes: Seq<u8>, fixture: Fixture, b2: int, b3: int, b7: int)
    requires
        b2 == 32,
        b2 <= b3 <= b7 <= bytes.len(),
        bytes.len() <= u64::MAX,
        bytes.subrange(0, 24) == magic() + u32_le(1) + u32_le(0x0403_0201) + u64_le(bytes.len() as u64),
        bytes.subrange(24, 32) == u32_le(fixture.tasks@.len() as u32) + u32_le(0),
        fixture.tasks@.len() <= u32::MAX,
        bytes.subrange(b2, b3) == enc_frame(fixture.frame),
        bytes.subrange(b3, b7) == enc_string(fixture.provenance.decomp_revision@) + enc_string(
            fixture.provenance.source_symbols@,
        ) + enc_string(fixture.provenance.command_vector@) + enc_string(fixture.provenance.synthetic_data@),
        bytes.subrange(b7, bytes.len() as int) == enc_tasks(fixture.tasks@),
    ensures
        bytes == enc_fixture(fixture),
{
    let body = bytes.subrange(24, bytes.len() as int);
    assert(body =~= bytes.subrange(24, b2) + bytes.subrange(b2, b3) + bytes.subrange(b3, b7) + bytes.subrange(
        b7,
        bytes.len() as int,
    ));
    assert(body =~= enc_body(fixture));
    assert(bytes =~= bytes.subrange(0, 24) + body);
    assert(bytes =~= enc_fixture(fixture));
}

fn truncated() -> (r: CaptureError)
    ensures
        is_invalid(r, "truncated record"),
{
    invalid("truncated record")
}

/// The 32-bit value stored little-endian at `pos`, and the position after it.
fn rd_u32(b: &[u8], pos: usize) -> (r: Result<(u32, usize), CaptureError>)
    ensures
        r matches Err(e) ==> e is Invalid,
        r is Ok <==> pos + 4 <= b@.len(),
        r matches Ok((v, p)) ==> p == pos + 4 && b@.subrange(pos as int, p as int) == u32_le(v),
        forall|x: u32| #[trigger] holds_at(b@, pos as int, u32_le(x)) ==> r == Ok::<(u32, usize), CaptureError>(
            (x, (pos + 4) as usize),
        ),
{
    if pos > b.len() || b.len() - pos < 4 {
        return Err(truncated());
    }
    let b0 = b[pos];
    let b1 = b[pos + 1];
    let b2 = b[pos + 2];
    let b3 = b[pos + 3];
    let v = (b0 as u32) | ((b1 as u32) << 8u32) | ((b2 as u32) << 16u32) | ((b3 as u32) << 24u32);
    assert(v as u8 == b0 && (v >> 8u32) as u8 == b1 && (v >> 16u32) as u8 == b2 && (v >> 24u32) as u8 == b3)
        by (bit_vector)
        requires
            v == (b0 as u32) | ((b1 as u32) << 8u32) | ((b2 as u32) << 16u32) | ((b3 as u32) << 24u32),
    ;
    assert(b@.subrange(pos as int, pos + 4) =~= u32_le(v));
    assert forall|x: u32| #[trigger] holds_at(b@, pos as int, u32_le(x)) implies x == v by {
        lemma_u32_le_inj(x, v);
    }
    Ok((v, pos + 4))
}

/// The 64-bit value stored little-endian at `pos`, and the position after it.
fn rd_u64(b: &[u8], pos: usize) -> (r: Result<(u64, usize), CaptureError>)
    ensures
        r matches Err(e) ==> e is Invalid,
        r is Ok <==> pos + 8 <= b@.len(),
        r matches Ok((v, p)) ==> p == pos + 8 && b@.subrange(pos as int, p as int) == u64_le(v),
        forall|x: u64| #[trigger] holds_at(b@, pos as int, u64_le(x)) ==> r == Ok::<(u64, usize), CaptureError>(
            (x, (pos + 8) as usize),
        ),
{
    let (lo, p1) = rd_u32(b, pos)?;
    let (hi, p2) = rd_u32(b, p1)?;
    let v = (lo as u64) | ((hi as u64) << 32u64);
    assert(v as u32 == lo && (v >> 32u64) as u32 == hi) by (bit_vector)
        requires
            v == (lo as u64) | ((hi as u64) << 32u64),
    ;
    assert(b@.subrange(pos as int, p2 as int) =~= b@.subrange(pos as int, p1 as int) + b@.subrange(p1 as int, p2 as int));
    assert forall|x: u64| #[trigger] holds_at(b@, pos as int, u64_le(x)) implies x == v by {
        lemma_u64_le_inj(x, v);
    }
    Ok((v, p2))
}

/// The end of the `n` bytes at `pos`.
fn rd_take(b: &[u8], pos: usize, n: u64) -> (r: Result<usize, CaptureError>)
    requires
        pos <= b@.len(),
    ensures
        r matches Err(e) ==> e is Invalid,
        r is Ok <==> pos + n <= b@.len(),
        r matches Ok(p) ==> p == pos + n,
{
    if n > (b.len() - pos) as u64 {
        return Err(truncated());
    }
    Ok(pos + n as usize)
}

/// A stored string at `pos`, and the position after it.
fn rd_string(b: &[u8], pos: usize) -> (r: Result<(String, usize), CaptureError>)
    ensures
        r matches Err(e) ==> e is Invalid,
        r matches Ok((s, p)) ==> pos <= p <= b@.len() && b@.subrange(pos as int, p as int) == enc_string(s@)
            && encode_utf8(s@).len() <= u32::MAX,
        forall|c: Seq<char>| encode_utf8(c).len() <= u32::MAX && #[trigger] holds_at(b@, pos as int, enc_string(c))
            ==> (r matches Ok((s, p)) && s@ == c && p == pos + enc_string(c).len()),
{
    let (n, p1) = rd_u32(b, pos)?;
    assert forall|c: Seq<char>| encode_utf8(c).len() <= u32::MAX && #[trigger] holds_at(b@, pos as int, enc_string(c))
        implies n == encode_utf8(c).len() && holds_at(b@, p1 as int, encode_utf8(c)) by {
        lemma_holds_split(b@, pos as int, u32_le(encode_utf8(c).len() as u32), encode_utf8(c));
    }
    let p2 = rd_take(b, p1, n as u64)?;
    match utf8_string(&b[p1..p2]) {
        None => Err(invalid("provenance is not UTF-8")),
        Some(s) => {
            assert(b@.subrange(pos as int, p2 as int) =~= b@.subrange(pos as int, p1 as int) + b@.subrange(p1 as int, p2 as int));
            assert forall|c: Seq<char>| encode_utf8(c).len() <= u32::MAX && #[trigger] holds_at(b@, pos as int, enc_string(c))
                implies s@ == c by {
                lemma_utf8_inj(s@, c);
            }
            Ok((s, p2))
        },
    }
}

/// A stored 0/1 flag.
fn flag(v: u32) -> (r: Result<bool, CaptureError>)
    ensures
        r matches Err(e) ==> e is Invalid,
        r is Ok <==> v <= 1,
        r matches Ok(x) ==> v == (if x {
            1u32
        } else {
            0u32
        }),
{
    if v == 0 {
        Ok(false)
    } else if v == 1 {
        Ok(true)
    } else {
        Err(invalid("boolean"))
    }
}

/// Nineteen 32-bit values stored little-endian at `pos`, and the position after them.
fn rd_words19(b: &[u8], pos: usize) -> (r: Result<([u32; 19], usize), CaptureError>)
    ensures
        r matches Err(e) ==> e is Invalid,
        r matches Ok((w, p)) ==> p == pos + 76 && p <= b@.len() && b@.subrange(pos as int, p as int) == u32s_le(w@),
        forall|ws: Seq<u32>| ws.len() == 19 && #[trigger] holds_at(b@, pos as int, u32s_le(ws))
            ==> (r matches Ok((w, p)) && w@ == ws && p == pos + 76),
{
    assert forall|ws: Seq<u32>| ws.len() == 19 && #[trigger] holds_at(b@, pos as int, u32s_le(ws))
        implies pos + 76 <= b@.len() by {
        lemma_u32s_le_len(ws);
    }
    let mut w: [u32; 19] = [0; 19];
    let mut p = pos;
    let mut i: usize = 0;
    if pos > b.len() {
        return Err(truncated());
    }
    assert(b@.subrange(pos as int, pos as int) =~= u32s_le(w@.subrange(0, 0)));
    while i < 19
        invariant
            i <= 19,
            pos <= p <= b@.len(),
            p == pos + 4 * i,
            w@.len() == 19,
            b@.subrange(pos as int, p as int) == u32s_le(w@.subrange(0, i as int)),
            forall|ws: Seq<u32>| ws.len() == 19 && #[trigger] holds_at(b@, pos as int, u32s_le(ws))
                ==> pos + 76 <= b@.len(),
        decreases 19 - i,
    {
        let (v, np) = rd_u32(b, p)?;
        let ghost before = w@;
        w[i] = v;
        assert(w@.subrange(0, i as int) =~= before.subrange(0, i as int));
        assert(w@.subrange(0, i + 1).drop_last() =~= w@.subrange(0, i as int));
        assert(b@.subrange(pos as int, np as int) =~= b@.subrange(pos as int, p as int) + b@.subrange(p as int, np as int));
        p = np;
        i = i + 1;
    }
    assert(w@.subrange(0, 19) =~= w@);
    assert forall|ws: Seq<u32>| ws.len() == 19 && #[trigger] holds_at(b@, pos as int, u32s_le(ws))
        implies w@ == ws by {
        lemma_u32s_le_len(w@);
        lemma_u32s_le_len(ws);
        lemma_u32s_le_inj(w@, ws);
    }
    Ok((w, p))
}

/// Whether the stored settings of `f`, an output format capture can store, stand in `b` at
/// `pos`.
pub open spec fn frame_at(b: Seq<u8>, pos: int, f: Frame) -> bool {
    f.config.format != Option::Some(OutputFormat::Other) && holds_at(b, pos, enc_frame(f))
}

/// The stored frame settings at `pos`, and the position after them.
#[verifier::rlimit(80)]
#[verifier::spinoff_prover]
fn rd_frame(b: &[u8], pos: usize) -> (r: Result<(Frame, usize), CaptureError>)
    ensures
        r matches Err(e) ==> e is Invalid,
        r matches Ok((f, p)) ==> pos <= p <= b@.len() && b@.subrange(pos as int, p as int) == enc_frame(f),
        forall|f: Frame| #[trigger] frame_at(b@, pos as int, f) ==> r == Ok::<(Frame, usize), CaptureError>(
            (f, (pos + enc_frame(f).len()) as usize),
        ),
{
    assert forall|f: Frame| #[trigger] frame_at(b@, pos as int, f) implies enc_frame(f).len() == 84
        && holds_at(b@, pos as int, u64_le(f.serial)) && holds_at(b@, pos + 8, u32s_le(frame_words(f))) by {
        lemma_u32s_le_len(frame_words(f));
        lemma_holds_split(b@, pos as int, u64_le(f.serial), u32s_le(frame_words(f)));
    }
    let (serial, p0) = rd_u64(b, pos)?;
    let (w, p) = rd_words19(b, p0)?;
    assert forall|f: Frame| #[trigger] frame_at(b@, pos as int, f) implies serial == f.serial
        && w@ == frame_words(f) by {
        assert(frame_words(f).len() == 19);
    }
    let present_mode = match w[5] {
        0 => PresentMode::AutoVsync,
        1 => PresentMode::AutoNoVsync,
        2 => PresentMode::Fifo,
        3 => PresentMode::FifoRelaxed,
        4 => PresentMode::Immediate,
        5 => PresentMode::Mailbox,
        _ => {
            return Err(invalid("present mode"));
        },
    };
    let format = match w[6] {
        0 => Option::None,
        1 => Option::Some(OutputFormat::Rgba8Unorm),
        2 => Option::Some(OutputFormat::Bgra8Unorm),
        3 => Option::Some(OutputFormat::Rgba8UnormSrgb),
        4 => Option::Some(OutputFormat::Bgra8UnormSrgb),
        _ => {
            return Err(invalid("output format"));
        },
    };
    let clear_policy = match w[7] {
        0 => ClearPolicy::PerFrame,
        1 => ClearPolicy::Persist,
        _ => {
            return Err(invalid("clear policy"));
        },
    };
    let power_preference = match w[8] {
        0 => PowerPreference::NoPreference,
        1 => PowerPreference::LowPower,
        2 => PowerPreference::HighPerformance,
        _ => {
            return Err(invalid("power preference"));
        },
    };
    let dual_source_blending = flag(w[9])?;
    let has_vi = flag(w[10])?;
    let vi = ViRegisters {
        status: w[11],
        origin: w[12],
        width: w[13],
        x_scale: w[14],
        y_scale: w[15],
        h_start: w[16],
        v_start: w[17],
        v_current: w[18],
    };
    if !has_vi && (vi.status != 0 || vi.origin != 0 || vi.width != 0 || vi.x_scale != 0 || vi.y_scale
        != 0 || vi.h_start != 0 || vi.v_start != 0 || vi.v_current != 0) {
        return Err(invalid("absent VI has nonzero registers"));
    }
    let f = Frame {
        serial,
        dither_seed: w[0],
        width: w[1],
        height: w[2],
        vi: if has_vi {
            Option::Some(vi)
        } else {
            Option::None
        },
        dual_source_blending,
        config: RendererConfig {
            resolution_multiplier: w[3],
            sample_count: w[4],
            present_mode,
            format,
            clear_policy,
            power_preference,
        },
    };
    assert(frame_words(f) =~= w@);
    assert(b@.subrange(pos as int, p as int) =~= b@.subrange(pos as int, p0 as int) + b@.subrange(p0 as int, p as int));
    assert forall|g: Frame| #[trigger] frame_at(b@, pos as int, g) implies f == g by {
        assert(frame_words(g) == w@);
        assert(frame_words(g)[5] == present_code(g.config.present_mode));
        assert(frame_words(g)[6] == format_code(g.config.format));
    }
    Ok((f, p))
}


/// A stored memory layout at `pos`, and the position after it.
fn rd_layout(b: &[u8], pos: usize) -> (r: Result<(MemoryLayout, usize), CaptureError>)
    ensures
        r matches Err(e) ==> e is Invalid,
        r matches Ok((m, p)) ==> p == pos + 8 && p <= b@.len() && b@.subrange(pos as int, p as int) == layout_bytes(m)
            && super::layout_supported(m),
        forall|m: MemoryLayout| super::layout_supported(m) && #[trigger] holds_at(b@, pos as int, layout_bytes(m))
            ==> r == Ok::<(MemoryLayout, usize), CaptureError>((m, (pos + 8) as usize)),
{
    if pos > b.len() {
        return Err(truncated());
    }
    let p6 = rd_take(b, pos, 8)?;
    let m = &b[pos..p6];
    let address_space = match m[0] {
        0 => AddressSpace::Image,
        1 => AddressSpace::Host,
        _ => {
            return Err(invalid("address space"));
        },
    };
    let byte_order = match m[1] {
        0 => ByteOrder::Big,
        1 => ByteOrder::Little,
        _ => {
            return Err(invalid("source byte order"));
        },
    };
    let fixed_matrix_packing = match m[4] {
        0 => FixedMatrixPacking::SplitHalfwords,
        1 => FixedMatrixPacking::PackedWords,
        _ => {
            return Err(invalid("matrix packing"));
        },
    };
    if m[5] != 0 || m[6] != 0 || m[7] != 0 {
        return Err(invalid("reserved layout bytes"));
    }
    let memory = MemoryLayout {
        address_space,
        byte_order,
        command_word_bytes: m[2],
        command_stride: m[3],
        fixed_matrix_packing,
    };
    assert forall|x: MemoryLayout| super::layout_supported(x) && #[trigger] holds_at(b@, pos as int, layout_bytes(x))
        implies memory == x by {
        assert(m@ == layout_bytes(x));
    }
    memory.validate()?;
    assert(b@.subrange(pos as int, p6 as int) =~= layout_bytes(memory));
    Ok((memory, p6))
}

/// Sixteen stored segment bases at `pos`, and the position after them.
fn rd_segments(b: &[u8], pos: usize) -> (r: Result<([u64; 16], usize), CaptureError>)
    ensures
        r matches Err(e) ==> e is Invalid,
        r matches Ok((a, p)) ==> p == pos + 128 && p <= b@.len() && b@.subrange(pos as int, p as int) == enc_segments(a@, 16),
        forall|sg: Seq<u64>| sg.len() == 16 && #[trigger] holds_at(b@, pos as int, enc_segments(sg, 16))
            ==> (r matches Ok((a, p)) && a@ == sg && p == pos + 128),
{
    assert forall|sg: Seq<u64>| sg.len() == 16 && #[trigger] holds_at(b@, pos as int, enc_segments(sg, 16))
        implies pos + 128 <= b@.len() by {
        lemma_enc_segments_len(sg, 16);
    }
    if pos > b.len() {
        return Err(truncated());
    }
    let p6 = pos;
    let mut segments: [u64; 16] = [0; 16];
    let mut p = p6;
    let mut k: usize = 0;
    while k < 16
        invariant
            k <= 16,
            p6 <= p <= b@.len(),
            segments@.len() == 16,
            b@.subrange(p6 as int, p as int) == enc_segments(segments@, k as nat),
            p == p6 + 8 * k,
            p6 == pos,
            forall|sg: Seq<u64>| sg.len() == 16 && #[trigger] holds_at(b@, pos as int, enc_segments(sg, 16))
                ==> pos + 128 <= b@.len(),
        decreases 16 - k,
    {
        let (v, np) = rd_u64(b, p)?;
        let ghost before = segments@;
        segments[k] = v;
        assert forall|n: nat| n <= k implies enc_segments(segments@, n) == enc_segments(before, n) by {
            lemma_enc_segments_prefix(segments@, before, n);
        }
        assert(b@.subrange(p6 as int, np as int) =~= b@.subrange(p6 as int, p as int) + b@.subrange(p as int, np as int));
        p = np;
        k = k + 1;
    }
    assert forall|sg: Seq<u64>| sg.len() == 16 && #[trigger] holds_at(b@, pos as int, enc_segments(sg, 16))
        implies segments@ == sg by {
        lemma_enc_segments_len(segments@, 16);
        lemma_enc_segments_len(sg, 16);
        lemma_enc_segments_inj(segments@, sg);
    }
    Ok((segments, p))
}

/// The fixed head of a stored task at `pos` (its spans left empty), and the position after
/// it.
#[verifier::rlimit(100)]
#[verifier::spinoff_prover]
fn rd_task_head(b: &[u8], pos: usize) -> (r: Result<(Task, usize), CaptureError>)
    ensures
        r matches Err(e) ==> e is Invalid,
        r matches Ok((t, p)) ==> p == pos + 160 && p <= b@.len() && b@.subrange(pos as int, p as int) == task_head(t)
            && super::layout_supported(t.source.memory) && t.spans@.len() == 0,
        forall|t: Task| #[trigger] task_at(b@, pos as int, t) ==> (r matches Ok((h, p)) && h.entry == t.entry
            && h.microcode == t.microcode && h.data_format == t.data_format && h.order == t.order
            && h.source.memory == t.source.memory && h.source.segments@ == t.source.segments@ && p == pos + 160),
{
    assert forall|t: Task| #[trigger] task_at(b@, pos as int, t) implies head_parts(b@, pos as int, t) by {
        lemma_task_at_parts(b@, pos as int, t);
    }
    let (order, p1) = rd_u32(b, pos)?;
    let (uc, p2) = rd_u32(b, p1)?;
    let microcode = match uc {
        0 => GbiUcode::F3dex2,
        1 => GbiUcode::F3d,
        _ => {
            return Err(invalid("microcode"));
        },
    };
    let (df, p3) = rd_u32(b, p2)?;
    let data_format = match df {
        0 => GbiDataFormat::Fixed,
        1 => GbiDataFormat::Float,
        _ => {
            return Err(invalid("data format"));
        },
    };
    let (z, p4) = rd_u32(b, p3)?;
    if z != 0 {
        return Err(invalid("reserved word"));
    }
    let ghost h4: Seq<u32> = seq![order, uc, df, z];
    assert(b@.subrange(pos as int, p4 as int) =~= u32s_le(h4)) by {
        reveal_with_fuel(u32s_le, 5);
        assert(h4.drop_last().drop_last().drop_last().drop_last() =~= Seq::<u32>::empty());
        assert(h4.drop_last().drop_last().drop_last() =~= seq![order]);
        assert(h4.drop_last().drop_last() =~= seq![order, uc]);
        assert(h4.drop_last() =~= seq![order, uc, df]);
        assert(b@.subrange(pos as int, p2 as int) =~= b@.subrange(pos as int, p1 as int) + b@.subrange(p1 as int, p2 as int));
        assert(b@.subrange(pos as int, p3 as int) =~= b@.subrange(pos as int, p2 as int) + b@.subrange(p2 as int, p3 as int));
        assert(b@.subrange(pos as int, p4 as int) =~= b@.subrange(pos as int, p3 as int) + b@.subrange(p3 as int, p4 as int));
    }
    let (entry, p5) = rd_u64(b, p4)?;
    let (memory, p6) = rd_layout(b, p5)?;
    let (segments, head_end) = rd_segments(b, p6)?;
    let h = Task {
        entry,
        microcode,
        data_format,
        order,
        source: SourceLayout { memory, segments },
        spans: Vec::new(),
    };
    assert(b@.subrange(pos as int, head_end as int) =~= task_head(h)) by {
        assert(b@.subrange(pos as int, head_end as int) =~= b@.subrange(pos as int, p4 as int) + b@.subrange(p4 as int, p5 as int) + b@.subrange(p5 as int, p6 as int) + b@.subrange(p6 as int, head_end as int));
    }
    Ok((h, head_end))
}

/// The span records of a stored task at `pos`, and the position after them.
#[verifier::rlimit(100)]
#[verifier::spinoff_prover]
fn rd_spans(b: &[u8], pos: usize) -> (r: Result<(Vec<MemorySpan>, usize), CaptureError>)
    ensures
        r matches Err(e) ==> e is Invalid,
        r matches Ok((v, p)) ==> pos <= p <= b@.len() && b@.subrange(pos as int, p as int) == task_spans(v@)
            && v@.len() <= u32::MAX,
        forall|sp: Seq<MemorySpan>| #[trigger] spans_at(b@, pos as int, sp) ==> (r matches Ok((v, p))
            && spans_same(v@, sp) && p == pos + task_spans(sp).len()),
{
    assert forall|sp: Seq<MemorySpan>| #[trigger] spans_at(b@, pos as int, sp) implies spans_parts(b@, pos as int, sp) by {
        lemma_spans_at_parts(b@, pos as int, sp);
    }
    let (count, q1) = rd_u32(b, pos)?;
    let (z2, q2) = rd_u32(b, q1)?;
    if z2 != 0 {
        return Err(invalid("reserved word"));
    }
    let (total, q3) = rd_u64(b, q2)?;
    let dir_len = count as u64 * 24;
    let dir_end = rd_take(b, q3, dir_len)?;
    let pay_end = rd_take(b, dir_end, total)?;
    let mut spans: Vec<MemorySpan> = Vec::new();
    let mut offset: u64 = 0;
    let mut d = q3;
    let mut j: u32 = 0;
    while j < count
        invariant
            j <= count,
            q3 <= d <= dir_end,
            d == q3 + 24 * j,
            dir_end == q3 + 24 * count,
            dir_end <= pay_end <= b@.len(),
            pay_end == dir_end + total,
            spans@.len() == j,
            offset == payload_len(spans@),
            offset <= total,
            b@.subrange(q3 as int, d as int) == enc_directory(spans@),
            b@.subrange(dir_end as int, dir_end + offset) == enc_payload(spans@),
            q3 == pos + 16,
            forall|sp: Seq<MemorySpan>| #[trigger] spans_at(b@, pos as int, sp) ==> spans_parts(b@, pos as int, sp)
                && count == sp.len() && total == payload_len(sp)
                && spans_same(spans@, sp.subrange(0, j as int)),
        decreases count - j,
    {
        assert forall|sp: Seq<MemorySpan>| #[trigger] spans_at(b@, pos as int, sp) implies ({
            &&& holds_at(b@, d as int, u64_le(sp[j as int].address))
            &&& holds_at(b@, d + 8, u64_le(sp[j as int].bytes@.len() as u64))
            &&& holds_at(b@, d + 16, u64_le(offset))
            &&& offset + sp[j as int].bytes@.len() <= total
            &&& holds_at(b@, dir_end + offset, sp[j as int].bytes@)
        }) by {
            lemma_directory_entry(sp, j as int);
            lemma_holds_within(b@, pos + 16, enc_directory(sp), 24 * j, dir_entry(sp, j as int));
            let e0 = u64_le(sp[j as int].address);
            let e1 = u64_le(sp[j as int].bytes@.len() as u64);
            let e2 = u64_le(payload_len(sp.subrange(0, j as int)) as u64);
            lemma_holds_split(b@, d as int, e0 + e1, e2);
            lemma_holds_split(b@, d as int, e0, e1);
            lemma_spans_same_payload(spans@, sp.subrange(0, j as int));
            lemma_payload_piece(sp, j as int);
            lemma_holds_within(b@, pos + 16 + 24 * sp.len(), enc_payload(sp), payload_len(sp.subrange(0, j as int)), sp[j as int].bytes@);
        }
        let (address, d1) = rd_u64(b, d)?;
        let (length, d2) = rd_u64(b, d1)?;
        let (off, d3) = rd_u64(b, d2)?;
        if off != offset {
            return Err(invalid("span payload offsets must be contiguous"));
        }
        let end = match offset.checked_add(length) {
            Option::None => {
                return Err(invalid("payload offset overflow"));
            },
            Option::Some(e) => e,
        };
        if end > total {
            return Err(invalid("span exceeds payload"));
        }
        let lo = dir_end + offset as usize;
        let hi = dir_end + end as usize;
        let piece = vstd::slice::slice_to_vec(&b[lo..hi]);
        let span = MemorySpan { address, bytes: piece };
        let ghost before = spans@;
        spans.push(span);
        assert(spans@.drop_last() =~= before);
        assert forall|sp: Seq<MemorySpan>| #[trigger] spans_at(b@, pos as int, sp) implies spans_same(spans@, sp.subrange(0, j + 1)) by {
            assert(piece@ == sp[j as int].bytes@);
            assert forall|k: int| 0 <= k < spans@.len() implies span_same(#[trigger] spans@[k], sp.subrange(0, j + 1)[k]) by {
                if k < j {
                    assert(span_same(before[k], sp.subrange(0, j as int)[k]));
                }
            }
        }
        assert(b@.subrange(q3 as int, d3 as int) =~= b@.subrange(q3 as int, d as int) + b@.subrange(d as int, d1 as int) + b@.subrange(d1 as int, d2 as int) + b@.subrange(d2 as int, d3 as int));
        assert(b@.subrange(dir_end as int, dir_end + end) =~= b@.subrange(dir_end as int, dir_end + offset) + b@.subrange(lo as int, hi as int));
        offset = end;
        d = d3;
        j = j + 1;
    }
    assert forall|sp: Seq<MemorySpan>| #[trigger] spans_at(b@, pos as int, sp) implies offset == total && spans_same(spans@, sp) by {
        assert(sp.subrange(0, j as int) =~= sp);
        lemma_spans_same_payload(spans@, sp);
    }
    if offset != total {
        return Err(invalid("unreferenced payload bytes"));
    }
    let ghost cw: Seq<u32> = seq![count, z2];
    assert(b@.subrange(pos as int, q2 as int) =~= u32s_le(cw)) by {
        reveal_with_fuel(u32s_le, 3);
        assert(cw.drop_last() =~= seq![count]);
        assert(cw.drop_last().drop_last() =~= Seq::<u32>::empty());
        assert(b@.subrange(pos as int, q2 as int) =~= b@.subrange(pos as int, q1 as int) + b@.subrange(q1 as int, q2 as int));
    }
    assert(b@.subrange(pos as int, pay_end as int) =~= task_spans(spans@)) by {
        assert(b@.subrange(pos as int, pay_end as int) =~= b@.subrange(pos as int, q2 as int) + b@.subrange(q2 as int, q3 as int) + b@.subrange(q3 as int, dir_end as int) + b@.subrange(dir_end as int, pay_end as int));
    }
    Ok((spans, pay_end))
}

/// A stored task at `pos`, and the position after it.
fn rd_task(b: &[u8], pos: usize) -> (r: Result<(Task, usize), CaptureError>)
    ensures
        r matches Err(e) ==> e is Invalid,
        r matches Ok((t, p)) ==> pos <= p <= b@.len() && b@.subrange(pos as int, p as int) == enc_task(t)
            && t.spans@.len() <= u32::MAX && super::layout_supported(t.source.memory),
        forall|t: Task| #[trigger] task_at(b@, pos as int, t) ==> (r matches Ok((u, p)) && task_same(u, t)
            && p == pos + enc_task(t).len()),
{
    assert forall|t: Task| #[trigger] task_at(b@, pos as int, t) implies spans_at(b@, pos + 160, t.spans@) by {
        lemma_task_at_parts(b@, pos as int, t);
    }
    let (h, p) = rd_task_head(b, pos)?;
    let (spans, q) = rd_spans(b, p)?;
    let t = Task {
        entry: h.entry,
        microcode: h.microcode,
        data_format: h.data_format,
        order: h.order,
        source: h.source,
        spans,
    };
    assert(task_head(t) == task_head(h));
    assert(b@.subrange(pos as int, q as int) =~= b@.subrange(pos as int, p as int) + b@.subrange(p as int, q as int));
    Ok((t, q))
}

/// Changing segment bases at or after `n` leaves the encoding of the first `n` alone.
proof fn lemma_enc_segments_prefix(a: Seq<u64>, b: Seq<u64>, n: nat)
    requires
        n <= a.len(),
        n <= b.len(),
        forall|i: int| 0 <= i < n ==> a[i] == b[i],
    ensures
        enc_segments(a, n) == enc_segments(b, n),
    decreases n,
{
    if n > 0 {
        lemma_enc_segments_prefix(a, b, (n - 1) as nat);
    }
}

impl Fixture {
    /// Reads a container (see `enc_fixture`): every byte must be accounted for, and the
    /// fixture must validate. The container of a valid fixture whose record lengths fit reads
    /// back as that fixture.
    #[verifier::rlimit(100)]
    #[verifier::spinoff_prover]
    pub fn from_bytes(bytes: &[u8]) -> (r: Result<Fixture, CaptureError>)
        ensures
            r matches Err(e) ==> e is Invalid,
            r matches Ok(f) ==> fixture_valid(f) && lengths_fit(f) && enc_fixture(f) == bytes@,
            forall|x: Fixture| #[trigger] fixture_at(bytes@, x) ==> (r matches Ok(f) && fixture_same(f, x)),
    {
        assert forall|x: Fixture| #[trigger] fixture_at(bytes@, x) implies fixture_pieces(bytes@, x) by {
            lemma_fixture_pieces(bytes@, x);
        }
        let (task_count, b2) = rd_header(bytes)?;
        let (frame, b3) = rd_frame(bytes, b2)?;
        let (provenance, b7) = rd_provenance(bytes, b3)?;
        let (tasks, p) = rd_tasks(bytes, b7, task_count)?;
        if p != bytes.len() {
            return Err(invalid("trailing bytes"));
        }
        let fixture = Fixture { frame, tasks, provenance };
        assert forall|x: Fixture| #[trigger] fixture_at(bytes@, x) implies fixture_same(fixture, x)
            && fixture_valid(fixture) by {
            lemma_same_fixture_valid(fixture, x);
        }
        match fixture.validate() {
            Err(e) => {
                proof {
                    lemma_fixture_error_invalid(fixture, e);
                }
                return Err(e);
            },
            Ok(()) => {},
        }
        proof {
            lemma_container_assembled(bytes@, fixture, b2 as int, b3 as int, b7 as int);
        }
        Ok(fixture)
    }
}

/// The container header: magic, version, byte-order mark and total length, then the task
/// count and a reserved word. Returns the count and the position after them.
#[verifier::rlimit(40)]
#[verifier::spinoff_prover]
fn rd_header(bytes: &[u8]) -> (r: Result<(u32, usize), CaptureError>)
    ensures
        r matches Err(e) ==> e is Invalid,
        r matches Ok((n, p)) ==> p == 32 && p <= bytes@.len() && bytes@.subrange(0, 24) == magic() + u32_le(1)
            + u32_le(0x0403_0201) + u64_le(bytes@.len() as u64) && bytes@.subrange(24, 32) == u32_le(n)
            + u32_le(0),
        forall|x: Fixture| #[trigger] fixture_at(bytes@, x) ==> r == Ok::<(u32, usize), CaptureError>(
            (x.tasks@.len() as u32, 32usize),
        ),
{
    assert forall|x: Fixture| #[trigger] fixture_at(bytes@, x) implies fixture_parts(bytes@, x) by {
        lemma_fixture_parts(bytes@, x);
    }
    let p8 = rd_take(bytes, 0, 8)?;
    let m: [u8; 8] = [0x46, 0x33, 0x44, 0x43, 0x41, 0x50, 0x00, 0x00];
    assert(m@ =~= magic());
    if !crate::texture_request::bytes_equal(&bytes[0..8], m.as_slice()) {
        return Err(invalid("magic, version or container byte order"));
    }
    let (version, p12) = rd_u32(bytes, p8)?;
    if version != 1 {
        return Err(invalid("magic, version or container byte order"));
    }
    let (bom, p16) = rd_u32(bytes, p12)?;
    if bom != 0x0403_0201 {
        return Err(invalid("magic, version or container byte order"));
    }
    let (length, p24) = rd_u64(bytes, p16)?;
    if length != bytes.len() as u64 {
        return Err(invalid("container length"));
    }
    let (task_count, b1) = rd_u32(bytes, p24)?;
    let (z, b2) = rd_u32(bytes, b1)?;
    if z != 0 {
        return Err(invalid("reserved word"));
    }
    assert(bytes@.subrange(0, 24) =~= bytes@.subrange(0, 8) + bytes@.subrange(8, 12) + bytes@.subrange(12, 16)
        + bytes@.subrange(16, 24));
    assert(bytes@.subrange(24, 32) =~= bytes@.subrange(24, 28) + bytes@.subrange(28, 32));
    Ok((task_count, b2))
}

/// The four provenance strings at `pos`, and the position after them.
#[verifier::rlimit(40)]
#[verifier::spinoff_prover]
fn rd_provenance(b: &[u8], pos: usize) -> (r: Result<(Provenance, usize), CaptureError>)
    ensures
        r matches Err(e) ==> e is Invalid,
        r matches Ok((v, p)) ==> pos <= p <= b@.len() && b@.subrange(pos as int, p as int) == enc_string(
            v.decomp_revision@,
        ) + enc_string(v.source_symbols@) + enc_string(v.command_vector@) + enc_string(v.synthetic_data@)
            && provenance_fits(v),
        forall|x: Provenance| #[trigger] provenance_at(b@, pos as int, x) ==> (r matches Ok((v, p))
            && v.decomp_revision@ == x.decomp_revision@ && v.source_symbols@ == x.source_symbols@
            && v.command_vector@ == x.command_vector@ && v.synthetic_data@ == x.synthetic_data@ && p == pos
            + provenance_len(x)),
{
    assert forall|x: Provenance| #[trigger] provenance_at(b@, pos as int, x) implies ({
        let e1 = enc_string(x.decomp_revision@);
        let e2 = enc_string(x.source_symbols@);
        let e3 = enc_string(x.command_vector@);
        let e4 = enc_string(x.synthetic_data@);
        &&& holds_at(b@, pos as int, e1)
        &&& holds_at(b@, pos + e1.len(), e2)
        &&& holds_at(b@, pos + e1.len() + e2.len(), e3)
        &&& holds_at(b@, pos + e1.len() + e2.len() + e3.len(), e4)
    }) by {
        let e1 = enc_string(x.decomp_revision@);
        let e2 = enc_string(x.source_symbols@);
        let e3 = enc_string(x.command_vector@);
        let e4 = enc_string(x.synthetic_data@);
        lemma_holds_split(b@, pos as int, e1 + e2 + e3, e4);
        lemma_holds_split(b@, pos as int, e1 + e2, e3);
        lemma_holds_split(b@, pos as int, e1, e2);
    }
    let (decomp_revision, b4) = rd_string(b, pos)?;
    let (source_symbols, b5) = rd_string(b, b4)?;
    let (command_vector, b6) = rd_string(b, b5)?;
    let (synthetic_data, b7) = rd_string(b, b6)?;
    assert(b@.subrange(pos as int, b7 as int) =~= b@.subrange(pos as int, b4 as int) + b@.subrange(b4 as int, b5 as int)
        + b@.subrange(b5 as int, b6 as int) + b@.subrange(b6 as int, b7 as int));
    Ok((Provenance { decomp_revision, source_symbols, command_vector, synthetic_data }, b7))
}

/// `count` stored tasks at `pos`, and the position after them.
#[verifier::rlimit(100)]
#[verifier::spinoff_prover]
fn rd_tasks(b: &[u8], pos: usize, count: u32) -> (r: Result<(Vec<Task>, usize), CaptureError>)
    ensures
        r matches Err(e) ==> e is Invalid,
        r matches Ok((v, p)) ==> pos <= p <= b@.len() && b@.subrange(pos as int, p as int) == enc_tasks(v@)
            && v@.len() == count && forall|k: int| 0 <= k < v@.len() ==> (#[trigger] v@[k]).spans@.len() <= u32::MAX,
        forall|ts: Seq<Task>| ts.len() == count && #[trigger] tasks_at(b@, pos as int, ts) ==> (r matches Ok((v, p))
            && p == pos + enc_tasks(ts).len() && forall|k: int| 0 <= k < ts.len() ==> #[trigger] task_same(v@[k], ts[k])),
{
    let mut tasks: Vec<Task> = Vec::new();
    let mut p = pos;
    let mut i: u32 = 0;
    if pos > b.len() {
        return Err(truncated());
    }
    assert(b@.subrange(pos as int, pos as int) =~= enc_tasks(tasks@));
    while i < count
        invariant
            i <= count,
            pos <= p <= b@.len(),
            tasks@.len() == i,
            forall|k: int| 0 <= k < tasks@.len() ==> (#[trigger] tasks@[k]).spans@.len() <= u32::MAX,
            b@.subrange(pos as int, p as int) == enc_tasks(tasks@),
            forall|ts: Seq<Task>| ts.len() == count && #[trigger] tasks_at(b@, pos as int, ts)
                ==> p == pos + enc_tasks(ts.subrange(0, i as int)).len()
                && forall|k: int| 0 <= k < i ==> #[trigger] task_same(tasks@[k], ts[k]),
        decreases count - i,
    {
        assert forall|ts: Seq<Task>| ts.len() == count && #[trigger] tasks_at(b@, pos as int, ts) implies task_at(
            b@,
            p as int,
            ts[i as int],
        ) && p + enc_task(ts[i as int]).len() == pos + enc_tasks(ts.subrange(0, i + 1)).len() by {
            lemma_enc_tasks_at(b@, pos as int, ts, i as int);
            assert(task_valid(ts[i as int]) && ts[i as int].spans@.len() <= u32::MAX);
        }
        let (t, np) = rd_task(b, p)?;
        let ghost before = tasks@;
        tasks.push(t);
        assert(tasks@.drop_last() =~= before);
        assert(b@.subrange(pos as int, np as int) =~= b@.subrange(pos as int, p as int) + b@.subrange(p as int, np as int));
        assert forall|ts: Seq<Task>| ts.len() == count && #[trigger] tasks_at(b@, pos as int, ts) implies forall|k: int|
            0 <= k < i + 1 ==> #[trigger] task_same(tasks@[k], ts[k]) by {
            assert forall|k: int| 0 <= k < i + 1 implies #[trigger] task_same(tasks@[k], ts[k]) by {
                if k < i {
                    assert(task_same(before[k], ts[k]));
                }
            }
        }
        p = np;
        i = i + 1;
    }
    assert forall|ts: Seq<Task>| ts.len() == count && #[trigger] tasks_at(b@, pos as int, ts) implies p == pos
        + enc_tasks(ts).len() by {
        assert(ts.subrange(0, i as int) =~= ts);
    }
    Ok((tasks, p))
}

/// Whether every task of `ts` validates and has a 32-bit span count, and their stored
/// records stand in `b` at `pos`.
pub open spec fn tasks_at(b: Seq<u8>, pos: int, ts: Seq<Task>) -> bool {
    &&& forall|k: int| 0 <= k < ts.len() ==> task_valid(#[trigger] ts[k]) && ts[k].spans@.len() <= u32::MAX
    &&& holds_at(b, pos, enc_tasks(ts))
}

/// The stored length of the provenance strings.
pub open spec fn provenance_len(x: Provenance) -> int {
    (enc_string(x.decomp_revision@).len() + enc_string(x.source_symbols@).len() + enc_string(
        x.command_vector@,
    ).len() + enc_string(x.synthetic_data@).len()) as int
}

/// Whether each provenance string's UTF-8 length fits 32 bits.
pub open spec fn provenance_fits(x: Provenance) -> bool {
    &&& encode_utf8(x.decomp_revision@).len() <= u32::MAX
    &&& encode_utf8(x.source_symbols@).len() <= u32::MAX
    &&& encode_utf8(x.command_vector@).len() <= u32::MAX
    &&& encode_utf8(x.synthetic_data@).len() <= u32::MAX
}

/// Whether the stored strings of `x`, each fitting, stand in `b` at `pos`.
pub open spec fn provenance_at(b: Seq<u8>, pos: int, x: Provenance) -> bool {
    provenance_fits(x) && holds_at(
        b,
        pos,
        enc_string(x.decomp_revision@) + enc_string(x.source_symbols@) + enc_string(x.command_vector@)
            + enc_string(x.synthetic_data@),
    )
}
} // verus!
