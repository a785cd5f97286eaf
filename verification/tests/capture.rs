use fast3d::capture::format::{
    ClearPolicy, Fixture, Frame, OutputFormat, PowerPreference, PresentMode, Provenance,
    RendererConfig, ViRegisters,
};
use fast3d::capture::{
    ByteOrder, CaptureError, MemoryErrorKind, MemoryLayout, MemorySpan, RecordingHardware,
    ReplayHardware, SourceLayout, Task,
};
use fast3d::gbi::GbiUcode;
use fast3d::mem::GbiDataFormat;

fn image_source() -> SourceLayout {
    SourceLayout {
        memory: MemoryLayout::image(),
        segments: [0; 16],
    }
}

/// Records reads of `image` at the given (address, length) pairs, as the hardware's memory
/// would serve them.
fn record(image: &[u8], reads: &[(u64, usize)]) -> RecordingHardware {
    let mut rec = RecordingHardware::new();
    rec.rdram(Some(image_source()));
    for &(address, length) in reads {
        let a = address as usize;
        let got = rec.bytes(address, length, Ok(image[a..a + length].to_vec()));
        assert_eq!(got.unwrap(), image[a..a + length].to_vec());
    }
    rec
}

#[test]
fn capture_missing_span_is_error() {
    let image = vec![0xdf, 0, 0, 0, 0, 0, 0, 0];
    let recorder = record(&image, &[(0, 8)]);
    let task = recorder
        .finish(0, GbiUcode::F3dex2, GbiDataFormat::Fixed, 0)
        .unwrap();
    let mut replay = ReplayHardware::new(&task, None).unwrap();
    assert_eq!(replay.rdram().read_command(0).unwrap().w0, 0xdf00_0000);
    assert!(replay.check().is_ok());
    assert!(!replay.rdram().in_bounds(8, 8));
    assert!(matches!(
        replay.check(),
        Err(CaptureError::MissingSpan {
            address: 8,
            length: 8
        })
    ));
    assert_eq!(&*replay.rdram().read_bytes(7, 2), &[0, 0]);
    assert!(replay.check().is_err());
}

fn frame() -> Frame {
    Frame {
        serial: 42,
        dither_seed: 17,
        width: 65,
        height: 48,
        vi: None,
        dual_source_blending: false,
        config: RendererConfig {
            resolution_multiplier: 1,
            sample_count: 1,
            present_mode: PresentMode::Fifo,
            format: Some(OutputFormat::Rgba8Unorm),
            clear_policy: ClearPolicy::Persist,
            power_preference: PowerPreference::LowPower,
        },
    }
}

fn fixture(task: Task) -> Fixture {
    Fixture {
        frame: frame(),
        tasks: vec![task],
        provenance: Provenance {
            decomp_revision: String::new(),
            source_symbols: String::new(),
            command_vector: String::new(),
            synthetic_data: "literal test payloads".into(),
        },
    }
}

#[test]
fn fixture_container_rejects_corruption() {
    let image = vec![0xdf, 0, 0, 0, 0, 0, 0, 0];
    let recording = record(&image, &[(0, 8)]);
    let f = fixture(
        recording
            .finish(0, GbiUcode::F3dex2, GbiDataFormat::Fixed, 0)
            .unwrap(),
    );
    let b = f.to_bytes().unwrap();
    assert_eq!(&b[..16], b"F3DCAP\0\0\x01\0\0\0\x01\x02\x03\x04");
    assert_eq!(Fixture::from_bytes(&b).unwrap(), f);
    for n in 0..b.len() {
        assert!(Fixture::from_bytes(&b[..n]).is_err(), "truncation at {n}");
    }
    for offset in [0, 8, 12, 16, 28, 60, 64, 68, 72, 76, 80] {
        let mut corrupt = b.clone();
        corrupt[offset] = 255;
        assert!(
            Fixture::from_bytes(&corrupt).is_err(),
            "corruption at {offset}"
        );
    }
    let mut bad = f.clone();
    bad.tasks[0].spans.push(MemorySpan {
        address: 7,
        bytes: vec![0],
    });
    assert!(bad.to_bytes().is_err());
    bad.tasks[0].spans = vec![MemorySpan {
        address: u64::MAX,
        bytes: vec![0],
    }];
    assert!(bad.to_bytes().is_err());
    let mut bad_offset = b.clone();
    let directory_offset = b.len() - 8 - 24;
    bad_offset[directory_offset + 16..directory_offset + 24]
        .copy_from_slice(&u64::MAX.to_le_bytes());
    assert!(Fixture::from_bytes(&bad_offset).is_err());
}

#[test]
fn capture_conflicting_reads_invalidate_task() {
    let mut rec = RecordingHardware::new();
    rec.rdram(Some(image_source()));
    let address = 0x100u64;
    rec.bytes(address, 3, Ok(vec![11, 22, 33])).unwrap();
    // The same memory changed between the two reads.
    assert!(rec.bytes(address + 1, 3, Ok(vec![99, 33, 44])).is_err());
    // Every later read fails too.
    assert!(rec.bytes(0, 1, Ok(vec![0])).is_err());
    assert_eq!(
        rec.finish(address, GbiUcode::F3d, GbiDataFormat::Fixed, 0),
        Err(CaptureError::ConflictingRead {
            address: address + 1
        })
    );
}

#[test]
fn agreeing_overlapping_reads_merge_into_one_span() {
    let image: Vec<u8> = (0..32u8).collect();
    let rec = record(&image, &[(4, 4), (10, 2), (6, 5), (20, 1), (21, 3)]);
    let task = rec.finish(4, GbiUcode::F3dex2, GbiDataFormat::Fixed, 3).unwrap();
    // Overlapping reads merge into 4..12; touching reads merge into 20..24.
    assert_eq!(task.spans.len(), 2);
    assert_eq!(task.spans[0].address, 4);
    assert_eq!(task.spans[0].bytes, image[4..12].to_vec());
    assert_eq!(task.spans[1].address, 20);
    assert_eq!(task.spans[1].bytes, image[20..24].to_vec());
    let mut replay = ReplayHardware::new(&task, None).unwrap();
    for a in 4..12u64 {
        assert_eq!(replay.rdram().read_u8(a).unwrap(), a as u8);
    }
    for a in 20..24u64 {
        assert_eq!(replay.rdram().read_u8(a).unwrap(), a as u8);
    }
    replay.check().unwrap();
    assert!(replay.rdram().read_u8(12).is_err());
    assert!(matches!(
        replay.check(),
        Err(CaptureError::MissingSpan { address: 12, length: 1 })
    ));
}

#[test]
fn task_snapshots_keep_each_tasks_bytes() {
    let mut memory = vec![11u8, 22, 33, 44];
    let first = record(&memory, &[(0, 4)])
        .finish(0, GbiUcode::F3d, GbiDataFormat::Fixed, 0)
        .unwrap();
    memory[1] = 99;
    let second = record(&memory, &[(0, 4)])
        .finish(0, GbiUcode::F3d, GbiDataFormat::Fixed, 1)
        .unwrap();
    let mut f = fixture(first);
    f.tasks.push(second);
    let f = Fixture::from_bytes(&f.to_bytes().unwrap()).unwrap();
    for (task, expected) in f.tasks.iter().zip([22, 99]) {
        let mut replay = ReplayHardware::new(task, None).unwrap();
        assert_eq!(replay.rdram().read_u8(1).unwrap(), expected);
        replay.check().unwrap();
    }
}

fn host_task(order: ByteOrder, spans: Vec<MemorySpan>) -> Task {
    let mut memory = MemoryLayout::host64_le();
    memory.byte_order = order;
    Task {
        entry: 0x1_2345_6000,
        microcode: GbiUcode::F3dex2,
        data_format: GbiDataFormat::Fixed,
        order: 0,
        source: SourceLayout {
            memory,
            segments: [0; 16],
        },
        spans,
    }
}

fn host_commands(order: ByteOrder, words: &[u64]) -> Vec<u8> {
    words
        .iter()
        .flat_map(|w| match order {
            ByteOrder::Little => w.to_le_bytes(),
            ByteOrder::Big => w.to_be_bytes(),
        })
        .collect()
}

#[test]
fn replay_adjacent_spans_are_one_address_interval() {
    let bytes = host_commands(
        ByteOrder::Little,
        &[0xe700_0000, 0, 0xff10_003f, 0x2_3456_7000, 0xdf00_0000, 0],
    );
    let task = host_task(
        ByteOrder::Little,
        vec![
            MemorySpan {
                address: 0x1_2345_6000,
                bytes: bytes[..19].to_vec(),
            },
            MemorySpan {
                address: 0x1_2345_6000 + 19,
                bytes: bytes[19..].to_vec(),
            },
        ],
    );
    let mut replay = ReplayHardware::new(&task, None).unwrap();
    assert!(replay.rdram().in_bounds(0x1_2345_6010, 16));
    let command = replay.rdram().read_command(0x1_2345_6010).unwrap();
    assert_eq!(command.w0, 0xff10_003f);
    assert_eq!(command.w1_addr, 0x2_3456_7000);
    assert_eq!(command.w1, 0x3456_7000);
    replay.check().unwrap();
}

#[test]
fn big_endian_host_replay_uses_the_recorded_byte_order() {
    let words = [0xe700_0000, 0, 0xff10_003f, 0x2_3456_7000, 0xdf00_0000, 0];
    let task = host_task(
        ByteOrder::Big,
        vec![MemorySpan {
            address: 0x1_2345_6000,
            bytes: host_commands(ByteOrder::Big, &words),
        }],
    );
    let mut replay = ReplayHardware::new(&task, None).unwrap();
    let command = replay.rdram().read_command(0x1_2345_6010).unwrap();
    assert_eq!(
        (command.w0, command.w1, command.w1_addr),
        (0xff10003f, 0x34567000, 0x234567000)
    );
    replay.check().unwrap();
}

#[test]
fn replay_rejects_unordered_or_overflowing_spans() {
    let span = |address: u64, n: usize| MemorySpan {
        address,
        bytes: vec![0; n],
    };
    let mut task = host_task(ByteOrder::Little, vec![span(16, 8), span(8, 4)]);
    assert_eq!(
        ReplayHardware::new(&task, None).err(),
        Some(CaptureError::Invalid("empty, overlapping or unordered spans".into()))
    );
    task.spans = vec![span(8, 8), span(12, 8)];
    assert!(ReplayHardware::new(&task, None).is_err());
    task.spans = vec![span(8, 0)];
    assert!(ReplayHardware::new(&task, None).is_err());
    task.spans = vec![span(u64::MAX - 1, 4)];
    assert_eq!(
        ReplayHardware::new(&task, None).err(),
        Some(CaptureError::Invalid("span address overflow".into()))
    );
    // The image layout only carries fixed-point data.
    let mut image = task.clone();
    image.spans = vec![span(0, 8)];
    image.source = image_source();
    image.data_format = GbiDataFormat::Float;
    assert_eq!(
        ReplayHardware::new(&image, None).err(),
        Some(CaptureError::Invalid(
            "image layout requires fixed data and 32-bit segments".into()
        ))
    );
}

#[test]
fn replay_resolves_segments_and_resets_them_per_borrow() {
    let image: Vec<u8> = (0..64u8).collect();
    let mut task = record(&image, &[(0, 64)])
        .finish(0, GbiUcode::F3dex2, GbiDataFormat::Fixed, 0)
        .unwrap();
    task.source.segments[2] = 0x20;
    let mut replay = ReplayHardware::new(&task, None).unwrap();
    assert_eq!(replay.rdram().resolve_masked(0x0200_0007).unwrap(), 0x20);
    assert_eq!(replay.rdram().resolve(0x0200_0007).unwrap(), 0x27);
    {
        let mem = replay.rdram();
        mem.set_segment(2, 0x10);
        assert_eq!(mem.resolve(0x0200_0001).unwrap(), 0x11);
        let mut updated = task.source;
        updated.segments[2] = 0x10;
        assert_eq!(mem.capture_layout(), Some(updated));
    }
    // A fresh borrow starts from the task's segment table again.
    assert_eq!(replay.rdram().resolve(0x0200_0001).unwrap(), 0x21);
    assert_eq!(replay.rdram().read_u16(0x20).unwrap(), 0x2021);
    assert_eq!(replay.rdram().read_i8(0x3f).unwrap(), 0x3f);
    replay.check().unwrap();
}

#[test]
fn recorder_refuses_unsupported_backends_and_double_use() {
    let rec = RecordingHardware::new();
    assert_eq!(
        rec.finish(0, GbiUcode::F3dex2, GbiDataFormat::Fixed, 0),
        Err(CaptureError::Invalid("task was not consumed".into()))
    );
    let mut rec = RecordingHardware::new();
    rec.rdram(None);
    assert_eq!(
        rec.finish(0, GbiUcode::F3dex2, GbiDataFormat::Fixed, 0),
        Err(CaptureError::UnsupportedBackend)
    );
    let mut rec = RecordingHardware::new();
    rec.rdram(Some(image_source()));
    rec.rdram(Some(image_source()));
    assert_eq!(
        rec.finish(0, GbiUcode::F3dex2, GbiDataFormat::Fixed, 0),
        Err(CaptureError::Invalid(
            "recording hardware consumed more than once".into()
        ))
    );
    let mut rec = RecordingHardware::new();
    rec.rdram(Some(image_source()));
    let failed = rec.bytes(
        8,
        4,
        Err(fast3d::capture::MemoryError {
            address: 8,
            length: 4,
            kind: MemoryErrorKind::Unavailable,
        }),
    );
    assert!(failed.is_err());
    assert_eq!(
        rec.finish(0, GbiUcode::F3dex2, GbiDataFormat::Fixed, 0),
        Err(CaptureError::MissingSpan { address: 8, length: 4 })
    );
}

#[test]
fn rich_fixture_reads_back_as_written() {
    let image: Vec<u8> = (0..200u8).collect();
    let first = record(&image, &[(0, 16), (40, 8), (100, 3)])
        .finish(0, GbiUcode::F3dex2, GbiDataFormat::Fixed, 0)
        .unwrap();
    let second = host_task(
        ByteOrder::Big,
        vec![
            MemorySpan { address: 0x10, bytes: vec![1, 2, 3] },
            MemorySpan { address: 0x20, bytes: vec![4] },
        ],
    );
    let second = Task { order: 1, data_format: GbiDataFormat::Float, microcode: GbiUcode::F3d, ..second };
    let mut f = fixture(first);
    f.tasks.push(second);
    f.frame.vi = Some(ViRegisters {
        status: 1,
        origin: 0x1000,
        width: 320,
        x_scale: 0x200,
        y_scale: 0x400,
        h_start: 0x6c_02ec,
        v_start: 0x25_01ff,
        v_current: 0,
    });
    f.frame.dual_source_blending = true;
    f.frame.config.present_mode = PresentMode::Mailbox;
    f.frame.config.format = None;
    f.provenance.decomp_revision = "r1 ✓".into();
    f.provenance.command_vector = "gsSPDisplayList".into();
    let b = f.to_bytes().unwrap();
    assert_eq!(Fixture::from_bytes(&b).unwrap(), f);
    // Tasks must be numbered in order.
    let mut misnumbered = f.clone();
    misnumbered.tasks[1].order = 5;
    assert_eq!(
        misnumbered.to_bytes(),
        Err(CaptureError::Invalid("task order is not contiguous".into()))
    );
    // An output format capture cannot store is refused.
    let mut other = f.clone();
    other.frame.config.format = Some(OutputFormat::Other);
    assert!(other.to_bytes().is_err());
}

#[test]
fn native_host_layout_follows_the_machine_byte_order() {
    let native = MemoryLayout::host_native();
    let expected = if 1u16.to_ne_bytes()[0] == 1 {
        ByteOrder::Little
    } else {
        ByteOrder::Big
    };
    assert_eq!(native.byte_order, expected);
    let mut le = MemoryLayout::host64_le();
    le.byte_order = expected;
    assert_eq!(native, le);
    assert!(native.validate().is_ok());
    assert_eq!(MemoryLayout::image().word(&[0x12, 0x34]), 0x1234);
    assert_eq!(MemoryLayout::host64_le().word(&[0x12, 0x34]), 0x3412);
}

#[test]
fn a_read_starting_before_a_recorded_span_extends_it() {
    let image: Vec<u8> = (0..16u8).collect();
    let rec = record(&image, &[(3, 5), (1, 5)]);
    let task = rec.finish(1, GbiUcode::F3dex2, GbiDataFormat::Fixed, 0).unwrap();
    assert_eq!(task.spans.len(), 1);
    assert_eq!(task.spans[0].address, 1);
    assert_eq!(task.spans[0].bytes, image[1..8].to_vec());
}
