use fast3d::consts::{G_BRANCH_Z, G_CULLDL, G_DL, G_ENDDL, G_LOAD_UCODE, G_NOOP};
use fast3d::gbi::GbiUcode;
use fast3d::interp::{decide_control, sext24, Cmd, Control, DlWalk, WalkEnd, DISPATCH_CAP};
use fast3d::mem::RdramImage;

fn words(cmds: &[(u32, u32)]) -> Vec<u8> {
    let mut out = Vec::new();
    for &(w0, w1) in cmds {
        out.extend_from_slice(&w0.to_be_bytes());
        out.extend_from_slice(&w1.to_be_bytes());
    }
    out
}

/// Follows the control flow of an F3DEX2 list in `bytes` from `entry`; returns how the walk
/// ended, the commands dispatched and the addresses visited.
fn walk(bytes: &[u8], entry: u64, limit: usize) -> (WalkEnd, u64, Vec<u64>) {
    let mem = RdramImage::new(bytes);
    let consts = GbiUcode::F3dex2.constants();
    let mut w = DlWalk::new(entry);
    let mut visited = Vec::new();
    loop {
        if let Some(end) = w.enter(mem.in_bounds(w.pc, 8)) {
            return (end, w.dispatched, visited);
        }
        if visited.len() < limit {
            visited.push(w.pc);
        }
        let c = mem.read_command(w.pc);
        let cmd = Cmd { w0: c.w0, w1: c.w1, w1_addr: c.w1_addr };
        let control = decide_control(GbiUcode::F3dex2, &consts, &cmd, mem.resolve(c.w1_addr), None);
        if let Some(end) = w.apply(control, 8) {
            return (end, w.dispatched, visited);
        }
        if control == Control::Continue {
            assert!(w.advance(1, 8));
        }
    }
}

fn op(o: u8) -> u32 {
    (o as u32) << 24
}

#[test]
fn call_returns_after_the_calling_command() {
    let mut list = words(&[(op(G_DL), 0x18), (op(G_NOOP), 0), (op(G_ENDDL), 0)]);
    list.extend(words(&[(op(G_NOOP), 0), (op(G_ENDDL), 0)]));
    let (end, n, visited) = walk(&list, 0, 16);
    assert_eq!(end, WalkEnd::Finished);
    assert_eq!(n, 5);
    assert_eq!(visited, vec![0, 0x18, 0x20, 8, 0x10]);
}

#[test]
fn branch_never_returns_to_the_caller() {
    let mut list = words(&[(op(G_DL) | 0x01_0000, 0x18), (op(G_NOOP), 0), (op(G_ENDDL), 0)]);
    list.extend(words(&[(op(G_ENDDL), 0)]));
    let (end, n, visited) = walk(&list, 0, 16);
    assert_eq!(end, WalkEnd::Finished);
    assert_eq!(n, 2);
    assert_eq!(visited, vec![0, 0x18]);
}

#[test]
fn list_without_end_runs_past_memory() {
    let list = words(&[(op(G_NOOP), 0), (op(G_NOOP), 0)]);
    let (end, n, _) = walk(&list, 0, 16);
    assert_eq!(end, WalkEnd::PastMemory);
    assert_eq!(n, 2);
}

#[test]
fn self_branch_stops_at_the_dispatch_cap() {
    let list = words(&[(op(G_DL) | 0x01_0000, 0)]);
    let (end, n, _) = walk(&list, 0, 0);
    assert_eq!(end, WalkEnd::Runaway);
    assert_eq!(n, DISPATCH_CAP);
}

#[test]
fn microcode_load_aborts_and_conditions_decide_culldl_and_branch_z() {
    let consts = GbiUcode::F3dex2.constants();
    let cmd = |o: u8| Cmd { w0: op(o), w1: 0, w1_addr: 0 };
    assert_eq!(
        decide_control(GbiUcode::F3dex2, &consts, &cmd(G_LOAD_UCODE), 0, None),
        Control::Abort
    );
    assert_eq!(
        decide_control(GbiUcode::F3dex2, &consts, &cmd(G_CULLDL), 0, Some(true)),
        Control::Return
    );
    assert_eq!(
        decide_control(GbiUcode::F3dex2, &consts, &cmd(G_CULLDL), 0, Some(false)),
        Control::Continue
    );
    assert_eq!(
        decide_control(GbiUcode::F3dex2, &consts, &cmd(G_BRANCH_Z), 0x40, Some(true)),
        Control::Branch(0x40)
    );
    assert_eq!(
        decide_control(GbiUcode::F3dex2, &consts, &cmd(G_BRANCH_Z), 0x40, None),
        Control::Abort
    );
    // Under F3D the same opcodes are ordinary commands.
    let f3d = GbiUcode::F3d.constants();
    assert_eq!(
        decide_control(GbiUcode::F3d, &f3d, &cmd(G_CULLDL), 0, None),
        Control::Continue
    );
}

#[test]
fn walk_steps_compose() {
    let mut w = DlWalk::new(0x100);
    assert_eq!(w.enter(true), None);
    assert_eq!(w.apply(Control::Call(0x400), 8), None);
    assert_eq!((w.pc, w.return_stack.clone()), (0x400, vec![0x108]));
    assert!(w.advance(3, 8));
    assert_eq!(w.pc, 0x418);
    assert_eq!(w.apply(Control::Return, 8), None);
    assert_eq!(w.pc, 0x108);
    assert_eq!(w.apply(Control::Return, 8), Some(WalkEnd::Finished));
    assert!(!w.advance(u64::MAX, 8));
    assert_eq!(w.pc, 0x108);
    assert_eq!(w.dispatched, 1);
}

#[test]
fn command_fields_and_sign_extension() {
    let c = Cmd { w0: 0xDE01_2345, w1: 0x8000_00F0, w1_addr: 0x8000_00F0 };
    assert_eq!(c.opcode(), 0xDE);
    assert_eq!(c.p0(16, 1), 1);
    assert_eq!(c.p0(0, 16), 0x2345);
    assert_eq!(c.p1(4, 4), 0xF);
    assert_eq!(sext24(0x00FF_FFFF), -1);
    assert_eq!(sext24(0x1280_0000), -0x80_0000);
    assert_eq!(sext24(0x0000_0010), 16);
}
