//! Display-list command words and the walk's control decisions.
use vstd::prelude::*;
use crate::consts::{G_BRANCH_Z, G_CULLDL, G_LOAD_UCODE};
use crate::gbi::{GbiConstants, GbiUcode};

pub mod walk;

verus! {

/// `bits` bits of `w` starting at bit `pos`.
pub open spec fn field(w: u32, pos: u8, bits: u8) -> u32 {
    (w >> pos as u32) & (((1u32 << bits as u32) - 1) as u32)
}

/// `2^bits` for the field widths commands use.
pub open spec fn field_limit(bits: u8) -> u32 {
    if bits == 1 {
        2
    } else if bits == 2 {
        4
    } else if bits == 3 {
        8
    } else if bits == 4 {
        16
    } else if bits == 5 {
        32
    } else if bits == 8 {
        256
    } else if bits == 9 {
        512
    } else if bits == 10 {
        1024
    } else if bits == 11 {
        2048
    } else if bits == 12 {
        4096
    } else if bits == 15 {
        32768
    } else {
        u32::MAX
    }
}

proof fn lemma_field_limit(x: u32, b: u32)
    requires
        1 <= b < 32,
    ensures
        x & (((1u32 << b) - 1) as u32) < field_limit(b as u8) || field_limit(b as u8) == u32::MAX,
{
    assert((b == 1 ==> x & (((1u32 << b) - 1) as u32) < 2) && (b == 2 ==> x & (((1u32 << b) - 1) as u32) < 4) && (b == 3 ==> x & (((1u32 << b) - 1) as u32) < 8) && (b == 4 ==> x & (((1u32 << b) - 1) as u32) < 16) && (b == 5 ==> x & (((1u32 << b) - 1) as u32) < 32) && (b == 8 ==> x & (((1u32 << b) - 1) as u32) < 256) && (b == 9 ==> x & (((1u32 << b) - 1) as u32) < 512) && (b == 10 ==> x & (((1u32 << b) - 1) as u32) < 1024) && (b == 11 ==> x & (((1u32 << b) - 1) as u32) < 2048) && (b == 12 ==> x & (((1u32 << b) - 1) as u32) < 4096) && (b == 15 ==> x & (((1u32 << b) - 1) as u32) < 32768)) by (bit_vector)
        requires
            1 <= b < 32,
    ;
}

/// One dispatched command.
#[derive(Clone, Copy, PartialEq, Eq, Debug, Structural)]
pub struct Cmd {
    pub w0: u32,
    pub w1: u32,
    /// Full 64-bit address operand (`w1` for an RDRAM image).
    pub w1_addr: u64,
}

impl Cmd {
    /// Field `[pos, pos + bits)` of `w0`.
    pub fn p0(&self, pos: u8, bits: u8) -> (r: u32)
        requires
            pos < 32,
            1 <= bits < 32,
        ensures
            r == field(self.w0, pos, bits),
            r < (1u32 << bits as u32),
            r < field_limit(bits) || field_limit(bits) == u32::MAX,
    {
        proof {
            lemma_field_limit(self.w0 >> pos as u32, bits as u32);
        }
        let b = bits as u32;
        let p = pos as u32;
        let w = self.w0;
        assert((w >> p) & (((1u32 << b) - 1) as u32) < (1u32 << b)) by (bit_vector)
            requires
                1 <= b < 32,
        ;
        (w >> p) & ((1u32 << b) - 1)
    }

    /// Field `[pos, pos + bits)` of `w1`.
    pub fn p1(&self, pos: u8, bits: u8) -> (r: u32)
        requires
            pos < 32,
            1 <= bits < 32,
        ensures
            r == field(self.w1, pos, bits),
            r < (1u32 << bits as u32),
            r < field_limit(bits) || field_limit(bits) == u32::MAX,
    {
        proof {
            lemma_field_limit(self.w1 >> pos as u32, bits as u32);
        }
        let b = bits as u32;
        let p = pos as u32;
        let w = self.w1;
        assert((w >> p) & (((1u32 << b) - 1) as u32) < (1u32 << b)) by (bit_vector)
            requires
                1 <= b < 32,
        ;
        (w >> p) & ((1u32 << b) - 1)
    }

    /// The opcode: the top byte of `w0`.
    pub fn opcode(&self) -> (r: u8)
        ensures
            r == (self.w0 >> 24u32) as u8,
    {
        (self.w0 >> 24u32) as u8
    }
}

/// The low 24 bits of `w` as a signed value.
pub open spec fn spec_sext24(w: u32) -> i32 {
    let v = (w & 0x00FF_FFFF) as int;
    (if v >= 0x80_0000 {
        v - 0x100_0000
    } else {
        v
    }) as i32
}

/// Sign-extends the low 24 bits of `w` (float-GBI rectangle coordinates are s23).
pub fn sext24(w: u32) -> (r: i32)
    ensures
        r == spec_sext24(w),
{
    let v = w & 0x00FF_FFFF;
    assert(w & 0x00FF_FFFF <= 0x00FF_FFFF) by (bit_vector);
    if v >= 0x80_0000 {
        (v as i32) - 0x100_0000
    } else {
        v as i32
    }
}

/// Sign extension undoes 24-bit two's-complement packing: a word whose low 24 bits hold
/// `v` modulo 2^24 reads back as `v`, whatever its top byte, for every `v` in the s23 range.
pub proof fn lemma_sext24_round_trip(top: u32, v: int)
    requires
        top < 256,
        -0x80_0000 <= v < 0x80_0000,
    ensures
        spec_sext24((top * 0x100_0000 + v % 0x100_0000) as u32) == v,
{
    let w: u32 = (top * 0x100_0000 + v % 0x100_0000) as u32;
    assert(w == top * 0x100_0000 + v % 0x100_0000);
    crate::rsp::lemma_bit_facts_bv(w, 0, 0, 0, 1, 0, 0, 0, 0, 0, 0);
    assert(w % 0x100_0000 == v % 0x100_0000) by (nonlinear_arith)
        requires
            w == top * 0x100_0000 + v % 0x100_0000,
            0 <= top,
    ;
    if v < 0 {
        assert(v % 0x100_0000 == v + 0x100_0000);
    } else {
        assert(v % 0x100_0000 == v);
    }
}

/// Commands dispatched before a walk is cut off as runaway: no finite display list in
/// memory reaches it, yet a list that branches to itself is stopped quickly.
pub const DISPATCH_CAP: u64 = 1048576;

/// What a command does to the walk.
#[derive(Clone, Copy, Debug, PartialEq, Eq, Structural)]
pub enum Control {
    /// Go on with the next command.
    Continue,
    /// Run the list at the target, then come back after this command.
    Call(u64),
    /// Go on at the target, not coming back.
    Branch(u64),
    /// Go back to the command after the latest call, or end the walk.
    Return,
    /// Stop the walk and reject what it drew.
    Abort,
}

/// Why a walk ended.
#[derive(Clone, Copy, Debug, PartialEq, Eq, Structural)]
pub enum WalkEnd {
    /// The dispatch cap was reached.
    Runaway,
    /// The next command lies outside memory.
    PastMemory,
    /// The top-level list returned.
    Finished,
    /// A command aborted the walk.
    Aborted,
}

/// Position of a display-list walk: the command address, the return addresses of the open
/// calls, and the number of commands dispatched.
#[derive(Debug)]
pub struct DlWalk {
    pub pc: u64,
    pub return_stack: Vec<u64>,
    pub dispatched: u64,
}

/// The walk position as values: `(pc, return stack, dispatched)`.
pub type WalkState = (u64, Seq<u64>, u64);

/// The effect of `control` on the walk at `w` (commands `stride` bytes apart): the state
/// after it, and whether the walk ended.
pub open spec fn spec_apply(w: WalkState, control: Control, stride: u64) -> (WalkState, Option<WalkEnd>) {
    let (pc, stack, n) = w;
    match control {
        Control::Continue => (w, Option::None),
        Control::Call(t) => ((t, stack.push((pc + stride) as u64), n), Option::None),
        Control::Branch(t) => ((t, stack, n), Option::None),
        Control::Return => if stack.len() == 0 {
            (w, Option::Some(WalkEnd::Finished))
        } else {
            ((stack.last(), stack.drop_last(), n), Option::None)
        },
        Control::Abort => (w, Option::Some(WalkEnd::Aborted)),
    }
}

impl DlWalk {
    pub open spec fn state(&self) -> WalkState {
        (self.pc, self.return_stack@, self.dispatched)
    }

    /// A walk about to dispatch the command at `entry`.
    pub fn new(entry: u64) -> (r: Self)
        ensures
            r.state() == (entry, Seq::<u64>::empty(), 0u64),
    {
        DlWalk { pc: entry, return_stack: Vec::new(), dispatched: 0 }
    }

    /// The guard before each dispatch: past the dispatch cap the walk is runaway, and a
    /// command outside memory ends it; otherwise the command is counted.
    pub fn enter(&mut self, in_bounds: bool) -> (r: Option<WalkEnd>)
        ensures
            old(self).dispatched >= DISPATCH_CAP ==> r == Option::Some(WalkEnd::Runaway)
                && final(self).state() == old(self).state(),
            old(self).dispatched < DISPATCH_CAP && !in_bounds ==> r == Option::Some(WalkEnd::PastMemory)
                && final(self).state() == old(self).state(),
            old(self).dispatched < DISPATCH_CAP && in_bounds ==> r is None && final(self).state() == (
                old(self).pc,
                old(self).return_stack@,
                (old(self).dispatched + 1) as u64,
            ),
    {
        if self.dispatched >= DISPATCH_CAP {
            return Option::Some(WalkEnd::Runaway);
        }
        if !in_bounds {
            return Option::Some(WalkEnd::PastMemory);
        }
        self.dispatched = self.dispatched + 1;
        Option::None
    }

    /// Applies the control decision of the command at `pc` (see `spec_apply`).
    pub fn apply(&mut self, control: Control, stride: u64) -> (r: Option<WalkEnd>)
        requires
            control is Call ==> old(self).pc + stride <= u64::MAX,
        ensures
            (final(self).state(), r) == spec_apply(old(self).state(), control, stride),
    {
        match control {
            Control::Continue => Option::None,
            Control::Call(t) => {
                self.return_stack.push(self.pc + stride);
                self.pc = t;
                Option::None
            },
            Control::Branch(t) => {
                self.pc = t;
                Option::None
            },
            Control::Return => match self.return_stack.pop() {
                Option::Some(ret) => {
                    self.pc = ret;
                    Option::None
                },
                Option::None => Option::Some(WalkEnd::Finished),
            },
            Control::Abort => Option::Some(WalkEnd::Aborted),
        }
    }

    /// Moves past `words` commands; `false`, with nothing moved, when that would leave the
    /// address space.
    pub fn advance(&mut self, words: u64, stride: u64) -> (r: bool)
        ensures
            r == (old(self).pc + words * stride <= u64::MAX),
            r ==> final(self).state() == ((old(self).pc + words * stride) as u64, old(self).return_stack@, old(self).dispatched),
            !r ==> final(self).state() == old(self).state(),
    {
        match words.checked_mul(stride) {
            Option::None => {
                assert(words * stride > u64::MAX);
                false
            },
            Option::Some(step) => match self.pc.checked_add(step) {
                Option::None => false,
                Option::Some(p) => {
                    self.pc = p;
                    true
                },
            },
        }
    }
}

/// The control decision for command `c` under microcode `ucode`: a display-list command
/// calls (push bit clear) or branches to `target`, its resolved address; an end-list
/// command returns. F3DEX2's conditional commands go by `condition`, what the vertex state
/// decided (none when it could not): CULLDL returns when the vertices are culled, BRANCH_Z
/// branches to `target`, the resolved RDPHALF_1 address, when the depth test passes; a
/// microcode load aborts. Everything else continues.
pub open spec fn spec_control(ucode: GbiUcode, consts: GbiConstants, c: Cmd, target: u64, condition: Option<bool>) -> Control {
    let op = (c.w0 >> 24u32) as u8;
    if op == consts.g_dl {
        if field(c.w0, 16, 1) == 0 {
            Control::Call(target)
        } else {
            Control::Branch(target)
        }
    } else if op == consts.g_enddl {
        Control::Return
    } else if ucode == GbiUcode::F3dex2 && op == G_CULLDL {
        match condition {
            Option::Some(true) => Control::Return,
            Option::Some(false) => Control::Continue,
            Option::None => Control::Abort,
        }
    } else if ucode == GbiUcode::F3dex2 && op == G_BRANCH_Z {
        match condition {
            Option::Some(true) => Control::Branch(target),
            Option::Some(false) => Control::Continue,
            Option::None => Control::Abort,
        }
    } else if ucode == GbiUcode::F3dex2 && op == G_LOAD_UCODE {
        Control::Abort
    } else {
        Control::Continue
    }
}

pub fn decide_control(ucode: GbiUcode, consts: &GbiConstants, c: &Cmd, target: u64, condition: Option<bool>) -> (r: Control)
    ensures
        r == spec_control(ucode, *consts, *c, target, condition),
{
    let op = c.opcode();
    let f3dex2 = match ucode {
        GbiUcode::F3dex2 => true,
        GbiUcode::F3d => false,
    };
    if op == consts.g_dl {
        if c.p0(16, 1) == 0 {
            Control::Call(target)
        } else {
            Control::Branch(target)
        }
    } else if op == consts.g_enddl {
        Control::Return
    } else if f3dex2 && op == G_CULLDL {
        match condition {
            Option::Some(true) => Control::Return,
            Option::Some(false) => Control::Continue,
            Option::None => Control::Abort,
        }
    } else if f3dex2 && op == G_BRANCH_Z {
        match condition {
            Option::Some(true) => Control::Branch(target),
            Option::Some(false) => Control::Continue,
            Option::None => Control::Abort,
        }
    } else if f3dex2 && op == G_LOAD_UCODE {
        Control::Abort
    } else {
        Control::Continue
    }
}

/// A call followed by the matching return resumes right after the call, with the return
/// stack as it was.
pub proof fn lemma_call_then_return(w: WalkState, target: u64, stride: u64)
    requires
        w.0 + stride <= u64::MAX,
    ensures
        ({
            let (w1, e1) = spec_apply(w, Control::Call(target), stride);
            let (w2, e2) = spec_apply(w1, Control::Return, stride);
            &&& e1 is None && e2 is None
            &&& w2 == ((w.0 + stride) as u64, w.1, w.2)
        }),
{
    let (w1, e1) = spec_apply(w, Control::Call(target), stride);
    assert(w1.1.drop_last() =~= w.1);
}

/// A return with no open call ends the walk, and no control decision changes the dispatch
/// count.
pub proof fn lemma_return_ends_top_level(w: WalkState, control: Control, stride: u64)
    ensures
        w.1.len() == 0 ==> spec_apply(w, Control::Return, stride).1 == Option::Some(WalkEnd::Finished),
        spec_apply(w, control, stride).0.2 == w.2,
{
}
} // verus!
