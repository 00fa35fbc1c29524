use vstd::prelude::*;
use crate::memory::{Memory, RAM_SIZE, word_at, with_word, loaded, lemma_memory_len};
use crate::screen::{Screen, SIZE, blank, draw_rows, lemma_screen_len};

verus! {

/// The byte whose high nibble is `n1` and whose low nibble is `n2`.
pub fn u8_from_nibbles(n1: u8, n2: u8) -> (r: u8)
    ensures
        r == ((n1 << 4u8) | n2),
        n1 < 16 && n2 < 16 ==> r == n1 * 16 + n2,
{
    let r = (n1 << 4) | n2;
    assert(n1 < 16 && n2 < 16 ==> (n1 << 4u8) | n2 == n1 * 16 + n2) by (bit_vector);
    r
}

/// The word made of the four nibbles `n1` (highest) to `n4` (lowest).
pub fn u16_from_nibbles(n1: u8, n2: u8, n3: u8, n4: u8) -> (r: u16)
    ensures
        r == (((n1 as u16) << 12u16) | ((n2 as u16) << 8u16) | ((n3 as u16) << 4u16) | (n4 as u16)),
        n1 < 16 && n2 < 16 && n3 < 16 && n4 < 16 ==> r == n1 * 4096 + n2 * 256 + n3 * 16 + n4,
{
    let (a, b, c, d) = (n1 as u16, n2 as u16, n3 as u16, n4 as u16);
    assert(a < 16 && b < 16 && c < 16 && d < 16 ==> ((a << 12u16) | (b << 8u16) | (c << 4u16) | d)
        == a * 4096 + b * 256 + c * 16 + d) by (bit_vector);
    (a << 12) | (b << 8) | (c << 4) | d
}

/// The high and the low nibble of a byte.
pub fn u8_to_nibbles(i: u8) -> (r: (u8, u8))
    ensures
        r == (i / 16, i % 16),
{
    assert((0xF0u8 & i) >> 4u8 == i / 16 && 0x0Fu8 & i == i % 16) by (bit_vector);
    ((0xF0 & i) >> 4, 0x0F & i)
}

/// The four nibbles of a word, highest first.
pub fn u16_to_nibbles(i: u16) -> (r: (u8, u8, u8, u8))
    ensures
        r == ((i / 4096) as u8, ((i / 256) % 16) as u8, ((i / 16) % 16) as u8, (i % 16) as u8),
{
    assert((0xF000u16 & i) >> 12u16 == i / 4096 && (0x0F00u16 & i) >> 8u16 == (i / 256) % 16 && (0x00F0u16
        & i) >> 4u16 == (i / 16) % 16) by (bit_vector);
    assert(0x0Fu8 & (i as u8) == i % 16) by (bit_vector);
    (
        ((0xF000 & i) >> 12) as u8,
        ((0x0F00 & i) >> 8) as u8,
        ((0x00F0 & i) >> 4) as u8,
        0x000F & i as u8,
    )
}

/// One decoded instruction. Register operands are register numbers, `u16`
/// operands are 12-bit addresses, and `u8` values are immediate bytes.
#[derive(Debug, Clone, Copy, PartialEq, Eq, Structural)]
pub enum Instruction {
    Clear,
    Return,
    SetVx(u8, u8),
    SetIndex(u16),
    SetDelay(u8),
    SetSound(u8),
    SetVxToVy(u8, u8),
    SetFont(u8),
    ReadDelay(u8),
    Random(u8, u8),
    Add(u8, u8),
    AddToIndex(u8),
    AddVxToVy(u8, u8),
    SubtractVyFromVx(u8, u8),
    SubtractVxFromVy(u8, u8),
    ShiftRight(u8, u8),
    ShiftLeft(u8, u8),
    BinaryOr(u8, u8),
    BinaryAnd(u8, u8),
    BinaryXor(u8, u8),
    Bcd(u8),
    Jump(u16),
    JumpV0(u16),
    Call(u16),
    SkipIfEq(u8, u8),
    SkipIfNe(u8, u8),
    SkipIfVxVyEq(u8, u8),
    SkipIfVxVyNe(u8, u8),
    SkipIfPressed(u8),
    SkipIfNotPressed(u8),
    Draw(u8, u8, u8),
    Load(u8),
    Store(u8),
    WaitUntilPressed(u8),
}

/// The instruction that an opcode word stands for, by the CHIP-8 opcode table,
/// or `None` where the word matches no entry of it.
pub open spec fn decoded(op: u16) -> Option<Instruction> {
    let a = op / 4096;
    let x = ((op / 256) % 16) as u8;
    let y = ((op / 16) % 16) as u8;
    let n = (op % 16) as u8;
    let kk = (op % 256) as u8;
    let nnn = op % 4096;
    if op == 0x00E0 {
        Some(Instruction::Clear)
    } else if op == 0x00EE {
        Some(Instruction::Return)
    } else if a == 0x1 {
        Some(Instruction::Jump(nnn))
    } else if a == 0x2 {
        Some(Instruction::Call(nnn))
    } else if a == 0x3 {
        Some(Instruction::SkipIfEq(x, kk))
    } else if a == 0x4 {
        Some(Instruction::SkipIfNe(x, kk))
    } else if a == 0x5 && n == 0x0 {
        Some(Instruction::SkipIfVxVyEq(x, y))
    } else if a == 0x6 {
        Some(Instruction::SetVx(x, kk))
    } else if a == 0x7 {
        Some(Instruction::Add(x, kk))
    } else if a == 0x8 && n == 0x0 {
        Some(Instruction::SetVxToVy(x, y))
    } else if a == 0x8 && n == 0x1 {
        Some(Instruction::BinaryOr(x, y))
    } else if a == 0x8 && n == 0x2 {
        Some(Instruction::BinaryAnd(x, y))
    } else if a == 0x8 && n == 0x3 {
        Some(Instruction::BinaryXor(x, y))
    } else if a == 0x8 && n == 0x4 {
        Some(Instruction::AddVxToVy(x, y))
    } else if a == 0x8 && n == 0x5 {
        Some(Instruction::SubtractVyFromVx(x, y))
    } else if a == 0x8 && n == 0x6 {
        Some(Instruction::ShiftRight(x, y))
    } else if a == 0x8 && n == 0x7 {
        Some(Instruction::SubtractVxFromVy(x, y))
    } else if a == 0x8 && n == 0xE {
        Some(Instruction::ShiftLeft(x, y))
    } else if a == 0x9 && n == 0x0 {
        Some(Instruction::SkipIfVxVyNe(x, y))
    } else if a == 0xA {
        Some(Instruction::SetIndex(nnn))
    } else if a == 0xB {
        Some(Instruction::JumpV0(nnn))
    } else if a == 0xC {
        Some(Instruction::Random(x, kk))
    } else if a == 0xD {
        Some(Instruction::Draw(x, y, n))
    } else if a == 0xE && kk == 0xA1 {
        Some(Instruction::SkipIfNotPressed(x))
    } else if a == 0xE && kk == 0x9E {
        Some(Instruction::SkipIfPressed(x))
    } else if a == 0xF && kk == 0x07 {
        Some(Instruction::ReadDelay(x))
    } else if a == 0xF && kk == 0x0A {
        Some(Instruction::WaitUntilPressed(x))
    } else if a == 0xF && kk == 0x15 {
        Some(Instruction::SetDelay(x))
    } else if a == 0xF && kk == 0x18 {
        Some(Instruction::SetSound(x))
    } else if a == 0xF && kk == 0x1E {
        Some(Instruction::AddToIndex(x))
    } else if a == 0xF && kk == 0x29 {
        Some(Instruction::SetFont(x))
    } else if a == 0xF && kk == 0x33 {
        Some(Instruction::Bcd(x))
    } else if a == 0xF && kk == 0x55 {
        Some(Instruction::Store(x))
    } else if a == 0xF && kk == 0x65 {
        Some(Instruction::Load(x))
    } else {
        None
    }
}

proof fn lemma_nibbles(op: u16)
    ensures
        op == (op / 4096) * 4096 + ((op / 256) % 16) * 256 + ((op / 16) % 16) * 16 + op % 16,
        op % 256 == ((op / 16) % 16) * 16 + op % 16,
        op % 4096 == ((op / 256) % 16) * 256 + ((op / 16) % 16) * 16 + op % 16,
        op / 4096 < 16,
{
    assert(op == (op / 4096) * 4096 + ((op / 256) % 16) * 256 + ((op / 16) % 16) * 16 + op % 16)
        by (bit_vector);
    assert(op % 256 == ((op / 16) % 16) * 16 + op % 16) by (bit_vector);
    assert(op % 4096 == ((op / 256) % 16) * 256 + ((op / 16) % 16) * 16 + op % 16) by (bit_vector);
}

/// Decodes an opcode word; `None` where it matches no known instruction.
pub fn decode(opcode: u16) -> (r: Option<Instruction>)
    ensures
        r == decoded(opcode),
{
    proof {
        lemma_nibbles(opcode);
    }
    let r = match u16_to_nibbles(opcode) {
        (0x0, 0x0, 0xE, 0x0) => Some(Instruction::Clear),
        (0x0, 0x0, 0xE, 0xE) => Some(Instruction::Return),
        (0x1, n1, n2, n3) => Some(Instruction::Jump(u16_from_nibbles(0x0, n1, n2, n3))),
        (0x2, n1, n2, n3) => Some(Instruction::Call(u16_from_nibbles(0x0, n1, n2, n3))),
        (0x3, x, n1, n2) => Some(Instruction::SkipIfEq(x, u8_from_nibbles(n1, n2))),
        (0x4, x, n1, n2) => Some(Instruction::SkipIfNe(x, u8_from_nibbles(n1, n2))),
        (0x5, x, y, 0x0) => Some(Instruction::SkipIfVxVyEq(x, y)),
        (0x6, x, n1, n2) => Some(Instruction::SetVx(x, u8_from_nibbles(n1, n2))),
        (0x7, x, n1, n2) => Some(Instruction::Add(x, u8_from_nibbles(n1, n2))),
        (0x8, x, y, 0x0) => Some(Instruction::SetVxToVy(x, y)),
        (0x8, x, y, 0x1) => Some(Instruction::BinaryOr(x, y)),
        (0x8, x, y, 0x2) => Some(Instruction::BinaryAnd(x, y)),
        (0x8, x, y, 0x3) => Some(Instruction::BinaryXor(x, y)),
        (0x8, x, y, 0x4) => Some(Instruction::AddVxToVy(x, y)),
        (0x8, x, y, 0x5) => Some(Instruction::SubtractVyFromVx(x, y)),
        (0x8, x, y, 0x6) => Some(Instruction::ShiftRight(x, y)),
        (0x8, x, y, 0x7) => Some(Instruction::SubtractVxFromVy(x, y)),
        (0x8, x, y, 0xE) => Some(Instruction::ShiftLeft(x, y)),
        (0x9, x, y, 0x0) => Some(Instruction::SkipIfVxVyNe(x, y)),
        (0xA, n1, n2, n3) => Some(Instruction::SetIndex(u16_from_nibbles(0x0, n1, n2, n3))),
        (0xB, n1, n2, n3) => Some(Instruction::JumpV0(u16_from_nibbles(0x0, n1, n2, n3))),
        (0xC, x, n1, n2) => Some(Instruction::Random(x, u8_from_nibbles(n1, n2))),
        (0xD, x, y, n) => Some(Instruction::Draw(x, y, n)),
        (0xE, x, 0xA, 0x1) => Some(Instruction::SkipIfNotPressed(x)),
        (0xE, x, 0x9, 0xE) => Some(Instruction::SkipIfPressed(x)),
        (0xF, x, 0x0, 0x7) => Some(Instruction::ReadDelay(x)),
        (0xF, x, 0x0, 0xA) => Some(Instruction::WaitUntilPressed(x)),
        (0xF, x, 0x1, 0x5) => Some(Instruction::SetDelay(x)),
        (0xF, x, 0x1, 0x8) => Some(Instruction::SetSound(x)),
        (0xF, x, 0x1, 0xE) => Some(Instruction::AddToIndex(x)),
        (0xF, x, 0x2, 0x9) => Some(Instruction::SetFont(x)),
        (0xF, x, 0x3, 0x3) => Some(Instruction::Bcd(x)),
        (0xF, x, 0x5, 0x5) => Some(Instruction::Store(x)),
        (0xF, x, 0x6, 0x5) => Some(Instruction::Load(x)),
        _ => None,
    };
    r
}

/// Number of general-purpose registers V0 to VF.
pub const NUM_REGS: usize = 16;

/// Number of keys of the keypad.
pub const NUM_KEYS: usize = 16;

/// Address of the first instruction executed.
pub const ENTRY_POINT: u16 = 0x200;

/// Base of the call stack, which grows upward by one word per call.
pub const STACK_BASE: u16 = 0xFA0;

/// A condition under which the next cycle cannot run.
#[derive(Debug, Clone, Copy, PartialEq, Eq, Structural)]
pub enum Fault {
    /// The program counter leaves no room to fetch a whole word.
    ProgramCounterOutOfRange(u16),
    /// The word at the program counter is no known instruction.
    InvalidOpcode(u16),
    /// The instruction would touch memory past its end from the index register on.
    AddressOutOfRange(u16),
    /// The register that names a key holds a value that is no key.
    KeyOutOfRange(u8),
    /// A call or return would move the stack pointer out of memory.
    StackOutOfRange(u16),
}

/// The processor's state as plain values: registers, timers, keys, memory and screen.
pub struct CpuState {
    pub v: Seq<u8>,
    pub i: u16,
    pub pc: u16,
    pub sp: u16,
    pub dt: u8,
    pub st: u8,
    pub keys: Seq<bool>,
    pub mem: Seq<u8>,
    pub screen: Seq<bool>,
}

impl CpuState {
    pub open spec fn wf(&self) -> bool {
        &&& self.v.len() == NUM_REGS
        &&& self.keys.len() == NUM_KEYS
        &&& self.mem.len() == RAM_SIZE
        &&& self.screen.len() == SIZE
    }
}

/// The operands that name registers are register numbers.
pub open spec fn operands_in_range(inst: Instruction) -> bool {
    match inst {
        Instruction::Clear | Instruction::Return => true,
        Instruction::SetIndex(nnn) | Instruction::Jump(nnn) | Instruction::JumpV0(nnn)
        | Instruction::Call(nnn) => nnn < 0x1000,
        Instruction::SetVx(x, _) | Instruction::Random(x, _) | Instruction::Add(x, _)
        | Instruction::SkipIfEq(x, _) | Instruction::SkipIfNe(x, _) => x < 16,
        Instruction::SetDelay(x) | Instruction::SetSound(x) | Instruction::SetFont(x)
        | Instruction::ReadDelay(x) | Instruction::AddToIndex(x) | Instruction::Bcd(x)
        | Instruction::SkipIfPressed(x) | Instruction::SkipIfNotPressed(x) | Instruction::Load(x)
        | Instruction::Store(x) | Instruction::WaitUntilPressed(x) => x < 16,
        Instruction::SetVxToVy(x, y) | Instruction::AddVxToVy(x, y) | Instruction::SubtractVyFromVx(x, y)
        | Instruction::SubtractVxFromVy(x, y) | Instruction::ShiftRight(x, y) | Instruction::ShiftLeft(x, y)
        | Instruction::BinaryOr(x, y) | Instruction::BinaryAnd(x, y) | Instruction::BinaryXor(x, y)
        | Instruction::SkipIfVxVyEq(x, y) | Instruction::SkipIfVxVyNe(x, y) => x < 16 && y < 16,
        Instruction::Draw(x, y, n) => x < 16 && y < 16 && n < 16,
    }
}

/// Register arithmetic and register moves.
pub open spec fn is_alu(inst: Instruction) -> bool {
    match inst {
        Instruction::SetVx(..) | Instruction::SetVxToVy(..) | Instruction::ReadDelay(..)
        | Instruction::Random(..) | Instruction::Add(..) | Instruction::AddVxToVy(..)
        | Instruction::SubtractVyFromVx(..) | Instruction::SubtractVxFromVy(..)
        | Instruction::ShiftRight(..) | Instruction::ShiftLeft(..) | Instruction::BinaryOr(..)
        | Instruction::BinaryAnd(..) | Instruction::BinaryXor(..) => true,
        _ => false,
    }
}

/// The instructions that skip the next one on a condition.
pub open spec fn is_skip(inst: Instruction) -> bool {
    match inst {
        Instruction::SkipIfEq(..) | Instruction::SkipIfNe(..) | Instruction::SkipIfVxVyEq(..)
        | Instruction::SkipIfVxVyNe(..) | Instruction::SkipIfPressed(..)
        | Instruction::SkipIfNotPressed(..) => true,
        _ => false,
    }
}

/// Whether any key is down.
pub open spec fn any_pressed(keys: Seq<bool>) -> bool {
    exists|k: int| 0 <= k < keys.len() && #[trigger] keys[k]
}

/// The lowest-numbered key that is down.
pub open spec fn first_pressed(keys: Seq<bool>) -> int {
    choose|k: int| 0 <= k < keys.len() && keys[k] && forall|j: int| 0 <= j < k ==> !#[trigger] keys[j]
}

/// The fault, if any, that executing `inst` in state `s` would meet.
pub open spec fn execute_fault(s: CpuState, inst: Instruction) -> Option<Fault> {
    match inst {
        Instruction::Bcd(_) => if s.i + 2 >= RAM_SIZE {
            Some(Fault::AddressOutOfRange(s.i))
        } else {
            None
        },
        Instruction::Draw(_, _, n) => if n != 0 && s.i + n > RAM_SIZE {
            Some(Fault::AddressOutOfRange(s.i))
        } else {
            None
        },
        Instruction::Load(x) | Instruction::Store(x) => if s.i + x >= RAM_SIZE {
            Some(Fault::AddressOutOfRange(s.i))
        } else {
            None
        },
        Instruction::SkipIfPressed(x) | Instruction::SkipIfNotPressed(x) => if s.v[x as int] >= NUM_KEYS {
            Some(Fault::KeyOutOfRange(s.v[x as int]))
        } else {
            None
        },
        Instruction::Call(_) => if s.sp + 3 >= RAM_SIZE {
            Some(Fault::StackOutOfRange(s.sp))
        } else {
            None
        },
        Instruction::Return => if s.sp < 2 || s.sp + 1 >= RAM_SIZE {
            Some(Fault::StackOutOfRange(s.sp))
        } else {
            None
        },
        _ => None,
    }
}

/// `s` with the program counter advanced by `2`, unless it stays.
pub open spec fn skip_if(s: CpuState, cond: bool) -> CpuState {
    if cond {
        CpuState { pc: (s.pc + 2) as u16, ..s }
    } else {
        s
    }
}

/// The flag value of a condition: `1` where it holds, else `0`.
pub open spec fn flag(b: bool) -> u8 {
    if b {
        1
    } else {
        0
    }
}

/// The state after executing `inst` in state `s`, where `rnd` is the random byte
/// that `Random` draws.
pub open spec fn executed(s: CpuState, inst: Instruction, rnd: u8) -> CpuState {
    let v = s.v;
    match inst {
        Instruction::Clear => CpuState { screen: blank(), ..s },
        Instruction::Return => CpuState { pc: word_at(s.mem, s.sp as int), sp: (s.sp - 2) as u16, ..s },
        Instruction::SetVx(x, kk) => CpuState { v: v.update(x as int, kk), ..s },
        Instruction::SetIndex(nnn) => CpuState { i: nnn, ..s },
        Instruction::SetDelay(x) => CpuState { dt: v[x as int], ..s },
        Instruction::SetSound(x) => CpuState { st: v[x as int], ..s },
        Instruction::SetVxToVy(x, y) => CpuState { v: v.update(x as int, v[y as int]), ..s },
        Instruction::SetFont(x) => CpuState { i: (v[x as int] * 5) as u16, ..s },
        Instruction::ReadDelay(x) => CpuState { v: v.update(x as int, s.dt), ..s },
        Instruction::Random(x, kk) => CpuState { v: v.update(x as int, rnd & kk), ..s },
        Instruction::Add(x, kk) => CpuState { v: v.update(x as int, ((v[x as int] + kk) % 256) as u8), ..s },
        Instruction::AddToIndex(x) => {
            let i = ((s.i + v[x as int]) % 0x10000) as u16;
            CpuState {
                i,
                v: if i >= 0x1000 {
                    v.update(15, 1)
                } else {
                    v
                },
                ..s
            }
        },
        Instruction::AddVxToVy(x, y) => {
            let sum = v[x as int] + v[y as int];
            CpuState { v: v.update(x as int, (sum % 256) as u8).update(15, flag(sum > 255)), ..s }
        },
        Instruction::SubtractVyFromVx(x, y) => {
            let diff = v[x as int] - v[y as int];
            CpuState { v: v.update(x as int, ((diff + 256) % 256) as u8).update(15, flag(diff >= 0)), ..s }
        },
        Instruction::SubtractVxFromVy(x, y) => {
            let diff = v[y as int] - v[x as int];
            CpuState { v: v.update(x as int, ((diff + 256) % 256) as u8).update(15, flag(diff >= 0)), ..s }
        },
        Instruction::ShiftRight(x, y) => CpuState {
            v: v.update(x as int, v[y as int] / 2).update(15, v[y as int] % 2),
            ..s
        },
        Instruction::ShiftLeft(x, y) => CpuState {
            v: v.update(x as int, ((v[y as int] * 2) % 256) as u8).update(15, v[y as int] / 128),
            ..s
        },
        Instruction::BinaryOr(x, y) => CpuState {
            v: v.update(15, 0).update(x as int, v[x as int] | v[y as int]),
            ..s
        },
        Instruction::BinaryAnd(x, y) => CpuState {
            v: v.update(15, 0).update(x as int, v[x as int] & v[y as int]),
            ..s
        },
        Instruction::BinaryXor(x, y) => CpuState {
            v: v.update(15, 0).update(x as int, v[x as int] ^ v[y as int]),
            ..s
        },
        Instruction::Bcd(x) => CpuState {
            mem: s.mem.update(s.i as int, v[x as int] / 100).update(s.i + 1, (v[x as int] / 10) % 10).update(
                s.i + 2,
                v[x as int] % 10,
            ),
            ..s
        },
        Instruction::Jump(nnn) => CpuState { pc: nnn, ..s },
        Instruction::JumpV0(nnn) => CpuState { pc: (nnn + v[0]) as u16, ..s },
        Instruction::Call(nnn) => CpuState {
            sp: (s.sp + 2) as u16,
            mem: with_word(s.mem, s.sp + 2, s.pc),
            pc: nnn,
            ..s
        },
        Instruction::SkipIfEq(x, kk) => skip_if(s, v[x as int] == kk),
        Instruction::SkipIfNe(x, kk) => skip_if(s, v[x as int] != kk),
        Instruction::SkipIfVxVyEq(x, y) => skip_if(s, v[x as int] == v[y as int]),
        Instruction::SkipIfVxVyNe(x, y) => skip_if(s, v[x as int] != v[y as int]),
        Instruction::SkipIfPressed(x) => skip_if(s, s.keys[v[x as int] as int]),
        Instruction::SkipIfNotPressed(x) => skip_if(s, !s.keys[v[x as int] as int]),
        Instruction::Draw(x, y, n) => {
            let (screen, collided) = draw_rows(s.screen, s.mem, s.i as int, v[x as int] as int, v[y as int] as int, n as nat);
            CpuState { screen, v: v.update(15, flag(collided)), ..s }
        },
        Instruction::Load(x) => CpuState {
            v: Seq::new(NUM_REGS as nat, |r: int| if r <= x { s.mem[s.i + r] } else { v[r] }),
            ..s
        },
        Instruction::Store(x) => CpuState { mem: loaded(s.mem, v.subrange(0, x + 1), s.i as int), ..s },
        Instruction::WaitUntilPressed(x) => if any_pressed(s.keys) {
            CpuState { v: v.update(x as int, first_pressed(s.keys) as u8), ..s }
        } else {
            CpuState { pc: (s.pc - 2) as u16, ..s }
        },
    }
}

/// The opcode word at the program counter.
pub open spec fn opcode_at_pc(s: CpuState) -> u16 {
    word_at(s.mem, s.pc as int)
}

/// `s` with the program counter moved past the word just fetched.
pub open spec fn fetched(s: CpuState) -> CpuState {
    CpuState { pc: (s.pc + 2) as u16, ..s }
}

/// The fault, if any, that the next cycle from state `s` would meet.
pub open spec fn fault_of(s: CpuState) -> Option<Fault> {
    if s.pc + 1 >= RAM_SIZE {
        Some(Fault::ProgramCounterOutOfRange(s.pc))
    } else {
        match decoded(opcode_at_pc(s)) {
            None => Some(Fault::InvalidOpcode(opcode_at_pc(s))),
            Some(inst) => execute_fault(fetched(s), inst),
        }
    }
}

/// The state after one fetch, decode and execute cycle from `s`, where `rnd` is
/// the random byte that a `Random` instruction draws.
pub open spec fn step(s: CpuState, rnd: u8) -> CpuState {
    match decoded(opcode_at_pc(s)) {
        Some(inst) => executed(fetched(s), inst, rnd),
        None => s,
    }
}

/// The CHIP-8 processor: registers, timers, keypad, and the memory and screen it owns.
pub struct CPU {
    /// V registers
    v: [u8; NUM_REGS],
    /// I register
    i: u16,
    /// program counter
    pc: u16,
    /// stack pointer
    sp: u16,
    /// delay timer
    dt: u8,
    /// sound timer
    st: u8,
    /// currently pressed keys
    keys: [bool; NUM_KEYS],
    /// RAM
    memory: Memory,
    /// screen buffer
    screen: Screen,
}

impl View for CPU {
    type V = CpuState;

    closed spec fn view(&self) -> CpuState {
        CpuState {
            v: self.v@,
            i: self.i,
            pc: self.pc,
            sp: self.sp,
            dt: self.dt,
            st: self.st,
            keys: self.keys@,
            mem: self.memory@,
            screen: self.screen@,
        }
    }
}

/// The state of every processor has registers, keys, memory and screen of their fixed sizes.
pub broadcast proof fn lemma_cpu_wf(c: &CPU)
    ensures
        #[trigger] c@.wf(),
{
    broadcast use {lemma_memory_len, lemma_screen_len};

}

impl CPU {
    /// A processor at the entry point, with the given memory and a blank screen.
    pub fn new(memory: Memory) -> (r: CPU)
        ensures
            r@ == (CpuState {
                v: Seq::new(NUM_REGS as nat, |k: int| 0u8),
                i: 0,
                pc: ENTRY_POINT,
                sp: STACK_BASE,
                dt: 0,
                st: 0,
                keys: Seq::new(NUM_KEYS as nat, |k: int| false),
                mem: memory@,
                screen: blank(),
            }),
    {
        let r = CPU {
            v: [0u8; NUM_REGS],
            i: 0,
            pc: ENTRY_POINT,
            sp: STACK_BASE,
            dt: 0,
            st: 0,
            keys: [false; NUM_KEYS],
            memory,
            screen: Screen::new(),
        };
        assert(r.v@ =~= Seq::new(NUM_REGS as nat, |k: int| 0u8));
        assert(r.keys@ =~= Seq::new(NUM_KEYS as nat, |k: int| false));
        r
    }

    /// Sets whether key `key` is down.
    pub fn press_key(&mut self, key: usize, pressed: bool)
        requires
            key < NUM_KEYS,
        ensures
            final(self)@ == (CpuState { keys: old(self)@.keys.update(key as int, pressed), ..old(self)@ }),
    {
        self.keys[key] = pressed;
    }

    /// The framebuffer, row-major with 64 cells per row.
    pub fn screen_buffer(&self) -> (r: &[bool])
        ensures
            r@ == self@.screen,
    {
        self.screen.buffer().as_slice()
    }

    /// Whether the tone sounds: while the sound timer is above 2.
    pub fn is_sound_playing(&self) -> (r: bool)
        ensures
            r == (self@.st > 2),
    {
        self.st > 2
    }

    /// Counts the delay and the sound timer down by one each, stopping at zero.
    pub fn tick_timers(&mut self)
        ensures
            final(self)@ == (CpuState {
                dt: if old(self)@.dt > 0 { (old(self)@.dt - 1) as u8 } else { 0 },
                st: if old(self)@.st > 0 { (old(self)@.st - 1) as u8 } else { 0 },
                ..old(self)@
            }),
    {
        if self.dt > 0 {
            self.dt -= 1;
        }
        if self.st > 0 {
            self.st -= 1;
        }
    }

    /// Reads the opcode word at the program counter and moves past it.
    fn fetch(&mut self) -> (r: u16)
        requires
            old(self)@.pc + 1 < RAM_SIZE,
        ensures
            r == opcode_at_pc(old(self)@),
            final(self)@ == fetched(old(self)@),
    {
        let opcode = self.memory.read_u16(self.pc);
        self.pc += 2;
        opcode
    }

    /// Applies the effect of one decoded instruction; `rnd` is the byte that
    /// `Random` masks.
    fn execute(&mut self, inst: Instruction, rnd: u8)
        requires
            operands_in_range(inst),
            execute_fault(old(self)@, inst) is None,
            old(self)@.pc + 2 < 0x10000,
            old(self)@.pc >= 2,
        ensures
            final(self)@ == executed(old(self)@, inst, rnd),
    {
        broadcast use {lemma_memory_len, lemma_screen_len};

        match inst {
            Instruction::Clear => self.screen.clear(),
            Instruction::Return => {
                let addr = self.memory.read_u16(self.sp);
                self.sp -= 2;
                self.pc = addr;
            },
            Instruction::SetVx(..) | Instruction::SetVxToVy(..) | Instruction::ReadDelay(..)
            | Instruction::Random(..) | Instruction::Add(..) | Instruction::AddVxToVy(..)
            | Instruction::SubtractVyFromVx(..) | Instruction::SubtractVxFromVy(..)
            | Instruction::ShiftRight(..) | Instruction::ShiftLeft(..) | Instruction::BinaryOr(..)
            | Instruction::BinaryAnd(..) | Instruction::BinaryXor(..) => self.execute_alu(inst, rnd),
            Instruction::SetIndex(val) => self.i = val,
            Instruction::SetDelay(x) => self.dt = self.v[x as usize],
            Instruction::SetSound(x) => self.st = self.v[x as usize],
            Instruction::SetFont(x) => {
                let vx = self.v[x as usize];
                self.i = vx as u16 * 5;
            },
            Instruction::AddToIndex(x) => {
                self.i = self.i.wrapping_add(self.v[x as usize] as u16);
                if self.i >= 0x1000 {
                    self.v[0xF] = 1;
                }
            },
            Instruction::Bcd(x) => {
                let vx = self.v[x as usize];
                self.memory.write_u8(self.i, vx / 100);
                self.memory.write_u8(self.i + 1, (vx / 10) % 10);
                self.memory.write_u8(self.i + 2, vx % 10);
            },
            Instruction::Draw(x, y, rows) => {
                let vx = self.v[x as usize];
                let vy = self.v[y as usize];
                let collided = self.screen.draw(&self.memory, self.i, vx, vy, rows);
                self.v[0xF] = if collided { 1 } else { 0 };
            },
            Instruction::SkipIfEq(..) | Instruction::SkipIfNe(..) | Instruction::SkipIfVxVyEq(..)
            | Instruction::SkipIfVxVyNe(..) | Instruction::SkipIfPressed(..)
            | Instruction::SkipIfNotPressed(..) => self.execute_skip(inst),
            Instruction::Jump(addr) => self.pc = addr,
            Instruction::JumpV0(addr) => self.pc = addr + self.v[0x0] as u16,
            Instruction::Call(addr) => {
                self.sp += 2;
                self.memory.write_u16(self.sp, self.pc);
                self.pc = addr;
            },
            Instruction::Load(x) => self.load_registers(x),
            Instruction::Store(x) => self.store_registers(x),
            Instruction::WaitUntilPressed(x) => self.wait_for_key(x),
        }
    }

    /// The register arithmetic and register moves.
    fn execute_alu(&mut self, inst: Instruction, rnd: u8)
        requires
            is_alu(inst),
            operands_in_range(inst),
        ensures
            final(self)@ == executed(old(self)@, inst, rnd),
    {
        broadcast use lemma_cpu_wf;

        match inst {
            Instruction::SetVx(x, val) => self.v[x as usize] = val,
            Instruction::SetVxToVy(x, y) => self.v[x as usize] = self.v[y as usize],
            Instruction::ReadDelay(x) => self.v[x as usize] = self.dt,
            Instruction::Random(x, val) => self.v[x as usize] = rnd & val,
            Instruction::Add(x, val) => {
                let sum = self.v[x as usize] as u16 + val as u16;
                self.v[x as usize] = (sum % 256) as u8;
            },
            Instruction::AddVxToVy(x, y) => {
                let sum = self.v[x as usize] as u16 + self.v[y as usize] as u16;
                self.v[x as usize] = (sum % 256) as u8;
                self.v[0xF] = if sum > 255 { 1 } else { 0 };
            },
            Instruction::SubtractVyFromVx(x, y) => {
                let vx = self.v[x as usize];
                let vy = self.v[y as usize];
                self.v[x as usize] = vx.wrapping_sub(vy);
                self.v[0xF] = if vx >= vy { 1 } else { 0 };
            },
            Instruction::SubtractVxFromVy(x, y) => {
                let vx = self.v[x as usize];
                let vy = self.v[y as usize];
                self.v[x as usize] = vy.wrapping_sub(vx);
                self.v[0xF] = if vy >= vx { 1 } else { 0 };
            },
            Instruction::ShiftRight(x, y) => {
                let vy = self.v[y as usize];
                self.v[x as usize] = vy / 2;
                self.v[0xF] = vy % 2;
            },
            Instruction::ShiftLeft(x, y) => {
                let vy = self.v[y as usize];
                self.v[x as usize] = ((vy as u16 * 2) % 256) as u8;
                self.v[0xF] = vy / 128;
            },
            Instruction::BinaryOr(x, y) => {
                let vx = self.v[x as usize];
                let vy = self.v[y as usize];
                self.v[0xF] = 0;
                self.v[x as usize] = vx | vy;
            },
            Instruction::BinaryAnd(x, y) => {
                let vx = self.v[x as usize];
                let vy = self.v[y as usize];
                self.v[0xF] = 0;
                self.v[x as usize] = vx & vy;
            },
            Instruction::BinaryXor(x, y) => {
                let vx = self.v[x as usize];
                let vy = self.v[y as usize];
                self.v[0xF] = 0;
                self.v[x as usize] = vx ^ vy;
            },
            _ => {},
        }
    }

    /// The instructions that skip the next one on a condition.
    fn execute_skip(&mut self, inst: Instruction)
        requires
            is_skip(inst),
            operands_in_range(inst),
            execute_fault(old(self)@, inst) is None,
            old(self)@.pc + 2 < 0x10000,
        ensures
            final(self)@ == executed(old(self)@, inst, 0),
    {
        broadcast use lemma_cpu_wf;

        match inst {
            Instruction::SkipIfEq(x, val) => {
                if self.v[x as usize] == val {
                    self.pc += 2;
                }
            },
            Instruction::SkipIfNe(x, val) => {
                if self.v[x as usize] != val {
                    self.pc += 2;
                }
            },
            Instruction::SkipIfVxVyEq(x, y) => {
                if self.v[x as usize] == self.v[y as usize] {
                    self.pc += 2;
                }
            },
            Instruction::SkipIfVxVyNe(x, y) => {
                if self.v[x as usize] != self.v[y as usize] {
                    self.pc += 2;
                }
            },
            Instruction::SkipIfPressed(x) => {
                if self.keys[self.v[x as usize] as usize] {
                    self.pc += 2;
                }
            },
            Instruction::SkipIfNotPressed(x) => {
                if !self.keys[self.v[x as usize] as usize] {
                    self.pc += 2;
                }
            },
            _ => {},
        }
    }

    /// Writes the lowest key that is down into Vx; with no key down, moves the
    /// program counter back so that this instruction runs again next cycle.
    fn wait_for_key(&mut self, x: u8)
        requires
            x < 16,
            old(self)@.pc >= 2,
        ensures
            final(self)@ == executed(old(self)@, Instruction::WaitUntilPressed(x), 0),
    {
        broadcast use lemma_cpu_wf;

        let mut k: usize = 0;
        while k < NUM_KEYS && !self.keys[k]
            invariant
                k <= NUM_KEYS,
                self.keys@.len() == NUM_KEYS,
                forall|j: int| 0 <= j < k ==> !#[trigger] self.keys@[j],
            decreases NUM_KEYS - k,
        {
            k += 1;
        }
        if k < NUM_KEYS {
            proof {
                let f = first_pressed(self.keys@);
                assert(any_pressed(self.keys@));
                assert(f == k as int) by {
                    if f < k {
                        assert(!self.keys@[f]);
                    }
                    if k < f {
                        assert(!self.keys@[k as int]);
                    }
                }
            }
            self.v[x as usize] = k as u8;
        } else {
            // no key is down: fetch this instruction again next cycle
            self.pc -= 2;
        }
    }

    /// Copies memory from the index register on into registers V0 to Vx.
    fn load_registers(&mut self, x: u8)
        requires
            x < 16,
            old(self)@.i + x < RAM_SIZE,
        ensures
            final(self)@ == executed(old(self)@, Instruction::Load(x), 0),
    {
        broadcast use {lemma_memory_len, lemma_cpu_wf};

        let ghost s = self@;
        assert(s.v =~= Seq::new(NUM_REGS as nat, |r: int| if r < 0 { s.mem[s.i + r] } else { s.v[r] }));
        let mut n: u8 = 0;
        while n <= x
            invariant
                x < 16,
                n <= x + 1,
                s.i + x < RAM_SIZE,
                s.wf(),
                self@ == (CpuState {
                    v: Seq::new(NUM_REGS as nat, |r: int| if r < n { s.mem[s.i + r] } else { s.v[r] }),
                    ..s
                }),
            decreases x + 1 - n,
        {
            let b = self.memory.read_u8(self.i + n as u16);
            self.v[n as usize] = b;
            proof {
                assert(self.v@ =~= Seq::new(NUM_REGS as nat, |r: int| if r < n + 1 { s.mem[s.i + r] } else { s.v[r] }));
            }
            n += 1;
        }
        assert(self.v@ =~= Seq::new(NUM_REGS as nat, |r: int| if r <= x { s.mem[s.i + r] } else { s.v[r] }));
    }

    /// Copies registers V0 to Vx into memory from the index register on.
    fn store_registers(&mut self, x: u8)
        requires
            x < 16,
            old(self)@.i + x < RAM_SIZE,
        ensures
            final(self)@ == executed(old(self)@, Instruction::Store(x), 0),
    {
        broadcast use {lemma_memory_len, lemma_cpu_wf};

        let ghost s = self@;
        assert(s.mem =~= loaded(s.mem, s.v.subrange(0, 0), s.i as int));
        let mut n: u8 = 0;
        while n <= x
            invariant
                x < 16,
                n <= x + 1,
                s.i + x < RAM_SIZE,
                s.wf(),
                self@ == (CpuState { mem: loaded(s.mem, s.v.subrange(0, n as int), s.i as int), ..s }),
            decreases x + 1 - n,
        {
            let b = self.v[n as usize];
            self.memory.write_u8(self.i + n as u16, b);
            proof {
                assert(self.memory@ =~= loaded(s.mem, s.v.subrange(0, n + 1), s.i as int));
            }
            n += 1;
        }
    }

    /// The fault that executing `inst` would meet; only the index register, the
    /// stack pointer and the registers are read, never the program counter.
    fn execute_fault_of(&self, inst: Instruction) -> (r: Option<Fault>)
        requires
            operands_in_range(inst),
        ensures
            r == execute_fault(self@, inst),
    {
        match inst {
            Instruction::Bcd(_) => if self.i as usize + 2 >= RAM_SIZE {
                Some(Fault::AddressOutOfRange(self.i))
            } else {
                None
            },
            Instruction::Draw(_, _, n) => if n != 0 && self.i as usize + n as usize > RAM_SIZE {
                Some(Fault::AddressOutOfRange(self.i))
            } else {
                None
            },
            Instruction::Load(x) | Instruction::Store(x) => if self.i as usize + x as usize >= RAM_SIZE {
                Some(Fault::AddressOutOfRange(self.i))
            } else {
                None
            },
            Instruction::SkipIfPressed(x) | Instruction::SkipIfNotPressed(x) => {
                let k = self.v[x as usize];
                if k as usize >= NUM_KEYS {
                    Some(Fault::KeyOutOfRange(k))
                } else {
                    None
                }
            },
            Instruction::Call(_) => if self.sp as usize + 3 >= RAM_SIZE {
                Some(Fault::StackOutOfRange(self.sp))
            } else {
                None
            },
            Instruction::Return => if self.sp < 2 || self.sp as usize + 1 >= RAM_SIZE {
                Some(Fault::StackOutOfRange(self.sp))
            } else {
                None
            },
            _ => None,
        }
    }

    /// The fault that the next cycle would meet, or `None` where it can run.
    pub fn next_fault(&self) -> (r: Option<Fault>)
        ensures
            r == fault_of(self@),
    {
        if self.pc as usize + 1 >= RAM_SIZE {
            return Some(Fault::ProgramCounterOutOfRange(self.pc));
        }
        let opcode = self.memory.read_u16(self.pc);
        proof {
            lemma_decoded_in_range(opcode);
        }
        match decode(opcode) {
            None => Some(Fault::InvalidOpcode(opcode)),
            Some(inst) => self.execute_fault_of(inst),
        }
    }

    /// Runs one fetch, decode and execute cycle, with `random` as the byte that a
    /// `Random` instruction draws.
    pub fn tick_with_random(&mut self, random: u8)
        requires
            fault_of(old(self)@) is None,
        ensures
            final(self)@ == step(old(self)@, random),
    {
        proof {
            lemma_decoded_in_range(opcode_at_pc(self@));
        }
        let opcode = self.fetch();
        match decode(opcode) {
            Some(inst) => self.execute(inst, random),
            None => {},
        }
    }

    /// Runs one fetch, decode and execute cycle; a `Random` instruction draws its
    /// byte from the thread's random number generator.
    pub fn tick(&mut self)
        requires
            fault_of(old(self)@) is None,
        ensures
            exists|r: u8| final(self)@ == step(old(self)@, r),
    {
        let r = random_byte();
        self.tick_with_random(r);
    }

    /// The value of register `Vx`.
    pub fn register(&self, x: usize) -> (r: u8)
        requires
            x < NUM_REGS,
        ensures
            r == self@.v[x as int],
    {
        self.v[x]
    }

    /// The index register `I`.
    pub fn index(&self) -> (r: u16)
        ensures
            r == self@.i,
    {
        self.i
    }

    /// The program counter.
    pub fn program_counter(&self) -> (r: u16)
        ensures
            r == self@.pc,
    {
        self.pc
    }

    /// The stack pointer.
    pub fn stack_pointer(&self) -> (r: u16)
        ensures
            r == self@.sp,
    {
        self.sp
    }

    /// The delay timer.
    pub fn delay_timer(&self) -> (r: u8)
        ensures
            r == self@.dt,
    {
        self.dt
    }

    /// The sound timer.
    pub fn sound_timer(&self) -> (r: u8)
        ensures
            r == self@.st,
    {
        self.st
    }

    /// The memory, for reading.
    pub fn memory(&self) -> (r: &Memory)
        ensures
            r@ == self@.mem,
    {
        &self.memory
    }
}

/// Relies on rand's `thread_rng` and `Rng::gen_range(0..=0xFF)`: a byte drawn
/// uniformly from the thread-local generator. The range is not empty, so the
/// call does not panic; which byte comes back is left open.
#[verifier::external_body]
fn random_byte() -> (r: u8) {
    rand::Rng::gen_range(&mut rand::thread_rng(), 0..=0xFFu8)
}

/// The register operands of every decoded instruction are register numbers.
proof fn lemma_decoded_in_range(op: u16)
    ensures
        decoded(op) matches Some(inst) ==> operands_in_range(inst),
{
}

/// Whatever was drawn before, a cycle that runs the clear opcode `00E0` leaves
/// every pixel off.
pub proof fn lemma_clear_blanks_screen(s: CpuState, rnd: u8)
    requires
        s.wf(),
        s.pc + 1 < RAM_SIZE,
        opcode_at_pc(s) == 0x00E0,
    ensures
        step(s, rnd).screen == blank(),
        forall|k: int| 0 <= k < SIZE ==> !#[trigger] step(s, rnd).screen[k],
{
}

/// A cycle on a key-wait instruction with no key down changes nothing: the program
/// counter is back on the same instruction, which runs again next cycle. Once key
/// `key` alone is down, the cycle writes `key` into `Vx` and moves the program
/// counter past the instruction.
pub proof fn lemma_wait_until_pressed(s: CpuState, rnd: u8, x: u8, key: int)
    requires
        s.wf(),
        s.pc + 1 < RAM_SIZE,
        decoded(opcode_at_pc(s)) == Some(Instruction::WaitUntilPressed(x)),
        forall|k: int| 0 <= k < NUM_KEYS ==> !#[trigger] s.keys[k],
        0 <= key < NUM_KEYS,
    ensures
        step(s, rnd) == s,
        ({
            let pressed = CpuState { keys: s.keys.update(key, true), ..s };
            &&& step(pressed, rnd).v[x as int] == key
            &&& step(pressed, rnd).pc == s.pc + 2
        }),
{
    let pressed = CpuState { keys: s.keys.update(key, true), ..s };
    assert(!any_pressed(s.keys));
    assert(pressed.keys[key]);
    assert(any_pressed(pressed.keys));
    let f = first_pressed(pressed.keys);
    assert(f == key) by {
        if f < key {
            assert(!pressed.keys[f]);
        }
        if key < f {
            assert(!pressed.keys[key]);
        }
    }
    lemma_decoded_in_range(opcode_at_pc(s));
}

} // verus!
