//! The mathematical model of the machine and the meaning of each instruction.
use vstd::prelude::*;
use crate::instruction::{decode_spec, Instruction};

verus! {

/// Width of the display in pixels.
pub const SCREEN_WIDTH: usize = 64;
/// Height of the display in pixels.
pub const SCREEN_HEIGHT: usize = 32;
/// Number of pixels on the display.
pub const SCREEN_SIZE: usize = 2048;
/// Bytes of memory.
pub const RAM_SIZE: usize = 4096;
/// Number of general registers `V0..=VF`.
pub const NUM_REGS: usize = 16;
/// Depth of the call stack.
pub const STACK_SIZE: usize = 16;
/// Number of keys on the keypad.
pub const NUM_KEYS: usize = 16;
/// Where programs are loaded and where execution starts.
pub const START_ADDR: u16 = 0x200;
/// Bytes of the built-in font (sixteen glyphs of five bytes).
pub const FONTSET_SIZE: usize = 80;

/// The glyphs `0`..`F`, five rows each, stored at address 0.
pub const FONTSET: [u8; 80] = [
    0xF0, 0x90, 0x90, 0x90, 0xF0, // 0
    0x20, 0x60, 0x20, 0x20, 0x70, // 1
    0xF0, 0x10, 0xF0, 0x80, 0xF0, // 2
    0xF0, 0x10, 0xF0, 0x10, 0xF0, // 3
    0x90, 0x90, 0xF0, 0x10, 0x10, // 4
    0xF0, 0x80, 0xF0, 0x10, 0xF0, // 5
    0xF0, 0x80, 0xF0, 0x90, 0xF0, // 6
    0xF0, 0x10, 0x20, 0x40, 0x40, // 7
    0xF0, 0x90, 0xF0, 0x90, 0xF0, // 8
    0xF0, 0x90, 0xF0, 0x10, 0xF0, // 9
    0xF0, 0x90, 0xF0, 0x90, 0x90, // A
    0xE0, 0x90, 0xE0, 0x90, 0xE0, // B
    0xF0, 0x80, 0x80, 0x80, 0xF0, // C
    0xE0, 0x90, 0x90, 0x90, 0xE0, // D
    0xF0, 0x80, 0xF0, 0x80, 0xF0, // E
    0xF0, 0x80, 0xF0, 0x80, 0x80, // F
];

/// The whole observable state of the machine.
#[verifier::ext_equal]
pub struct EmuState {
    pub pc: u16,
    pub ram: Seq<u8>,
    pub screen: Seq<bool>,
    pub v: Seq<u8>,
    pub i: u16,
    pub sp: u16,
    pub stack: Seq<u16>,
    pub keys: Seq<bool>,
    pub delay: u8,
    pub sound: u8,
}

impl EmuState {
    /// The sizes of the memories and the bound on the stack pointer.
    pub open spec fn wf(self) -> bool {
        &&& self.ram.len() == RAM_SIZE
        &&& self.screen.len() == SCREEN_SIZE
        &&& self.v.len() == NUM_REGS
        &&& self.stack.len() == STACK_SIZE
        &&& self.keys.len() == NUM_KEYS
        &&& self.sp <= STACK_SIZE
    }
}

/// Memory at power-on: the font at address 0, zero elsewhere.
pub open spec fn initial_ram() -> Seq<u8> {
    Seq::new(RAM_SIZE as nat, |a: int| if a < FONTSET_SIZE { FONTSET@[a] } else { 0u8 })
}

/// The machine at power-on and after a reset.
pub open spec fn initial_state() -> EmuState {
    EmuState {
        pc: START_ADDR,
        ram: initial_ram(),
        screen: Seq::new(SCREEN_SIZE as nat, |p: int| false),
        v: Seq::new(NUM_REGS as nat, |k: int| 0u8),
        i: 0,
        sp: 0,
        stack: Seq::new(STACK_SIZE as nat, |k: int| 0u16),
        keys: Seq::new(NUM_KEYS as nat, |k: int| false),
        delay: 0,
        sound: 0,
    }
}

/// `s` with register `x` set to `val`.
pub open spec fn set_reg(s: EmuState, x: int, val: u8) -> EmuState {
    EmuState { v: s.v.update(x, val), ..s }
}

/// `s` with the next instruction skipped when `cond` holds.
pub open spec fn skip_if(s: EmuState, cond: bool) -> EmuState {
    if cond {
        EmuState { pc: (s.pc + 2) as u16, ..s }
    } else {
        s
    }
}

/// Bit `c` of `b`, counting from the most significant bit (`c == 0`).
pub open spec fn byte_bit(b: u8, c: int) -> bool {
    (b >> ((7 - c) as u8)) & 1u8 == 1u8
}

/// The sprite row that screen pixel `p` falls in when drawing at row `VY`.
pub open spec fn sprite_row(s: EmuState, y: int, p: int) -> int {
    (p / (SCREEN_WIDTH as int) - s.v[y]) % (SCREEN_HEIGHT as int)
}

/// The sprite column that screen pixel `p` falls in when drawing at column `VX`.
pub open spec fn sprite_col(s: EmuState, x: int, p: int) -> int {
    (p % (SCREEN_WIDTH as int) - s.v[x]) % (SCREEN_WIDTH as int)
}

/// Whether the `rows`-row sprite at `I`, placed at `(VX, VY)` and wrapping
/// around the screen edges, has a set bit over screen pixel `p`.
pub open spec fn sprite_covers(s: EmuState, x: int, y: int, rows: int, p: int) -> bool {
    let r = sprite_row(s, y, p);
    let c = sprite_col(s, x, p);
    r < rows && c < 8 && byte_bit(s.ram[s.i + r], c)
}

/// Whether drawing the sprite turns off a pixel that was on.
pub open spec fn sprite_collides(s: EmuState, x: int, y: int, rows: int) -> bool {
    exists|p: int| 0 <= p < s.screen.len() && s.screen[p] && #[trigger] sprite_covers(s, x, y, rows, p)
}

/// The screen after XOR-ing the sprite onto it.
pub open spec fn drawn_screen(s: EmuState, x: int, y: int, rows: int) -> Seq<bool> {
    Seq::new(s.screen.len(), |p: int| s.screen[p] != sprite_covers(s, x, y, rows, p))
}

/// `DXYN`: the sprite XOR-ed onto the screen; `VF` is 1 exactly when a lit pixel
/// was turned off.
pub open spec fn draw_spec(s: EmuState, x: int, y: int, rows: int) -> EmuState {
    EmuState {
        screen: drawn_screen(s, x, y, rows),
        v: s.v.update(0xF, if sprite_collides(s, x, y, rows) { 1u8 } else { 0u8 }),
        ..s
    }
}

/// The lowest key at index `k` or above that is down, or the number of keys if none is.
pub open spec fn first_pressed_from(keys: Seq<bool>, k: int) -> int
    decreases keys.len() - k,
{
    if k >= keys.len() {
        keys.len() as int
    } else if keys[k] {
        k
    } else {
        first_pressed_from(keys, k + 1)
    }
}

/// The lowest key that is down, or the number of keys if none is.
pub open spec fn first_pressed(keys: Seq<bool>) -> int {
    first_pressed_from(keys, 0)
}

/// The inputs on which executing `ins` neither indexes outside memory, the
/// stack or the keypad nor overflows the program counter.
pub open spec fn execute_defined(s: EmuState, ins: Instruction) -> bool {
    match ins {
        Instruction::Return => 1 <= s.sp,
        Instruction::Call { .. } => s.sp < STACK_SIZE,
        Instruction::SkipIfEqual { x, byte } => s.v[x as int] == byte ==> s.pc + 2 <= 0xFFFF,
        Instruction::SkipIfNotEqual { x, byte } => s.v[x as int] != byte ==> s.pc + 2 <= 0xFFFF,
        Instruction::SkipIfRegsEqual { x, y } => s.v[x as int] == s.v[y as int] ==> s.pc + 2
            <= 0xFFFF,
        Instruction::SkipIfRegsNotEqual { x, y } => s.v[x as int] != s.v[y as int] ==> s.pc + 2
            <= 0xFFFF,
        Instruction::SkipIfKey { x } => s.v[x as int] < NUM_KEYS && (s.keys[s.v[x as int] as int]
            ==> s.pc + 2 <= 0xFFFF),
        Instruction::SkipIfNotKey { x } => s.v[x as int] < NUM_KEYS && (!s.keys[s.v[x as int] as int]
            ==> s.pc + 2 <= 0xFFFF),
        Instruction::WaitKey { .. } => first_pressed(s.keys) >= NUM_KEYS ==> s.pc >= 2,
        Instruction::Draw { rows, .. } => rows == 0 || s.i + rows <= RAM_SIZE,
        Instruction::StoreBcd { .. } => s.i + 2 < RAM_SIZE,
        Instruction::StoreRegs { x } => s.i + x < RAM_SIZE,
        Instruction::LoadRegs { x } => s.i + x < RAM_SIZE,
        _ => true,
    }
}

/// The state after executing `ins` in `s`; `rnd` is the random byte that
/// `CXNN` draws (no other instruction reads it).
pub open spec fn execute_spec(s: EmuState, ins: Instruction, rnd: u8) -> EmuState {
    match ins {
        Instruction::Nop => s,
        Instruction::ClearScreen => EmuState { screen: Seq::new(SCREEN_SIZE as nat, |p: int| false), ..s },
        Instruction::Return => EmuState { sp: (s.sp - 1) as u16, pc: s.stack[s.sp - 1], ..s },
        Instruction::Jump { addr } => EmuState { pc: addr, ..s },
        Instruction::Call { addr } => EmuState {
            stack: s.stack.update(s.sp as int, s.pc),
            sp: (s.sp + 1) as u16,
            pc: addr,
            ..s
        },
        Instruction::SkipIfEqual { x, byte } => skip_if(s, s.v[x as int] == byte),
        Instruction::SkipIfNotEqual { x, byte } => skip_if(s, s.v[x as int] != byte),
        Instruction::SkipIfRegsEqual { x, y } => skip_if(s, s.v[x as int] == s.v[y as int]),
        Instruction::SetByte { x, byte } => set_reg(s, x as int, byte),
        Instruction::AddByte { x, byte } => set_reg(s, x as int, ((s.v[x as int] + byte) % 256) as u8),
        Instruction::Copy { x, y } => set_reg(s, x as int, s.v[y as int]),
        Instruction::Or { x, y } => set_reg(s, x as int, s.v[x as int] | s.v[y as int]),
        Instruction::And { x, y } => set_reg(s, x as int, s.v[x as int] & s.v[y as int]),
        Instruction::Xor { x, y } => set_reg(s, x as int, s.v[x as int] ^ s.v[y as int]),
        Instruction::AddRegs { x, y } => {
            let sum = s.v[x as int] + s.v[y as int];
            EmuState {
                v: s.v.update(x as int, (sum % 256) as u8).update(0xF, if sum > 255 { 1u8 } else { 0u8 }),
                ..s
            }
        },
        Instruction::Sub { x, y } => {
            let (a, b) = (s.v[x as int], s.v[y as int]);
            EmuState {
                v: s.v.update(x as int, ((a - b) % 256) as u8).update(0xF, if a >= b { 1u8 } else { 0u8 }),
                ..s
            }
        },
        Instruction::ShiftRight { x } => {
            let a = s.v[x as int];
            EmuState { v: s.v.update(x as int, a / 2).update(0xF, a % 2), ..s }
        },
        Instruction::SubReversed { x, y } => {
            let (a, b) = (s.v[y as int], s.v[x as int]);
            EmuState {
                v: s.v.update(x as int, ((a - b) % 256) as u8).update(0xF, if a >= b { 1u8 } else { 0u8 }),
                ..s
            }
        },
        Instruction::ShiftLeft { x } => {
            let a = s.v[x as int];
            EmuState {
                v: s.v.update(x as int, ((a * 2) % 256) as u8).update(0xF, if a > 127 { 1u8 } else { 0u8 }),
                ..s
            }
        },
        Instruction::SkipIfRegsNotEqual { x, y } => skip_if(s, s.v[x as int] != s.v[y as int]),
        Instruction::SetIndex { addr } => EmuState { i: addr, ..s },
        Instruction::JumpOffset { addr } => EmuState { pc: (addr + s.v[0]) as u16, ..s },
        Instruction::Random { x, byte } => set_reg(s, x as int, rnd & byte),
        Instruction::Draw { x, y, rows } => draw_spec(s, x as int, y as int, rows as int),
        Instruction::SkipIfKey { x } => skip_if(s, s.keys[s.v[x as int] as int]),
        Instruction::SkipIfNotKey { x } => skip_if(s, !s.keys[s.v[x as int] as int]),
        Instruction::ReadDelay { x } => set_reg(s, x as int, s.delay),
        Instruction::WaitKey { x } => {
            let k = first_pressed(s.keys);
            if k < NUM_KEYS {
                set_reg(s, x as int, k as u8)
            } else {
                EmuState { pc: (s.pc - 2) as u16, ..s }
            }
        },
        Instruction::SetDelay { x } => EmuState { delay: s.v[x as int], ..s },
        Instruction::SetSound { x } => EmuState { sound: s.v[x as int], ..s },
        Instruction::AddIndex { x } => EmuState { i: ((s.i + s.v[x as int]) % 0x10000) as u16, ..s },
        Instruction::FontChar { x } => EmuState { i: (5 * s.v[x as int]) as u16, ..s },
        Instruction::StoreBcd { x } => {
            let a = s.v[x as int];
            EmuState {
                ram: s.ram.update(s.i as int, a / 100).update(s.i + 1, (a / 10) % 10).update(
                    s.i + 2,
                    a % 10,
                ),
                ..s
            }
        },
        Instruction::StoreRegs { x } => EmuState {
            ram: Seq::new(
                s.ram.len(),
                |a: int| if s.i <= a <= s.i + x { s.v[a - s.i] } else { s.ram[a] },
            ),
            ..s
        },
        Instruction::LoadRegs { x } => EmuState {
            v: Seq::new(s.v.len(), |k: int| if k <= x { s.ram[s.i + k] } else { s.v[k] }),
            ..s
        },
    }
}

/// The opcode stored big-endian at the program counter.
pub open spec fn opcode_at(s: EmuState) -> u16 {
    (s.ram[s.pc as int] * 256 + s.ram[s.pc + 1]) as u16
}

/// `s` with the program counter moved past the fetched opcode.
pub open spec fn fetched(s: EmuState) -> EmuState {
    EmuState { pc: (s.pc + 2) as u16, ..s }
}

/// Whether one fetch-and-execute cycle is defined in `s`: the opcode lies in
/// memory, belongs to the instruction set, and can be executed.
#[verifier::opaque]
pub open spec fn tick_defined(s: EmuState) -> bool {
    &&& s.pc + 1 < RAM_SIZE
    &&& decode_spec(opcode_at(s)) is Some
    &&& execute_defined(fetched(s), decode_spec(opcode_at(s))->0)
}

/// The state after one fetch-and-execute cycle, with `rnd` as the random byte.
#[verifier::opaque]
pub open spec fn tick_spec(s: EmuState, rnd: u8) -> EmuState {
    execute_spec(fetched(s), decode_spec(opcode_at(s))->0, rnd)
}

/// The state after one 60 Hz timer tick: both timers count down to zero.
pub open spec fn timers_spec(s: EmuState) -> EmuState {
    EmuState {
        delay: if s.delay > 0 { (s.delay - 1) as u8 } else { 0u8 },
        sound: if s.sound > 0 { (s.sound - 1) as u8 } else { 0u8 },
        ..s
    }
}

/// `states` is a run of fetch-and-execute cycles in which cycle `k` goes from
/// `states[k]` to `states[k + 1]` with random byte `rnds[k]`.
pub open spec fn is_trace(states: Seq<EmuState>, rnds: Seq<u8>) -> bool {
    &&& states.len() == rnds.len() + 1
    &&& forall|k: int|
        0 <= k < rnds.len() ==> tick_defined(#[trigger] states[k]) && states[k + 1] == tick_spec(
            states[k],
            rnds[k],
        )
}

/// Whether `t` can be reached from `s` by `n` fetch-and-execute cycles, for
/// some sequence of random bytes.
pub open spec fn runs(s: EmuState, n: nat, t: EmuState) -> bool {
    exists|states: Seq<EmuState>, rnds: Seq<u8>|
        #[trigger] is_trace(states, rnds) && rnds.len() == n && states[0] == s && states.last() == t
}

/// No cycle leaves a state unchanged in zero steps: a run of no cycles stays put.
pub proof fn lemma_runs_zero(s: EmuState)
    ensures
        runs(s, 0, s),
{
    let states = seq![s];
    let rnds = Seq::<u8>::empty();
    assert(is_trace(states, rnds));
}

/// A run of `n` cycles extends by one more cycle.
pub proof fn lemma_runs_step(s: EmuState, n: nat, m: EmuState, r: u8)
    requires
        runs(s, n, m),
        tick_defined(m),
    ensures
        runs(s, n + 1, tick_spec(m, r)),
{
    let (states, rnds) = choose|states: Seq<EmuState>, rnds: Seq<u8>|
        #[trigger] is_trace(states, rnds) && rnds.len() == n && states[0] == s && states.last() == m;
    let states2 = states.push(tick_spec(m, r));
    let rnds2 = rnds.push(r);
    assert forall|k: int| 0 <= k < rnds2.len() implies tick_defined(#[trigger] states2[k])
        && states2[k + 1] == tick_spec(states2[k], rnds2[k]) by {
        if k < rnds.len() {
            assert(states2[k] == states[k]);
            assert(states2[k + 1] == states[k + 1]);
        }
    }
    assert(is_trace(states2, rnds2));
}

/// `ram` with `bytes` copied in at the load address.
pub open spec fn loaded_ram(ram: Seq<u8>, bytes: Seq<u8>) -> Seq<u8> {
    Seq::new(
        ram.len(),
        |a: int|
            if START_ADDR <= a < START_ADDR + bytes.len() {
                bytes[a - START_ADDR]
            } else {
                ram[a]
            },
    )
}

/// Why a fetch-and-execute cycle cannot be run.
#[derive(Clone, Copy, Debug, PartialEq, Eq, Structural)]
pub enum Fault {
    /// The opcode at `pc` would lie (partly) outside memory.
    PcOutOfRange { pc: u16 },
    /// The opcode at `pc` is not in the instruction set.
    UnknownOpcode { pc: u16, opcode: u16 },
    /// Executing the opcode at `pc` would overflow or underflow the call
    /// stack, index outside memory or the keypad, or wrap the program counter.
    BadOperands { pc: u16, opcode: u16 },
}

/// The reason the next cycle cannot be run in `s`, or `None` if it can.
pub open spec fn fault_spec(s: EmuState) -> Option<Fault> {
    if s.pc + 1 >= RAM_SIZE {
        Some(Fault::PcOutOfRange { pc: s.pc })
    } else if decode_spec(opcode_at(s)) is None {
        Some(Fault::UnknownOpcode { pc: s.pc, opcode: opcode_at(s) })
    } else if !execute_defined(fetched(s), decode_spec(opcode_at(s))->0) {
        Some(Fault::BadOperands { pc: s.pc, opcode: opcode_at(s) })
    } else {
        None
    }
}

} // verus!
