//! Properties of the machine that span instructions, cycles and calls.
use vstd::prelude::*;
use crate::frontend::{has_fragment, keypad_of, speed_from, speed_rules, DEFAULT_SPEED};
use crate::instruction::{operands_in_range, Instruction};
use crate::instruction::{decode_spec, encode, lemma_assemble, lemma_decode_in_range, lemma_nibble_sum};
use crate::emu::{lemma_cell, lemma_sprite_bit};
use crate::machine::{
    draw_spec, execute_defined, execute_spec, fetched, first_pressed_from, initial_state,
    is_trace, opcode_at, runs, sprite_col, sprite_collides, sprite_covers, sprite_row,
    tick_defined, tick_spec, timers_spec, fault_spec, loaded_ram, EmuState, Fault, FONTSET,
};

verus! {

/// The power-on state is well formed, starts at the load address, and holds
/// the five-byte glyph of hex digit `d` at address `5 * d`; memory above the
/// font, the registers, the keys, the screen, the stack and the timers are
/// all clear.
pub proof fn law_power_on(d: int, row: int, a: int, k: int, p: int)
    requires
        0 <= d < 16,
        0 <= row < 5,
        80 <= a < 4096,
        0 <= k < 16,
        0 <= p < 2048,
    ensures
        initial_state().wf(),
        initial_state().pc == 0x200,
        initial_state().ram[5 * d + row] == FONTSET@[5 * d + row],
        initial_state().ram[a] == 0,
        initial_state().v[k] == 0,
        !initial_state().keys[k],
        !initial_state().screen[p],
        initial_state().sp == 0 && initial_state().i == 0,
        initial_state().delay == 0 && initial_state().sound == 0,
{
}

/// Every instruction, executed where it is defined, keeps the memories at
/// their sizes and the stack pointer within the stack.
pub proof fn law_execute_keeps_wf(s: EmuState, ins: Instruction, rnd: u8)
    requires
        s.wf(),
        operands_in_range(ins),
        execute_defined(s, ins),
    ensures
        execute_spec(s, ins, rnd).wf(),
{
}

/// Only `CXNN` reads the random byte: every other instruction has the same
/// effect whatever byte is drawn.
pub proof fn law_random_only_for_cxnn(s: EmuState, ins: Instruction, r1: u8, r2: u8)
    requires
        !(ins is Random),
    ensures
        execute_spec(s, ins, r1) == execute_spec(s, ins, r2),
{
}

/// A subroutine call followed by a return comes back to the instruction after
/// the call with the stack pointer restored; only the stack slot that held the
/// return address keeps it.
pub proof fn law_call_then_return(s: EmuState, addr: u16, r1: u8, r2: u8)
    requires
        s.wf(),
        s.sp < 16,
    ensures
        execute_defined(s, Instruction::Call { addr }),
        execute_defined(execute_spec(s, Instruction::Call { addr }, r1), Instruction::Return),
        execute_spec(execute_spec(s, Instruction::Call { addr }, r1), Instruction::Return, r2) == (
        EmuState { stack: s.stack.update(s.sp as int, s.pc), ..s }),
{
    let t = execute_spec(s, Instruction::Call { addr }, r1);
    let u = execute_spec(t, Instruction::Return, r2);
    assert(u == (EmuState { stack: s.stack.update(s.sp as int, s.pc), ..s }));
}

/// Drawing the same sprite twice at the same place leaves the screen as it
/// was (when neither coordinate register is `VF`, which the first draw sets).
pub proof fn law_draw_twice_restores_screen(s: EmuState, x: int, y: int, rows: int)
    requires
        s.wf(),
        0 <= x < 15,
        0 <= y < 15,
    ensures
        draw_spec(draw_spec(s, x, y, rows), x, y, rows).screen == s.screen,
{
    let t = draw_spec(s, x, y, rows);
    assert(t.v[x] == s.v[x] && t.v[y] == s.v[y]);
    assert forall|p: int| 0 <= p < s.screen.len() implies #[trigger] sprite_covers(t, x, y, rows, p)
        == sprite_covers(s, x, y, rows, p) by {}
    assert(draw_spec(t, x, y, rows).screen =~= s.screen);
}

/// `FX55` then `FX65` with the same `I` and `X` gives the registers
/// `V0..=VX` back, and so all registers.
pub proof fn law_store_then_load_registers(s: EmuState, x: usize, r1: u8, r2: u8)
    requires
        s.wf(),
        x < 16,
        s.i + x < 4096,
    ensures
        execute_spec(
            execute_spec(s, Instruction::StoreRegs { x }, r1),
            Instruction::LoadRegs { x },
            r2,
        ).v == s.v,
{
    let t = execute_spec(s, Instruction::StoreRegs { x }, r1);
    let u = execute_spec(t, Instruction::LoadRegs { x }, r2);
    assert(u.v =~= s.v);
}

/// `FX33` stores three decimal digits whose value is `VX`.
pub proof fn law_bcd_digits(s: EmuState, x: usize, r: u8)
    requires
        s.wf(),
        x < 16,
        s.i + 2 < 4096,
    ensures
        ({
            let m = execute_spec(s, Instruction::StoreBcd { x }, r).ram;
            &&& m[s.i as int] < 10 && m[s.i + 1] < 10 && m[s.i + 2] < 10
            &&& 100 * m[s.i as int] + 10 * m[s.i + 1] + m[s.i + 2] == s.v[x as int]
        }),
{
}

/// `8XY4` (with `X` not `VF`): the 9-bit sum of `VX` and `VY` is `VX` plus
/// 256 times the carry left in `VF`.
pub proof fn law_add_with_carry(s: EmuState, x: usize, y: usize, r: u8)
    requires
        s.wf(),
        x < 15,
        y < 16,
    ensures
        ({
            let t = execute_spec(s, Instruction::AddRegs { x, y }, r);
            t.v[x as int] + 256 * t.v[15] == s.v[x as int] + s.v[y as int]
        }),
{
}

/// `8XY5` (with `X` not `VF`): `VX - VY` is the new `VX` minus 256 when `VF`
/// reports a borrow (`VF == 0`).
pub proof fn law_sub_with_borrow(s: EmuState, x: usize, y: usize, r: u8)
    requires
        s.wf(),
        x < 15,
        y < 16,
    ensures
        ({
            let t = execute_spec(s, Instruction::Sub { x, y }, r);
            &&& t.v[15] <= 1
            &&& s.v[x as int] - s.v[y as int] == t.v[x as int] - 256 * (1 - t.v[15])
        }),
{
}

/// A timer tick never raises a timer and lowers a running one by exactly one.
pub proof fn law_timers_count_down(s: EmuState)
    ensures
        timers_spec(s).delay <= s.delay,
        timers_spec(s).sound <= s.sound,
        s.delay > 0 ==> timers_spec(s).delay == s.delay - 1,
        s.sound > 0 ==> timers_spec(s).sound == s.sound - 1,
        timers_spec(s).pc == s.pc && timers_spec(s).ram == s.ram && timers_spec(s).screen
            == s.screen && timers_spec(s).v == s.v,
{
}

/// `FX0A` with no key down leaves the whole machine as it was: the cycle
/// repeats until a key is pressed.
pub proof fn law_wait_key_blocks(s: EmuState, x: usize, r: u8)
    requires
        s.wf(),
        x < 16,
        s.pc + 1 < 4096,
        forall|k: int| 0 <= k < 16 ==> !s.keys[k],
        decode_spec(opcode_at(s)) == Some(Instruction::WaitKey { x }),
    ensures
        tick_spec(s, r) == s,
{
    reveal(tick_spec);
    lemma_no_key_down(s.keys, 0);
    assert(tick_spec(s, r) =~= s);
}

proof fn lemma_no_key_down(keys: Seq<bool>, k: int)
    requires
        0 <= k <= keys.len(),
        forall|j: int| k <= j < keys.len() ==> !keys[j],
    ensures
        first_pressed_from(keys, k) == keys.len(),
    decreases keys.len() - k,
{
    if k < keys.len() {
        lemma_no_key_down(keys, k + 1);
    }
}

/// Every cycle keeps the machine well formed.
pub proof fn law_tick_keeps_wf(s: EmuState, r: u8)
    requires
        s.wf(),
        tick_defined(s),
    ensures
        tick_spec(s, r).wf(),
{
    reveal(tick_spec);
    reveal(tick_defined);
    lemma_decode_in_range(opcode_at(s));
    law_execute_keeps_wf(fetched(s), decode_spec(opcode_at(s))->0, r);
}

/// Any number of cycles keeps the machine well formed.
pub proof fn law_runs_keep_wf(s: EmuState, n: nat, t: EmuState)
    requires
        s.wf(),
        runs(s, n, t),
    ensures
        t.wf(),
{
    let (states, rnds) = choose|states: Seq<EmuState>, rnds: Seq<u8>|
        #[trigger] is_trace(states, rnds) && rnds.len() == n && states[0] == s && states.last() == t;
    lemma_trace_wf(states, rnds, n as int);
}

proof fn lemma_trace_wf(states: Seq<EmuState>, rnds: Seq<u8>, k: int)
    requires
        is_trace(states, rnds),
        states[0].wf(),
        0 <= k <= rnds.len(),
    ensures
        states[k].wf(),
    decreases k,
{
    if k > 0 {
        lemma_trace_wf(states, rnds, k - 1);
        law_tick_keeps_wf(states[k - 1], rnds[k - 1]);
    }
}

/// The keyboard layout is a bijection between sixteen keyboard keys and the
/// sixteen keypad keys.
pub proof fn law_keymap_bijective(k1: i32, k2: i32, b: usize)
    ensures
        keypad_of(k1) matches Some(b1) ==> b1 < 16,
        keypad_of(k1) is Some && keypad_of(k1) == keypad_of(k2) ==> k1 == k2,
        b < 16 ==> exists|k: i32| keypad_of(k) == Some(b),
{
    if b < 16 {
        let k: i32 = if b == 0 {
            120
        } else if b == 1 {
            49
        } else if b == 2 {
            50
        } else if b == 3 {
            51
        } else if b == 4 {
            113
        } else if b == 5 {
            119
        } else if b == 6 {
            101
        } else if b == 7 {
            97
        } else if b == 8 {
            115
        } else if b == 9 {
            100
        } else if b == 10 {
            122
        } else if b == 11 {
            99
        } else if b == 12 {
            52
        } else if b == 13 {
            114
        } else if b == 14 {
            102
        } else {
            118
        };
        assert(keypad_of(k) == Some(b));
    }
}

/// Every game runs at least one cycle per frame, and a path matching no rule
/// gets the default speed.
pub proof fn law_speed_positive(name: Seq<char>, k: int)
    requires
        0 <= k,
    ensures
        speed_from(name, speed_rules(), k) >= 1,
        (forall|j: int|
            k <= j < speed_rules().len() ==> !has_fragment(name, #[trigger] speed_rules()[j].0))
            ==> speed_from(name, speed_rules(), k) == DEFAULT_SPEED,
    decreases speed_rules().len() - k,
{
    if k < speed_rules().len() {
        law_speed_positive(name, k + 1);
    }
}

/// Decoding inverts encoding: every instruction with its operands in range
/// is read back from the opcode that writes it.
#[verifier::spinoff_prover]
#[verifier::rlimit(80)]
pub proof fn law_decode_encode(ins: Instruction)
    requires
        operands_in_range(ins),
    ensures
        0 <= encode(ins) < 0x10000,
        decode_spec(encode(ins) as u16) == Some(ins),
{
    match ins {
        Instruction::Nop => lemma_assemble(0, 0, 0x00),
        Instruction::ClearScreen => lemma_assemble(0, 0, 0xE0),
        Instruction::Return => lemma_assemble(0, 0, 0xEE),
        Instruction::Jump { addr } => lemma_assemble(1, addr / 256, addr % 256),
        Instruction::Call { addr } => lemma_assemble(2, addr / 256, addr % 256),
        Instruction::SkipIfEqual { x, byte } => lemma_assemble(3, x as u16, byte as u16),
        Instruction::SkipIfNotEqual { x, byte } => lemma_assemble(4, x as u16, byte as u16),
        Instruction::SkipIfRegsEqual { x, y } => lemma_assemble(5, x as u16, (16 * y) as u16),
        Instruction::SetByte { x, byte } => lemma_assemble(6, x as u16, byte as u16),
        Instruction::AddByte { x, byte } => lemma_assemble(7, x as u16, byte as u16),
        Instruction::Copy { x, y } => lemma_assemble(8, x as u16, (16 * y) as u16),
        Instruction::Or { x, y } => lemma_assemble(8, x as u16, (16 * y + 1) as u16),
        Instruction::And { x, y } => lemma_assemble(8, x as u16, (16 * y + 2) as u16),
        Instruction::Xor { x, y } => lemma_assemble(8, x as u16, (16 * y + 3) as u16),
        Instruction::AddRegs { x, y } => lemma_assemble(8, x as u16, (16 * y + 4) as u16),
        Instruction::Sub { x, y } => lemma_assemble(8, x as u16, (16 * y + 5) as u16),
        Instruction::ShiftRight { x } => lemma_assemble(8, x as u16, 6),
        Instruction::SubReversed { x, y } => lemma_assemble(8, x as u16, (16 * y + 7) as u16),
        Instruction::ShiftLeft { x } => lemma_assemble(8, x as u16, 0xE),
        Instruction::SkipIfRegsNotEqual { x, y } => lemma_assemble(9, x as u16, (16 * y) as u16),
        Instruction::SetIndex { addr } => lemma_assemble(0xA, addr / 256, addr % 256),
        Instruction::JumpOffset { addr } => lemma_assemble(0xB, addr / 256, addr % 256),
        Instruction::Random { x, byte } => lemma_assemble(0xC, x as u16, byte as u16),
        Instruction::Draw { x, y, rows } => lemma_assemble(0xD, x as u16, (16 * y + rows) as u16),
        Instruction::SkipIfKey { x } => lemma_assemble(0xE, x as u16, 0x9E),
        Instruction::SkipIfNotKey { x } => lemma_assemble(0xE, x as u16, 0xA1),
        Instruction::ReadDelay { x } => lemma_assemble(0xF, x as u16, 0x07),
        Instruction::WaitKey { x } => lemma_assemble(0xF, x as u16, 0x0A),
        Instruction::SetDelay { x } => lemma_assemble(0xF, x as u16, 0x15),
        Instruction::SetSound { x } => lemma_assemble(0xF, x as u16, 0x18),
        Instruction::AddIndex { x } => lemma_assemble(0xF, x as u16, 0x1E),
        Instruction::FontChar { x } => lemma_assemble(0xF, x as u16, 0x29),
        Instruction::StoreBcd { x } => lemma_assemble(0xF, x as u16, 0x33),
        Instruction::StoreRegs { x } => lemma_assemble(0xF, x as u16, 0x55),
        Instruction::LoadRegs { x } => lemma_assemble(0xF, x as u16, 0x65),
    }
}

/// Encoding inverts decoding: a decoded opcode is rewritten bit for bit from
/// its instruction, except the `Y` nibble of `8XY6` and `8XYE`, which these
/// instructions ignore.
pub proof fn law_encode_decode(op: u16)
    ensures
        decode_spec(op) matches Some(ins) ==> encode(ins) == if ins is ShiftRight || ins is ShiftLeft {
            op - 16 * ((op / 16) % 16)
        } else {
            op as int
        },
{
    lemma_nibble_sum(op);
}

/// Every opcode's register operands come from its second and third nibbles
/// and its immediate from its low byte; the `3XNN` form is the one that
/// compares `VX` with `NN`.
pub proof fn law_decode_skip_if_equal(op: u16)
    requires
        op >> 12u16 == 3,
    ensures
        decode_spec(op) == Some(
            Instruction::SkipIfEqual { x: ((op >> 8u16) & 0xF) as usize, byte: (op & 0xFF) as u8 },
        ),
{
    lemma_nibble_sum(op);
    assert((op >> 12u16) == op / 4096) by (bit_vector);
    assert((op >> 8u16) & 0xF == (op / 256) % 16) by (bit_vector);
    assert(op & 0xFF == op % 256) by (bit_vector);
}

/// The screen cell that sprite bit `(r, c)` lands on when the sprite is drawn
/// at `(xc, yc)`: columns wrap at 64, rows at 32.
pub open spec fn screen_cell(xc: int, yc: int, r: int, c: int) -> int {
    (xc + c) % 64 + 64 * ((yc + r) % 32)
}

/// Whether bit `k` (0 = least significant) of `b` is set.
pub open spec fn bit_set(b: u8, k: u8) -> bool {
    (b >> k) & 1u8 == 1u8
}

/// `DXYN` flips the cell under every set bit of the sprite: bit `c` (from the
/// left) of sprite row `r`, the byte at `I + r`, lands at column `VX + c` and
/// row `VY + r`, wrapping at the edges.
pub proof fn law_draw_flips_sprite_bits(s: EmuState, x: int, y: int, rows: int, r: int, c: u8)
    requires
        s.wf(),
        0 <= x < 16,
        0 <= y < 16,
        0 <= r < rows < 16,
        c < 8,
    ensures
        ({
            let p = screen_cell(s.v[x] as int, s.v[y] as int, r, c as int);
            &&& 0 <= p < 2048
            &&& draw_spec(s, x, y, rows).screen[p] == (s.screen[p] != ((s.ram[s.i + r] & (0x80u8
                >> c)) != 0u8))
        }),
{
    let p = screen_cell(s.v[x] as int, s.v[y] as int, r, c as int);
    vstd::arithmetic::div_mod::lemma_mod_bound(s.v[x] + c, 64);
    vstd::arithmetic::div_mod::lemma_mod_bound(s.v[y] + r, 32);
    lemma_cell(s.v[x] as int, s.v[y] as int, r, c as int, p);
    lemma_sprite_bit(s.ram[s.i + r], c, (7 - c) as u8);
}

/// `DXYN` changes no pixel outside the cells under the sprite's bits.
pub proof fn law_draw_leaves_other_pixels(s: EmuState, x: int, y: int, rows: int, p: int)
    requires
        s.wf(),
        0 <= x < 16,
        0 <= y < 16,
        0 <= rows < 16,
        0 <= p < 2048,
        forall|r: int, c: int|
            0 <= r < rows && 0 <= c < 8 ==> #[trigger] screen_cell(s.v[x] as int, s.v[y] as int, r, c)
                != p,
    ensures
        draw_spec(s, x, y, rows).screen[p] == s.screen[p],
{
    if sprite_covers(s, x, y, rows, p) {
        let r = sprite_row(s, y, p);
        let c = sprite_col(s, x, p);
        vstd::arithmetic::div_mod::lemma_mod_bound(p / 64 - s.v[y], 32);
        vstd::arithmetic::div_mod::lemma_mod_bound(p % 64 - s.v[x], 64);
        lemma_cell(s.v[x] as int, s.v[y] as int, r, c, p);
        assert(screen_cell(s.v[x] as int, s.v[y] as int, r, c) == p);
    }
}

/// After `DXYN`, `VF` is 1 when some pixel that was lit is dark afterwards,
/// and 0 otherwise; no other register, nor memory, `I` or the program
/// counter, changes.
pub proof fn law_draw_collision_flag(s: EmuState, x: int, y: int, rows: int)
    requires
        s.wf(),
        0 <= x < 16,
        0 <= y < 16,
        0 <= rows < 16,
    ensures
        ({
            let t = draw_spec(s, x, y, rows);
            &&& t.v[15] == 1 <==> exists|p: int|
                0 <= p < 2048 && #[trigger] s.screen[p] && !t.screen[p]
            &&& t.v[15] == 0 || t.v[15] == 1
            &&& forall|k: int| 0 <= k < 15 ==> t.v[k] == s.v[k]
            &&& t.ram == s.ram && t.i == s.i && t.pc == s.pc && t.keys == s.keys
        }),
{
    let t = draw_spec(s, x, y, rows);
    if sprite_collides(s, x, y, rows) {
        let p = choose|p: int|
            0 <= p < s.screen.len() && s.screen[p] && #[trigger] sprite_covers(s, x, y, rows, p);
        assert(s.screen[p] && !t.screen[p]);
    }
    if exists|p: int| 0 <= p < 2048 && #[trigger] s.screen[p] && !t.screen[p] {
        let p = choose|p: int| 0 <= p < 2048 && #[trigger] s.screen[p] && !t.screen[p];
        assert(sprite_covers(s, x, y, rows, p));
    }
}

/// `8XY6` (with `X` not `VF`): `VX` halves and `VF` gets the bit shifted out,
/// so `2 * VX + VF` is the old `VX`; no other register changes.
pub proof fn law_shift_right(s: EmuState, x: usize, r: u8)
    requires
        s.wf(),
        x < 15,
    ensures
        ({
            let t = execute_spec(s, Instruction::ShiftRight { x }, r);
            &&& t.v[15] <= 1
            &&& 2 * t.v[x as int] + t.v[15] == s.v[x as int]
            &&& forall|k: int| 0 <= k < 15 && k != x ==> t.v[k] == s.v[k]
        }),
{
}

/// `8XYE` (with `X` not `VF`): `VX` doubles and `VF` gets the bit shifted
/// out, so `VX + 256 * VF` is twice the old `VX`; no other register changes.
pub proof fn law_shift_left(s: EmuState, x: usize, r: u8)
    requires
        s.wf(),
        x < 15,
    ensures
        ({
            let t = execute_spec(s, Instruction::ShiftLeft { x }, r);
            &&& t.v[15] <= 1
            &&& t.v[x as int] + 256 * t.v[15] == 2 * s.v[x as int]
            &&& forall|k: int| 0 <= k < 15 && k != x ==> t.v[k] == s.v[k]
        }),
{
}

/// `8XY7` (with `X` not `VF`): `VY - VX` is the new `VX` minus 256 when `VF`
/// reports a borrow (`VF == 0`).
pub proof fn law_sub_reversed_with_borrow(s: EmuState, x: usize, y: usize, r: u8)
    requires
        s.wf(),
        x < 15,
        y < 16,
    ensures
        ({
            let t = execute_spec(s, Instruction::SubReversed { x, y }, r);
            &&& t.v[15] <= 1
            &&& s.v[y as int] - s.v[x as int] == t.v[x as int] - 256 * (1 - t.v[15])
        }),
{
}

/// `7XNN` adds `NN` to `VX` modulo 256 and leaves the flag alone (when `X` is
/// not `VF`).
pub proof fn law_add_byte(s: EmuState, x: usize, byte: u8, r: u8)
    requires
        s.wf(),
        x < 15,
    ensures
        ({
            let t = execute_spec(s, Instruction::AddByte { x, byte }, r);
            &&& t.v[x as int] == s.v[x as int] + byte || t.v[x as int] == s.v[x as int] + byte - 256
            &&& forall|k: int| 0 <= k < 16 && k != x ==> t.v[k] == s.v[k]
        }),
{
}

/// `8XY1`, `8XY2`, `8XY3` and `8XY0`, bit by bit: each bit of the new `VX` is
/// the or, the and, the exclusive or of that bit of `VX` and `VY`, or that
/// bit of `VY`.
pub proof fn law_bitwise_ops(s: EmuState, x: usize, y: usize, r: u8, k: u8)
    requires
        s.wf(),
        x < 16,
        y < 16,
        k < 8,
    ensures
        bit_set(execute_spec(s, Instruction::Or { x, y }, r).v[x as int], k) == (bit_set(
            s.v[x as int],
            k,
        ) || bit_set(s.v[y as int], k)),
        bit_set(execute_spec(s, Instruction::And { x, y }, r).v[x as int], k) == (bit_set(
            s.v[x as int],
            k,
        ) && bit_set(s.v[y as int], k)),
        bit_set(execute_spec(s, Instruction::Xor { x, y }, r).v[x as int], k) == (bit_set(
            s.v[x as int],
            k,
        ) != bit_set(s.v[y as int], k)),
        execute_spec(s, Instruction::Copy { x, y }, r).v[x as int] == s.v[y as int],
{
    let a = s.v[x as int];
    let b = s.v[y as int];
    assert(((a | b) >> k) & 1u8 == 1u8 <==> ((a >> k) & 1u8 == 1u8 || (b >> k) & 1u8 == 1u8))
        by (bit_vector);
    assert(((a & b) >> k) & 1u8 == 1u8 <==> ((a >> k) & 1u8 == 1u8 && (b >> k) & 1u8 == 1u8))
        by (bit_vector);
    assert(((a ^ b) >> k) & 1u8 == 1u8 <==> ((a >> k) & 1u8 == 1u8) != ((b >> k) & 1u8 == 1u8))
        by (bit_vector);
}

/// `CXNN` keeps only the bits of the random byte that `NN` allows.
pub proof fn law_random_masked(s: EmuState, x: usize, byte: u8, r: u8)
    requires
        s.wf(),
        x < 16,
    ensures
        ({
            let v = execute_spec(s, Instruction::Random { x, byte }, r).v[x as int];
            &&& v & byte == v
            &&& v & r == v
            &&& (r | !byte) & v == v
            &&& byte == 0xFF ==> v == r
            &&& byte == 0 ==> v == 0
        }),
{
    let v = r & byte;
    assert(v & byte == v && v & r == v && (r | !byte) & v == v) by (bit_vector)
        requires
            v == r & byte,
    ;
    assert(r & 0xFFu8 == r) by (bit_vector);
    assert(r & 0u8 == 0u8) by (bit_vector);
}

/// The conditional skips advance the program counter by 2 exactly when their
/// condition holds, and change nothing else: `EX9E`/`EXA1` look at the key
/// numbered by the value of `VX`, `3XNN`/`4XNN` compare `VX` with `NN`,
/// `5XY0`/`9XY0` compare `VX` with `VY`.
pub proof fn law_skips(s: EmuState, x: usize, y: usize, byte: u8, r: u8)
    requires
        s.wf(),
        x < 16,
        y < 16,
        s.pc + 2 <= 0xFFFF,
    ensures
        s.v[x as int] < 16 ==> execute_spec(s, Instruction::SkipIfKey { x }, r) == (EmuState {
            pc: if s.keys[s.v[x as int] as int] { (s.pc + 2) as u16 } else { s.pc },
            ..s
        }),
        s.v[x as int] < 16 ==> execute_spec(s, Instruction::SkipIfNotKey { x }, r) == (EmuState {
            pc: if s.keys[s.v[x as int] as int] { s.pc } else { (s.pc + 2) as u16 },
            ..s
        }),
        execute_spec(s, Instruction::SkipIfEqual { x, byte }, r).pc == if s.v[x as int] == byte {
            s.pc + 2
        } else {
            s.pc as int
        },
        execute_spec(s, Instruction::SkipIfNotEqual { x, byte }, r).pc == if s.v[x as int] != byte {
            s.pc + 2
        } else {
            s.pc as int
        },
        execute_spec(s, Instruction::SkipIfRegsEqual { x, y }, r).pc == if s.v[x as int] == s.v[y as int] {
            s.pc + 2
        } else {
            s.pc as int
        },
        execute_spec(s, Instruction::SkipIfRegsNotEqual { x, y }, r).pc == if s.v[x as int]
            != s.v[y as int] {
            s.pc + 2
        } else {
            s.pc as int
        },
{
}

/// `FX07` copies the delay timer into `VX`; `FX15` then `FX07` gives the value
/// back, and setting the sound timer does not change what `FX07` reads.
pub proof fn law_delay_timer_round_trip(s: EmuState, x: usize, y: usize, r1: u8, r2: u8)
    requires
        s.wf(),
        x < 16,
        y < 16,
    ensures
        execute_spec(s, Instruction::ReadDelay { x }, r1).v[x as int] == s.delay,
        execute_spec(s, Instruction::ReadDelay { x }, r1).delay == s.delay,
        execute_spec(s, Instruction::ReadDelay { x }, r1).sound == s.sound,
        execute_spec(
            execute_spec(s, Instruction::SetDelay { x: y }, r1),
            Instruction::ReadDelay { x },
            r2,
        ).v[x as int] == s.v[y as int],
        execute_spec(
            execute_spec(s, Instruction::SetSound { x: y }, r1),
            Instruction::ReadDelay { x },
            r2,
        ).v[x as int] == s.delay,
        execute_spec(s, Instruction::SetSound { x: y }, r1).sound == s.v[y as int],
        execute_spec(s, Instruction::SetSound { x: y }, r1).delay == s.delay,
{
}

/// `FX0A` with some key down stores the lowest key that is down and moves on.
pub proof fn law_wait_key_takes_lowest(s: EmuState, x: usize, r: u8, k: int)
    requires
        s.wf(),
        x < 16,
        0 <= k < 16,
        s.keys[k],
    ensures
        ({
            let t = execute_spec(s, Instruction::WaitKey { x }, r);
            let key = t.v[x as int] as int;
            &&& key <= k
            &&& s.keys[key]
            &&& forall|j: int| 0 <= j < key ==> !s.keys[j]
            &&& t.pc == s.pc
        }),
{
    lemma_first_pressed_bound(s.keys, 0, k);
}

proof fn lemma_first_pressed_bound(keys: Seq<bool>, from: int, k: int)
    requires
        0 <= from <= k < keys.len(),
        keys[k],
    ensures
        from <= first_pressed_from(keys, from) <= k,
        keys[first_pressed_from(keys, from)],
        forall|j: int| from <= j < first_pressed_from(keys, from) ==> !keys[j],
    decreases k - from,
{
    if !keys[from] {
        lemma_first_pressed_bound(keys, from + 1, k);
    }
}

/// `FX55` writes `V0..=VX` to `I..=I+X` and no other byte of memory.
pub proof fn law_store_registers(s: EmuState, x: usize, r: u8, a: int)
    requires
        s.wf(),
        x < 16,
        s.i + x < 4096,
        0 <= a < 4096,
    ensures
        execute_spec(s, Instruction::StoreRegs { x }, r).ram[a] == if s.i <= a <= s.i + x {
            s.v[a - s.i]
        } else {
            s.ram[a]
        },
{
}

/// The fetched opcode is big-endian: its high byte is at the program counter.
pub proof fn law_opcode_big_endian(s: EmuState)
    requires
        s.wf(),
        s.pc + 1 < 4096,
    ensures
        opcode_at(s) / 256 == s.ram[s.pc as int],
        opcode_at(s) % 256 == s.ram[s.pc + 1],
{
}

/// `BNNN` jumps to `NNN + V0` and `1NNN` to `NNN`.
pub proof fn law_jumps(s: EmuState, addr: u16, r: u8)
    requires
        s.wf(),
        addr < 4096,
    ensures
        execute_spec(s, Instruction::JumpOffset { addr }, r).pc == addr + s.v[0],
        execute_spec(s, Instruction::Jump { addr }, r).pc == addr,
{
}

/// `ANNN` sets `I` to `NNN`; `FX29` points `I` at the five-byte glyph of the
/// digit in `VX`; `FX1E` adds `VX` to `I` modulo 65536.
pub proof fn law_index(s: EmuState, addr: u16, x: usize, r: u8)
    requires
        s.wf(),
        addr < 4096,
        x < 16,
    ensures
        execute_spec(s, Instruction::SetIndex { addr }, r).i == addr,
        execute_spec(s, Instruction::FontChar { x }, r).i == 5 * s.v[x as int],
        ({
            let i = execute_spec(s, Instruction::AddIndex { x }, r).i;
            i == s.i + s.v[x as int] || i == s.i + s.v[x as int] - 65536
        }),
{
    let sum = s.i + s.v[x as int];
    assert(sum % 0x10000 == sum || sum % 0x10000 == sum - 65536) by {
        if sum >= 65536 {
            vstd::arithmetic::div_mod::lemma_fundamental_div_mod_converse(sum, 65536, 1, sum - 65536);
        } else {
            vstd::arithmetic::div_mod::lemma_small_mod(sum as nat, 65536);
        }
    }
}

/// `00E0` turns every pixel off and changes nothing else.
pub proof fn law_clear_screen(s: EmuState, p: int, r: u8)
    requires
        s.wf(),
        0 <= p < 2048,
    ensures
        !execute_spec(s, Instruction::ClearScreen, r).screen[p],
        execute_spec(s, Instruction::ClearScreen, r).screen.len() == 2048,
        execute_spec(s, Instruction::ClearScreen, r) == (EmuState {
            screen: execute_spec(s, Instruction::ClearScreen, r).screen,
            ..s
        }),
{
}

/// `0000` changes nothing.
pub proof fn law_nop(s: EmuState, r: u8)
    ensures
        execute_spec(s, Instruction::Nop, r) == s,
{
}

/// Instructions other than jumps, calls, returns, skips and `FX0A` leave the
/// program counter where the fetch put it.
pub proof fn law_non_control_keeps_pc(s: EmuState, ins: Instruction, r: u8)
    requires
        s.wf(),
        operands_in_range(ins),
        !(ins is Return || ins is Jump || ins is Call || ins is JumpOffset || ins is SkipIfEqual
            || ins is SkipIfNotEqual || ins is SkipIfRegsEqual || ins is SkipIfRegsNotEqual
            || ins is SkipIfKey || ins is SkipIfNotKey || ins is WaitKey),
    ensures
        execute_spec(s, ins, r).pc == s.pc,
{
}

/// A cycle that runs such an instruction moves the program counter past the
/// two-byte opcode.
pub proof fn law_tick_moves_past_opcode(s: EmuState, r: u8)
    requires
        s.wf(),
        tick_defined(s),
        ({
            let ins = decode_spec(opcode_at(s))->0;
            !(ins is Return || ins is Jump || ins is Call || ins is JumpOffset || ins is SkipIfEqual
                || ins is SkipIfNotEqual || ins is SkipIfRegsEqual || ins is SkipIfRegsNotEqual
                || ins is SkipIfKey || ins is SkipIfNotKey || ins is WaitKey)
        }),
    ensures
        tick_spec(s, r).pc == s.pc + 2,
{
    reveal(tick_spec);
    reveal(tick_defined);
    lemma_decode_in_range(opcode_at(s));
    law_non_control_keeps_pc(fetched(s), decode_spec(opcode_at(s))->0, r);
}

/// Loading puts byte `k` of the program at `0x200 + k` and leaves every other
/// byte of memory as it was.
pub proof fn law_load_places_program(ram: Seq<u8>, bytes: Seq<u8>, a: int)
    requires
        ram.len() == 4096,
        0x200 + bytes.len() <= 4096,
        0 <= a < 4096,
    ensures
        loaded_ram(ram, bytes).len() == 4096,
        0x200 <= a < 0x200 + bytes.len() ==> loaded_ram(ram, bytes)[a] == bytes[a - 0x200],
        !(0x200 <= a < 0x200 + bytes.len()) ==> loaded_ram(ram, bytes)[a] == ram[a],
{
}

/// A run of no cycles stays put, and a run of one cycle is one defined cycle
/// with some random byte.
pub proof fn law_runs_short(s: EmuState, t: EmuState)
    ensures
        runs(s, 0, t) <==> t == s,
        runs(s, 1, t) <==> tick_defined(s) && exists|r: u8| t == #[trigger] tick_spec(s, r),
{
    if runs(s, 0, t) {
        let (states, rnds) = choose|states: Seq<EmuState>, rnds: Seq<u8>|
            #[trigger] is_trace(states, rnds) && rnds.len() == 0 && states[0] == s && states.last()
                == t;
    }
    if t == s {
        crate::machine::lemma_runs_zero(s);
    }
    if runs(s, 1, t) {
        let (states, rnds) = choose|states: Seq<EmuState>, rnds: Seq<u8>|
            #[trigger] is_trace(states, rnds) && rnds.len() == 1 && states[0] == s && states.last()
                == t;
        assert(tick_defined(states[0]));
        assert(t == tick_spec(s, rnds[0]));
    }
    if tick_defined(s) && exists|r: u8| t == #[trigger] tick_spec(s, r) {
        let r = choose|r: u8| t == #[trigger] tick_spec(s, r);
        crate::machine::lemma_runs_zero(s);
        crate::machine::lemma_runs_step(s, 0, s, r);
    }
}

/// The highest-priority speed rules: a path naming `15puzzle` runs 15 cycles
/// per frame, and one naming `blinky` (but not `15puzzle`) runs 25.
pub proof fn law_speed_first_rules(name: Seq<char>)
    ensures
        has_fragment(name, seq!['1', '5', 'p', 'u', 'z', 'z', 'l', 'e']) ==> speed_from(
            name,
            speed_rules(),
            0,
        ) == 15,
        !has_fragment(name, seq!['1', '5', 'p', 'u', 'z', 'z', 'l', 'e']) && has_fragment(
            name,
            seq!['b', 'l', 'i', 'n', 'k', 'y'],
        ) ==> speed_from(name, speed_rules(), 0) == 25,
{
    assert(speed_rules()[0].0 =~= seq!['1', '5', 'p', 'u', 'z', 'z', 'l', 'e']);
    assert(speed_rules()[1].0 =~= seq!['b', 'l', 'i', 'n', 'k', 'y']);
    reveal_with_fuel(speed_from, 2);
}

/// The fault reported for a state names the program counter and the opcode
/// there: it is out of range only when the opcode would not fit in memory,
/// unknown only when the opcode does not decode, and a bad-operand fault only
/// for an opcode that decodes but cannot run; no fault means a cycle can run.
pub proof fn law_fault_reasons(s: EmuState)
    requires
        s.wf(),
    ensures
        fault_spec(s) is None <==> tick_defined(s),
        fault_spec(s) matches Some(Fault::PcOutOfRange { pc }) ==> pc == s.pc && s.pc + 1 >= 4096,
        fault_spec(s) matches Some(Fault::UnknownOpcode { pc, opcode }) ==> pc == s.pc && s.pc + 1
            < 4096 && opcode == s.ram[s.pc as int] * 256 + s.ram[s.pc + 1] && decode_spec(opcode)
            is None,
        fault_spec(s) matches Some(Fault::BadOperands { pc, opcode }) ==> pc == s.pc && s.pc + 1
            < 4096 && opcode == s.ram[s.pc as int] * 256 + s.ram[s.pc + 1] && decode_spec(opcode)
            is Some,
{
    reveal(tick_defined);
    if s.pc + 1 < 4096 {
        law_opcode_big_endian(s);
        assert(opcode_at(s) == s.ram[s.pc as int] * 256 + s.ram[s.pc + 1]);
    }
}

/// `FX65` loads `V0..=VX` from `I..=I+X` and leaves the other registers.
pub proof fn law_load_registers(s: EmuState, x: usize, r: u8, k: int)
    requires
        s.wf(),
        x < 16,
        s.i + x < 4096,
        0 <= k < 16,
    ensures
        execute_spec(s, Instruction::LoadRegs { x }, r).v[k] == if k <= x {
            s.ram[s.i + k]
        } else {
            s.v[k]
        },
        execute_spec(s, Instruction::LoadRegs { x }, r).ram == s.ram,
{
}

} // verus!
