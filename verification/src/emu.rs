//! The interpreter: state, instruction execution, timers, keypad and loading.
use vstd::prelude::*;
use vstd::arithmetic::div_mod::{
    lemma_add_mod_noop_right, lemma_fundamental_div_mod, lemma_fundamental_div_mod_converse,
    lemma_small_mod, lemma_sub_mod_noop, lemma_sub_mod_noop_right,
};
use crate::instruction::{decode, decode_spec, operands_in_range, Instruction};
use crate::machine::{
    draw_spec, drawn_screen, execute_defined, execute_spec, fault_spec, fetched, first_pressed,
    first_pressed_from, initial_ram, initial_state, lemma_runs_step, lemma_runs_zero, loaded_ram,
    opcode_at, runs, set_reg, sprite_col, sprite_covers, sprite_row, tick_defined, tick_spec,
    timers_spec, EmuState, Fault, FONTSET,
    FONTSET_SIZE, NUM_KEYS, NUM_REGS, RAM_SIZE, SCREEN_HEIGHT, SCREEN_SIZE, SCREEN_WIDTH,
    STACK_SIZE, START_ADDR,
};
use crate::rng::random_byte;

verus! {

/// A CHIP-8 machine.
pub struct Emu {
    program_counter: u16,
    ram: Vec<u8>,
    screen: Vec<bool>,
    v_reg: Vec<u8>,
    i_reg: u16,
    stack_pointer: u16,
    stack: Vec<u16>,
    keys: Vec<bool>,
    delay_timer: u8,
    sound_timer: u8,
}

impl View for Emu {
    type V = EmuState;

    closed spec fn view(&self) -> EmuState {
        EmuState {
            pc: self.program_counter,
            ram: self.ram@,
            screen: self.screen@,
            v: self.v_reg@,
            i: self.i_reg,
            sp: self.stack_pointer,
            stack: self.stack@,
            keys: self.keys@,
            delay: self.delay_timer,
            sound: self.sound_timer,
        }
    }
}

/// Screen pixel `p` is touched by the sprite cell at `(row, col)` that has
/// been drawn so far, when rows before `row` and the first `col` cells of
/// row `row` are done.
spec fn drawn_so_far(s: EmuState, x: int, y: int, rows: int, row: int, col: int, p: int) -> bool {
    &&& sprite_covers(s, x, y, rows, p)
    &&& (sprite_row(s, y, p) < row || (sprite_row(s, y, p) == row && sprite_col(s, x, p) < col))
}

proof fn lemma_wrap(a: int, k: int, q: int, m: int)
    requires
        0 < m,
        0 <= k < m,
        0 <= q < m,
    ensures
        ((a + k) % m == q) == ((q - a) % m == k),
{
    lemma_small_mod(k as nat, m as nat);
    lemma_small_mod(q as nat, m as nat);
    lemma_sub_mod_noop(a + k, a, m);
    lemma_sub_mod_noop_right((a + k) % m, a, m);
    lemma_add_mod_noop_right(a, q - a, m);
}

/// The screen cell written for sprite cell `(row, col)` is pixel `p` exactly
/// when `p` falls in that sprite cell.
pub(crate) proof fn lemma_cell(xc: int, yc: int, row: int, col: int, p: int)
    requires
        0 <= row < 32,
        0 <= col < 64,
        0 <= p < 2048,
    ensures
        (((xc + col) % 64) + 64 * ((yc + row) % 32) == p) == ((p % 64 - xc) % 64 == col && (p / 64
            - yc) % 32 == row),
{
    let px = (xc + col) % 64;
    let py = (yc + row) % 32;
    assert(0 <= px < 64 && 0 <= py < 32) by {
        vstd::arithmetic::div_mod::lemma_mod_bound(xc + col, 64);
        vstd::arithmetic::div_mod::lemma_mod_bound(yc + row, 32);
    }
    lemma_fundamental_div_mod_converse(px + 64 * py, 64, py, px);
    lemma_fundamental_div_mod(p, 64);
    vstd::arithmetic::div_mod::lemma_mod_bound(p, 64);
    assert(0 <= p / 64 < 32) by {
        vstd::arithmetic::div_mod::lemma_div_pos_is_pos(p, 64);
        vstd::arithmetic::div_mod::lemma_div_is_ordered(p, 2047, 64);
    }
    lemma_wrap(xc, col, p % 64, 64);
    lemma_wrap(yc, row, p / 64, 32);
}

pub(crate) proof fn lemma_sprite_bit(pixels: u8, col: u8, sh: u8)
    requires
        col < 8,
        sh + col == 7,
    ensures
        ((pixels & (0x80u8 >> col)) != 0u8) == ((pixels >> sh) & 1u8 == 1u8),
{
    assert(((pixels & (0x80u8 >> col)) != 0u8) == ((pixels >> sh) & 1u8 == 1u8)) by (bit_vector)
        requires
            col < 8,
            sh + col == 7,
    ;
}

proof fn lemma_u8_ops(a: u8)
    ensures
        a >> 1u8 == a / 2,
        a & 1u8 == a % 2,
        a << 1u8 == ((a * 2) % 256) as u8,
{
    assert(a >> 1u8 == a / 2) by (bit_vector);
    assert(a & 1u8 == a % 2) by (bit_vector);
    assert(a << 1u8 == ((a * 2) % 256) as u8) by (bit_vector);
}

proof fn lemma_first_pressed_skip(keys: Seq<bool>, k: int)
    requires
        0 <= k < keys.len(),
        !keys[k],
    ensures
        first_pressed_from(keys, k) == first_pressed_from(keys, k + 1),
{
}

impl Emu {
    /// A machine in its power-on state: the font at address 0, the program
    /// counter at the load address, everything else cleared.
    pub fn new() -> (r: Emu)
        ensures
            r@ == initial_state(),
    {
        let mut ram: Vec<u8> = vec![0u8; RAM_SIZE];
        let mut k: usize = 0;
        while k < FONTSET_SIZE
            invariant
                k <= FONTSET_SIZE,
                ram@.len() == RAM_SIZE,
                forall|a: int| 0 <= a < k ==> ram@[a] == FONTSET@[a],
                forall|a: int| k <= a < RAM_SIZE ==> ram@[a] == 0u8,
            decreases FONTSET_SIZE - k,
        {
            ram[k] = FONTSET[k];
            k = k + 1;
        }
        let r = Emu {
            program_counter: START_ADDR,
            ram,
            screen: vec![false; SCREEN_SIZE],
            v_reg: vec![0u8; NUM_REGS],
            i_reg: 0,
            stack_pointer: 0,
            stack: vec![0u16; STACK_SIZE],
            keys: vec![false; NUM_KEYS],
            delay_timer: 0,
            sound_timer: 0,
        };
        assert(r@.ram =~= initial_ram());
        assert(r@ =~= initial_state());
        r
    }

    /// Puts the machine back in its power-on state (memory included).
    pub fn reset(&mut self)
        ensures
            final(self)@ == initial_state(),
    {
        let fresh = Emu::new();
        self.program_counter = fresh.program_counter;
        self.ram = fresh.ram;
        self.screen = fresh.screen;
        self.v_reg = fresh.v_reg;
        self.i_reg = fresh.i_reg;
        self.stack_pointer = fresh.stack_pointer;
        self.stack = fresh.stack;
        self.keys = fresh.keys;
        self.delay_timer = fresh.delay_timer;
        self.sound_timer = fresh.sound_timer;
    }

    /// The screen, row by row, `true` for a lit pixel.
    pub fn get_display(&self) -> (r: &[bool])
        ensures
            r@ == self@.screen,
    {
        self.screen.as_slice()
    }

    /// Records whether key `key` (0 to 15) is down.
    pub fn set_key(&mut self, key: usize, press: bool)
        requires
            old(self)@.wf(),
            key < NUM_KEYS,
        ensures
            final(self)@ == (EmuState { keys: old(self)@.keys.update(key as int, press), ..old(self)@ }),
            final(self)@.wf(),
    {
        self.keys.set(key, press);
    }

    /// Copies a program into memory at the load address.
    pub fn load(&mut self, bytes: &[u8])
        requires
            old(self)@.wf(),
            START_ADDR + bytes@.len() <= RAM_SIZE,
        ensures
            final(self)@ == (EmuState { ram: loaded_ram(old(self)@.ram, bytes@), ..old(self)@ }),
            final(self)@.wf(),
    {
        let ghost s0 = self@;
        let start = START_ADDR as usize;
        let mut k: usize = 0;
        while k < bytes.len()
            invariant
                s0.wf(),
                start == START_ADDR,
                start + bytes@.len() <= RAM_SIZE,
                k <= bytes@.len(),
                self@ == (EmuState { ram: self@.ram, ..s0 }),
                self@.ram.len() == RAM_SIZE,
                forall|a: int|
                    0 <= a < RAM_SIZE ==> #[trigger] self@.ram[a] == if start <= a < start + k {
                        bytes@[a - start]
                    } else {
                        s0.ram[a]
                    },
            decreases bytes@.len() - k,
        {
            self.ram.set(start + k, bytes[k]);
            k = k + 1;
        }
        assert(self@.ram =~= loaded_ram(s0.ram, bytes@));
    }

    /// One 60 Hz timer tick: the delay and sound timers count down to zero.
    /// Returns whether the beeper sounds during this tick, that is whether the
    /// sound timer was running.
    pub fn timer_ticks(&mut self) -> (beep: bool)
        requires
            old(self)@.wf(),
        ensures
            final(self)@ == timers_spec(old(self)@),
            beep == (old(self)@.sound > 0),
            final(self)@.wf(),
    {
        if self.delay_timer > 0 {
            self.delay_timer = self.delay_timer - 1;
        }
        if self.sound_timer > 0 {
            self.sound_timer = self.sound_timer - 1;
            true
        } else {
            false
        }
    }

    /// Reads the opcode at the program counter and moves past it.
    fn fetch(&mut self) -> (op: u16)
        requires
            old(self)@.wf(),
            old(self)@.pc + 1 < RAM_SIZE,
        ensures
            op == opcode_at(old(self)@),
            final(self)@ == fetched(old(self)@),
    {
        let hi = self.ram[self.program_counter as usize];
        let lo = self.ram[(self.program_counter + 1) as usize];
        let higher = (hi as u16) << 8;
        let lower = lo as u16;
        let op: u16 = higher | lower;
        assert(((hi as u16) << 8u16) | (lo as u16) == hi * 256 + lo) by (bit_vector);
        self.program_counter = self.program_counter + 2;
        op
    }

    /// The lowest key that is down, or 16 if none is.
    fn first_pressed_key(&self) -> (k: usize)
        requires
            self@.wf(),
        ensures
            k == first_pressed(self@.keys),
    {
        let mut k: usize = 0;
        while k < NUM_KEYS
            invariant
                self@.wf(),
                k <= NUM_KEYS,
                first_pressed(self@.keys) == first_pressed_from(self@.keys, k as int),
            decreases NUM_KEYS - k,
        {
            if self.keys[k] {
                return k;
            }
            proof {
                lemma_first_pressed_skip(self@.keys, k as int);
            }
            k = k + 1;
        }
        k
    }

    /// Whether `ins` can be executed with the program counter at `pc`.
    fn executable(&self, ins: Instruction, pc: u16) -> (r: bool)
        requires
            self@.wf(),
            operands_in_range(ins),
        ensures
            r == execute_defined(EmuState { pc, ..self@ }, ins),
    {
        match ins {
            Instruction::Return => 1 <= self.stack_pointer,
            Instruction::Call { .. } => (self.stack_pointer as usize) < STACK_SIZE,
            Instruction::SkipIfEqual { x, byte } => self.v_reg[x] != byte || pc <= 0xFFFD,
            Instruction::SkipIfNotEqual { x, byte } => self.v_reg[x] == byte || pc <= 0xFFFD,
            Instruction::SkipIfRegsEqual { x, y } => self.v_reg[x] != self.v_reg[y] || pc <= 0xFFFD,
            Instruction::SkipIfRegsNotEqual { x, y } => self.v_reg[x] == self.v_reg[y] || pc
                <= 0xFFFD,
            Instruction::SkipIfKey { x } => {
                let k = self.v_reg[x] as usize;
                k < NUM_KEYS && (!self.keys[k] || pc <= 0xFFFD)
            },
            Instruction::SkipIfNotKey { x } => {
                let k = self.v_reg[x] as usize;
                k < NUM_KEYS && (self.keys[k] || pc <= 0xFFFD)
            },
            Instruction::WaitKey { .. } => self.first_pressed_key() < NUM_KEYS || pc >= 2,
            Instruction::Draw { rows, .. } => rows == 0 || self.i_reg as usize + rows as usize
                <= RAM_SIZE,
            Instruction::StoreBcd { .. } => (self.i_reg as usize) + 2 < RAM_SIZE,
            Instruction::StoreRegs { x } => (self.i_reg as usize) + x < RAM_SIZE,
            Instruction::LoadRegs { x } => (self.i_reg as usize) + x < RAM_SIZE,
            _ => true,
        }
    }

    /// Why the next fetch-and-execute cycle cannot be run, or `None` when it can.
    pub fn fault(&self) -> (r: Option<Fault>)
        requires
            self@.wf(),
        ensures
            r == fault_spec(self@),
            r is None <==> tick_defined(self@),
    {
        proof {
            reveal(tick_defined);
        }
        let pc = self.program_counter;
        if pc as usize + 1 >= RAM_SIZE {
            return Some(Fault::PcOutOfRange { pc });
        }
        let hi = self.ram[pc as usize];
        let lo = self.ram[pc as usize + 1];
        let opcode: u16 = ((hi as u16) << 8) | (lo as u16);
        assert(((hi as u16) << 8u16) | (lo as u16) == hi * 256 + lo) by (bit_vector);
        match decode(opcode) {
            None => Some(Fault::UnknownOpcode { pc, opcode }),
            Some(ins) => {
                if self.executable(ins, pc + 2) {
                    None
                } else {
                    Some(Fault::BadOperands { pc, opcode })
                }
            },
        }
    }

    /// Executes one opcode as if just fetched; `random` is the byte that
    /// `CXNN` masks (no other opcode reads it).
    pub fn execute(&mut self, opcode: u16, random: u8)
        requires
            old(self)@.wf(),
            decode_spec(opcode) is Some,
            execute_defined(old(self)@, decode_spec(opcode)->0),
        ensures
            final(self)@ == execute_spec(old(self)@, decode_spec(opcode)->0, random),
            final(self)@.wf(),
    {
        match decode(opcode) {
            Some(ins) => self.run(ins, random),
            None => {},
        }
    }

    /// One fetch-and-execute cycle. `CXNN` draws its random byte from
    /// `rand`; every other opcode behaves as with any fixed random byte.
    pub fn tick(&mut self)
        requires
            old(self)@.wf(),
            tick_defined(old(self)@),
        ensures
            final(self)@.wf(),
            exists|r: u8| final(self)@ == tick_spec(old(self)@, r),
            !(decode_spec(opcode_at(old(self)@)) matches Some(Instruction::Random { .. }))
                ==> final(self)@ == tick_spec(old(self)@, 0),
    {
        proof {
            reveal(tick_spec);
            reveal(tick_defined);
        }
        let ghost s0 = self@;
        let opcode = self.fetch();
        match decode(opcode) {
            Some(ins) => {
                let random = match ins {
                    Instruction::Random { .. } => random_byte(),
                    _ => 0,
                };
                self.run(ins, random);
                assert(self@ == tick_spec(s0, random));
            },
            None => {},
        }
    }

    /// Runs up to `ticks` fetch-and-execute cycles and then one timer tick.
    /// Stops early, without the timer tick, at the first cycle that cannot
    /// be run, and reports why. On success, returns whether the beeper sounds.
    pub fn run_frame(&mut self, ticks: usize) -> (r: Result<bool, Fault>)
        requires
            old(self)@.wf(),
        ensures
            final(self)@.wf(),
            r matches Ok(beep) ==> exists|t: EmuState|
                #![trigger runs(old(self)@, ticks as nat, t)]
                runs(old(self)@, ticks as nat, t) && final(self)@ == timers_spec(t) && beep == (t.sound
                    > 0),
            r matches Err(f) ==> exists|k: nat|
                #![trigger runs(old(self)@, k, final(self)@)]
                k < ticks && runs(old(self)@, k, final(self)@) && fault_spec(final(self)@) == Some(f),
    {
        let ghost s0 = self@;
        proof {
            lemma_runs_zero(s0);
        }
        let mut n: usize = 0;
        while n < ticks
            invariant
                self@.wf(),
                n <= ticks,
                s0 == old(self)@,
                runs(s0, n as nat, self@),
            decreases ticks - n,
        {
            match self.fault() {
                Some(f) => {
                    assert(runs(s0, n as nat, self@));
                    return Err(f);
                },
                None => {},
            }
            let ghost before = self@;
            self.tick();
            proof {
                let r = choose|r: u8| self@ == tick_spec(before, r);
                lemma_runs_step(s0, n as nat, before, r);
            }
            n = n + 1;
        }
        let beep = self.timer_ticks();
        Ok(beep)
    }

    /// The program counter.
    pub fn pc(&self) -> (r: u16)
        ensures
            r == self@.pc,
    {
        self.program_counter
    }

    /// Register `VX`.
    pub fn register(&self, x: usize) -> (r: u8)
        requires
            self@.wf(),
            x < NUM_REGS,
        ensures
            r == self@.v[x as int],
    {
        self.v_reg[x]
    }

    /// The index register `I`.
    pub fn index(&self) -> (r: u16)
        ensures
            r == self@.i,
    {
        self.i_reg
    }

    /// The stack pointer: the number of return addresses on the stack.
    pub fn stack_depth(&self) -> (r: u16)
        ensures
            r == self@.sp,
    {
        self.stack_pointer
    }

    /// The byte of memory at `addr`.
    pub fn memory(&self, addr: usize) -> (r: u8)
        requires
            self@.wf(),
            addr < RAM_SIZE,
        ensures
            r == self@.ram[addr as int],
    {
        self.ram[addr]
    }

    /// Whether key `key` is down.
    pub fn key_down(&self, key: usize) -> (r: bool)
        requires
            self@.wf(),
            key < NUM_KEYS,
        ensures
            r == self@.keys[key as int],
    {
        self.keys[key]
    }

    /// The delay timer.
    pub fn delay(&self) -> (r: u8)
        ensures
            r == self@.delay,
    {
        self.delay_timer
    }

    /// The sound timer.
    pub fn sound(&self) -> (r: u8)
        ensures
            r == self@.sound,
    {
        self.sound_timer
    }

    /// Executes one decoded instruction; `random` is the byte that `CXNN`
    /// masks (no other instruction reads it).
    fn run(&mut self, ins: Instruction, random: u8)
        requires
            old(self)@.wf(),
            operands_in_range(ins),
            execute_defined(old(self)@, ins),
        ensures
            final(self)@ == execute_spec(old(self)@, ins, random),
            final(self)@.wf(),
    {
        match ins {
            Instruction::Nop
            | Instruction::ClearScreen
            | Instruction::Return
            | Instruction::Jump { .. }
            | Instruction::Call { .. }
            | Instruction::JumpOffset { .. }
            | Instruction::SetIndex { .. }
            => self.run_control(ins, random),
            Instruction::SkipIfEqual { .. }
            | Instruction::SkipIfNotEqual { .. }
            | Instruction::SkipIfRegsEqual { .. }
            | Instruction::SkipIfRegsNotEqual { .. }
            | Instruction::SkipIfKey { .. }
            | Instruction::SkipIfNotKey { .. }
            => self.run_skip(ins, random),
            Instruction::SetByte { .. }
            | Instruction::AddByte { .. }
            | Instruction::Copy { .. }
            | Instruction::Or { .. }
            | Instruction::And { .. }
            | Instruction::Xor { .. }
            | Instruction::Random { .. }
            => self.run_bitwise(ins, random),
            Instruction::AddRegs { .. }
            | Instruction::Sub { .. }
            | Instruction::ShiftRight { .. }
            | Instruction::SubReversed { .. }
            | Instruction::ShiftLeft { .. }
            => self.run_flags(ins, random),
            Instruction::ReadDelay { .. }
            | Instruction::WaitKey { .. }
            | Instruction::SetDelay { .. }
            | Instruction::SetSound { .. }
            | Instruction::AddIndex { .. }
            | Instruction::FontChar { .. }
            | Instruction::Draw { .. }
            => self.run_devices(ins, random),
            Instruction::StoreBcd { .. }
            | Instruction::StoreRegs { .. }
            | Instruction::LoadRegs { .. }
            => self.run_memory(ins, random),
        }
    }

    /// Control flow, screen clearing and the index: `0000`, `00E0`, `00EE`, `1NNN`, `2NNN`,
    /// `ANNN`, `BNNN`.
    fn run_control(&mut self, ins: Instruction, random: u8)
        requires
            old(self)@.wf(),
            operands_in_range(ins),
            execute_defined(old(self)@, ins),
            ins is Nop || ins is ClearScreen || ins is Return || ins is Jump || ins is Call ||
                ins is JumpOffset || ins is SetIndex,
        ensures
            final(self)@ == execute_spec(old(self)@, ins, random),
            final(self)@.wf(),
    {
        match ins {
            Instruction::Nop => {},
            Instruction::ClearScreen => {
                self.screen = vec![false; SCREEN_SIZE];
                assert(self@.screen =~= Seq::new(SCREEN_SIZE as nat, |p: int| false));
            },
            Instruction::Return => {
                self.stack_pointer = self.stack_pointer - 1;
                self.program_counter = self.stack[self.stack_pointer as usize];
            },
            Instruction::Jump { addr } => {
                self.program_counter = addr;
            },
            Instruction::Call { addr } => {
                let sp = self.stack_pointer as usize;
                self.stack.set(sp, self.program_counter);
                self.stack_pointer = self.stack_pointer + 1;
                self.program_counter = addr;
            },
            Instruction::JumpOffset { addr } => {
                self.program_counter = addr + self.v_reg[0] as u16;
            },
            Instruction::SetIndex { addr } => {
                self.i_reg = addr;
            },
            _ => {},
        }
    }

    /// Conditional skips: `3XNN`, `4XNN`, `5XY0`, `9XY0`, `EX9E`, `EXA1`.
    fn run_skip(&mut self, ins: Instruction, random: u8)
        requires
            old(self)@.wf(),
            operands_in_range(ins),
            execute_defined(old(self)@, ins),
            ins is SkipIfEqual || ins is SkipIfNotEqual || ins is SkipIfRegsEqual ||
                ins is SkipIfRegsNotEqual || ins is SkipIfKey || ins is SkipIfNotKey,
        ensures
            final(self)@ == execute_spec(old(self)@, ins, random),
            final(self)@.wf(),
    {
        match ins {
            Instruction::SkipIfEqual { x, byte } => {
                if self.v_reg[x] == byte {
                    self.program_counter = self.program_counter + 2;
                }
            },
            Instruction::SkipIfNotEqual { x, byte } => {
                if self.v_reg[x] != byte {
                    self.program_counter = self.program_counter + 2;
                }
            },
            Instruction::SkipIfRegsEqual { x, y } => {
                if self.v_reg[x] == self.v_reg[y] {
                    self.program_counter = self.program_counter + 2;
                }
            },
            Instruction::SkipIfRegsNotEqual { x, y } => {
                if self.v_reg[x] != self.v_reg[y] {
                    self.program_counter = self.program_counter + 2;
                }
            },
            Instruction::SkipIfKey { x } => {
                let vx = self.v_reg[x];
                if self.keys[vx as usize] {
                    self.program_counter = self.program_counter + 2;
                }
            },
            Instruction::SkipIfNotKey { x } => {
                let vx = self.v_reg[x];
                if !self.keys[vx as usize] {
                    self.program_counter = self.program_counter + 2;
                }
            },
            _ => {},
        }
    }

    /// Register loads and bitwise operations: `6XNN`, `7XNN`, `8XY0`-`8XY3`, `CXNN`.
    fn run_bitwise(&mut self, ins: Instruction, random: u8)
        requires
            old(self)@.wf(),
            operands_in_range(ins),
            execute_defined(old(self)@, ins),
            ins is SetByte || ins is AddByte || ins is Copy || ins is Or || ins is And || ins is Xor ||
                ins is Random,
        ensures
            final(self)@ == execute_spec(old(self)@, ins, random),
            final(self)@.wf(),
    {
        match ins {
            Instruction::SetByte { x, byte } => {
                self.v_reg.set(x, byte);
            },
            Instruction::AddByte { x, byte } => {
                let sum = self.v_reg[x].wrapping_add(byte);
                self.v_reg.set(x, sum);
            },
            Instruction::Copy { x, y } => {
                let vy = self.v_reg[y];
                self.v_reg.set(x, vy);
            },
            Instruction::Or { x, y } => {
                let r = self.v_reg[x] | self.v_reg[y];
                self.v_reg.set(x, r);
            },
            Instruction::And { x, y } => {
                let r = self.v_reg[x] & self.v_reg[y];
                self.v_reg.set(x, r);
            },
            Instruction::Xor { x, y } => {
                let r = self.v_reg[x] ^ self.v_reg[y];
                self.v_reg.set(x, r);
            },
            Instruction::Random { x, byte } => {
                self.v_reg.set(x, random & byte);
            },
            _ => {},
        }
    }

    /// Arithmetic that sets the flag register: `8XY4`-`8XY7`, `8XYE`.
    #[verifier::rlimit(40)]
    fn run_flags(&mut self, ins: Instruction, random: u8)
        requires
            old(self)@.wf(),
            operands_in_range(ins),
            execute_defined(old(self)@, ins),
            ins is AddRegs || ins is Sub || ins is ShiftRight || ins is SubReversed ||
                ins is ShiftLeft,
        ensures
            final(self)@ == execute_spec(old(self)@, ins, random),
            final(self)@.wf(),
    {
        match ins {
            Instruction::AddRegs { x, y } => {
                let a = self.v_reg[x];
                let b = self.v_reg[y];
                let carry = a as u16 + b as u16 > 255;
                self.v_reg.set(x, a.wrapping_add(b));
                self.v_reg.set(0xF, if carry { 1 } else { 0 });
            },
            Instruction::Sub { x, y } => {
                let a = self.v_reg[x];
                let b = self.v_reg[y];
                self.v_reg.set(x, a.wrapping_sub(b));
                self.v_reg.set(0xF, if a < b { 0 } else { 1 });
            },
            Instruction::ShiftRight { x } => {
                let a = self.v_reg[x];
                proof {
                    lemma_u8_ops(a);
                }
                self.v_reg.set(x, a >> 1);
                self.v_reg.set(0xF, a & 1);
            },
            Instruction::SubReversed { x, y } => {
                let a = self.v_reg[y];
                let b = self.v_reg[x];
                self.v_reg.set(x, a.wrapping_sub(b));
                self.v_reg.set(0xF, if a < b { 0 } else { 1 });
            },
            Instruction::ShiftLeft { x } => {
                let a = self.v_reg[x];
                proof {
                    lemma_u8_ops(a);
                }
                let dropped: u8 = if a > 127 { 1 } else { 0 };
                self.v_reg.set(x, a << 1);
                self.v_reg.set(0xF, dropped);
            },
            _ => {},
        }
    }

    /// Display, timers, keypad and index: `DXYN`, `FX07`, `FX0A`, `FX15`, `FX18`, `FX1E`, `FX29`.
    fn run_devices(&mut self, ins: Instruction, random: u8)
        requires
            old(self)@.wf(),
            operands_in_range(ins),
            execute_defined(old(self)@, ins),
            ins is ReadDelay || ins is WaitKey || ins is SetDelay || ins is SetSound ||
                ins is AddIndex || ins is FontChar || ins is Draw,
        ensures
            final(self)@ == execute_spec(old(self)@, ins, random),
            final(self)@.wf(),
    {
        let ghost s0 = self@;
        match ins {
            Instruction::ReadDelay { x } => {
                let d = self.delay_timer;
                self.v_reg.set(x, d);
            },
            Instruction::WaitKey { x } => {
                let mut pressed = false;
                let mut k: usize = 0;
                while k < NUM_KEYS
                    invariant_except_break
                        k <= NUM_KEYS,
                        !pressed,
                        self@ == s0,
                        forall|j: int| 0 <= j < k ==> !s0.keys[j],
                        first_pressed(s0.keys) == first_pressed_from(s0.keys, k as int),
                    invariant
                        s0.wf(),
                        x < 16,
                    ensures
                        pressed ==> self@ == set_reg(s0, x as int, first_pressed(s0.keys) as u8)
                            && first_pressed(s0.keys) < NUM_KEYS,
                        !pressed ==> self@ == s0 && first_pressed(s0.keys) >= NUM_KEYS,
                    decreases NUM_KEYS - k,
                {
                    if self.keys[k] {
                        pressed = true;
                        self.v_reg.set(x, k as u8);
                        break;
                    }
                    proof {
                        lemma_first_pressed_skip(s0.keys, k as int);
                    }
                    k = k + 1;
                }
                if !pressed {
                    self.program_counter = self.program_counter - 2;
                }
            },
            Instruction::SetDelay { x } => {
                self.delay_timer = self.v_reg[x];
            },
            Instruction::SetSound { x } => {
                self.sound_timer = self.v_reg[x];
            },
            Instruction::AddIndex { x } => {
                self.i_reg = self.i_reg.wrapping_add(self.v_reg[x] as u16);
            },
            Instruction::FontChar { x } => {
                self.i_reg = 5 * self.v_reg[x] as u16;
            },
            Instruction::Draw { x, y, rows } => {
                self.draw(x, y, rows);
            },
            _ => {},
        }
    }

    /// Memory transfers: `FX33`, `FX55`, `FX65`.
    fn run_memory(&mut self, ins: Instruction, random: u8)
        requires
            old(self)@.wf(),
            operands_in_range(ins),
            execute_defined(old(self)@, ins),
            ins is StoreBcd || ins is StoreRegs || ins is LoadRegs,
        ensures
            final(self)@ == execute_spec(old(self)@, ins, random),
            final(self)@.wf(),
    {
        let ghost s0 = self@;
        match ins {
            Instruction::StoreBcd { x } => {
                let a = self.v_reg[x];
                let i = self.i_reg as usize;
                self.ram.set(i, a / 100);
                self.ram.set(i + 1, (a / 10) % 10);
                self.ram.set(i + 2, a % 10);
            },
            Instruction::StoreRegs { x } => {
                let i = self.i_reg as usize;
                let mut k: usize = 0;
                while k <= x
                    invariant
                        s0.wf(),
                        x < 16,
                        i == s0.i,
                        i + x < RAM_SIZE,
                        k <= x + 1,
                        self@ == (EmuState { ram: self@.ram, ..s0 }),
                        self@.ram.len() == RAM_SIZE,
                        forall|a: int|
                            0 <= a < RAM_SIZE ==> #[trigger] self@.ram[a] == if i <= a < i + k {
                                s0.v[a - i]
                            } else {
                                s0.ram[a]
                            },
                    decreases x + 1 - k,
                {
                    let vk = self.v_reg[k];
                    self.ram.set(i + k, vk);
                    k = k + 1;
                }
                assert(self@.ram =~= execute_spec(s0, ins, random).ram);
            },
            Instruction::LoadRegs { x } => {
                let i = self.i_reg as usize;
                let mut k: usize = 0;
                while k <= x
                    invariant
                        s0.wf(),
                        x < 16,
                        i == s0.i,
                        i + x < RAM_SIZE,
                        k <= x + 1,
                        self@ == (EmuState { v: self@.v, ..s0 }),
                        self@.v.len() == NUM_REGS,
                        forall|j: int|
                            0 <= j < NUM_REGS ==> #[trigger] self@.v[j] == if j < k {
                                s0.ram[i + j]
                            } else {
                                s0.v[j]
                            },
                    decreases x + 1 - k,
                {
                    let b = self.ram[i + k];
                    self.v_reg.set(k, b);
                    k = k + 1;
                }
                assert(self@.v =~= execute_spec(s0, ins, random).v);
            },
            _ => {},
        }
    }

    /// `DXYN`: XORs the `rows`-row sprite at `I` onto the screen at `(VX, VY)`,
    /// wrapping at the edges, and sets `VF` to whether a lit pixel went dark.
    fn draw(&mut self, x: usize, y: usize, rows: u8)
        requires
            old(self)@.wf(),
            x < 16,
            y < 16,
            rows < 16,
            rows == 0 || old(self)@.i + rows <= RAM_SIZE,
        ensures
            final(self)@ == draw_spec(old(self)@, x as int, y as int, rows as int),
    {
        let ghost s0 = self@;
        let x_coord = self.v_reg[x] as usize;
        let y_coord = self.v_reg[y] as usize;
        let mut flipped = false;
        let mut row: u8 = 0;
        while row < rows
            invariant
                s0.wf(),
                x < 16,
                y < 16,
                rows < 16,
                rows == 0 || s0.i + rows <= RAM_SIZE,
                row <= rows,
                x_coord == s0.v[x as int],
                y_coord == s0.v[y as int],
                self@ == (EmuState { screen: self@.screen, ..s0 }),
                self@.screen.len() == SCREEN_SIZE,
                forall|p: int|
                    0 <= p < SCREEN_SIZE ==> #[trigger] self@.screen[p] == (s0.screen[p]
                        != drawn_so_far(s0, x as int, y as int, rows as int, row as int, 0, p)),
                flipped == exists|p: int|
                    0 <= p < SCREEN_SIZE && s0.screen[p] && #[trigger] drawn_so_far(
                        s0,
                        x as int,
                        y as int,
                        rows as int,
                        row as int,
                        0,
                        p,
                    ),
            decreases rows - row,
        {
            let addr = self.i_reg as usize + row as usize;
            let pixels = self.ram[addr];
            let mut col: u8 = 0;
            while col < 8
                invariant
                    s0.wf(),
                    x < 16,
                    y < 16,
                    row < rows < 16,
                    col <= 8,
                    x_coord == s0.v[x as int],
                    y_coord == s0.v[y as int],
                    pixels == s0.ram[s0.i + row],
                    self@ == (EmuState { screen: self@.screen, ..s0 }),
                    self@.screen.len() == SCREEN_SIZE,
                    forall|p: int|
                        0 <= p < SCREEN_SIZE ==> #[trigger] self@.screen[p] == (s0.screen[p]
                            != drawn_so_far(
                            s0,
                            x as int,
                            y as int,
                            rows as int,
                            row as int,
                            col as int,
                            p,
                        )),
                    flipped == exists|p: int|
                        0 <= p < SCREEN_SIZE && s0.screen[p] && #[trigger] drawn_so_far(
                            s0,
                            x as int,
                            y as int,
                            rows as int,
                            row as int,
                            col as int,
                            p,
                        ),
                decreases 8 - col,
            {
                let ghost before = self@.screen;
                let ghost old_flipped = flipped;
                proof {
                    lemma_sprite_bit(pixels, col, (7 - col) as u8);
                }
                let px = (x_coord + col as usize) % SCREEN_WIDTH;
                let py = (y_coord + row as usize) % SCREEN_HEIGHT;
                let idx = px + SCREEN_WIDTH * py;
                if pixels & (0x80u8 >> col) != 0 {
                    proof {
                        lemma_cell(x_coord as int, y_coord as int, row as int, col as int, idx as int);
                    }
                    flipped = flipped || self.screen[idx];
                    let cur = self.screen[idx];
                    self.screen.set(idx, !cur);
                    assert forall|p: int| 0 <= p < SCREEN_SIZE implies #[trigger] drawn_so_far(
                        s0,
                        x as int,
                        y as int,
                        rows as int,
                        row as int,
                        col + 1,
                        p,
                    ) == (drawn_so_far(s0, x as int, y as int, rows as int, row as int, col as int, p)
                        || p == idx) by {
                        lemma_cell(x_coord as int, y_coord as int, row as int, col as int, p);
                    }
                    assert(!drawn_so_far(s0, x as int, y as int, rows as int, row as int, col as int, idx as int));
                    proof {
                        if old_flipped {
                            let w = choose|p: int|
                                0 <= p < SCREEN_SIZE && s0.screen[p] && #[trigger] drawn_so_far(
                                    s0,
                                    x as int,
                                    y as int,
                                    rows as int,
                                    row as int,
                                    col as int,
                                    p,
                                );
                            assert(drawn_so_far(s0, x as int, y as int, rows as int, row as int, col + 1, w));
                        } else if s0.screen[idx as int] {
                            assert(drawn_so_far(s0, x as int, y as int, rows as int, row as int, col + 1, idx as int));
                        }
                    }
                } else {
                    assert forall|p: int| 0 <= p < SCREEN_SIZE implies #[trigger] drawn_so_far(
                        s0,
                        x as int,
                        y as int,
                        rows as int,
                        row as int,
                        col + 1,
                        p,
                    ) == drawn_so_far(s0, x as int, y as int, rows as int, row as int, col as int, p) by {
                        lemma_cell(x_coord as int, y_coord as int, row as int, col as int, p);
                    }
                    proof {
                        if old_flipped {
                            let w = choose|p: int|
                                0 <= p < SCREEN_SIZE && s0.screen[p] && #[trigger] drawn_so_far(
                                    s0,
                                    x as int,
                                    y as int,
                                    rows as int,
                                    row as int,
                                    col as int,
                                    p,
                                );
                            assert(drawn_so_far(s0, x as int, y as int, rows as int, row as int, col + 1, w));
                        }
                    }
                }
                col = col + 1;
            }
            assert forall|p: int| 0 <= p < SCREEN_SIZE implies #[trigger] drawn_so_far(
                s0,
                x as int,
                y as int,
                rows as int,
                row + 1,
                0,
                p,
            ) == drawn_so_far(s0, x as int, y as int, rows as int, row as int, 8, p) by {}
            proof {
                if flipped {
                    let w = choose|p: int|
                        0 <= p < SCREEN_SIZE && s0.screen[p] && #[trigger] drawn_so_far(
                            s0,
                            x as int,
                            y as int,
                            rows as int,
                            row as int,
                            8,
                            p,
                        );
                    assert(drawn_so_far(s0, x as int, y as int, rows as int, row + 1, 0, w));
                }
            }
            row = row + 1;
        }
        assert forall|p: int| 0 <= p < SCREEN_SIZE implies #[trigger] drawn_so_far(
            s0,
            x as int,
            y as int,
            rows as int,
            rows as int,
            0,
            p,
        ) == sprite_covers(s0, x as int, y as int, rows as int, p) by {}
        assert(self@.screen =~= drawn_screen(s0, x as int, y as int, rows as int));
        proof {
            if flipped {
                let w = choose|p: int|
                    0 <= p < SCREEN_SIZE && s0.screen[p] && #[trigger] drawn_so_far(
                        s0,
                        x as int,
                        y as int,
                        rows as int,
                        rows as int,
                        0,
                        p,
                    );
                assert(sprite_covers(s0, x as int, y as int, rows as int, w));
            } else {
                assert forall|p: int| 0 <= p < SCREEN_SIZE && s0.screen[p] implies !#[trigger] sprite_covers(
                    s0,
                    x as int,
                    y as int,
                    rows as int,
                    p,
                ) by {
                    assert(!drawn_so_far(s0, x as int, y as int, rows as int, rows as int, 0, p));
                }
            }
        }
        if flipped {
            self.v_reg.set(0xF, 1);
        } else {
            self.v_reg.set(0xF, 0);
        }
    }
}

} // verus!
