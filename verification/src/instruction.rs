//! The CHIP-8 instruction set and the decoder from 16-bit opcodes.
use vstd::prelude::*;

verus! {

/// One decoded CHIP-8 instruction. Register operands `x` and `y` are
/// register numbers (below 16); `addr` is a 12-bit address; `byte` is an
/// 8-bit immediate; `rows` is the 4-bit sprite height.
#[derive(Clone, Copy, Debug, PartialEq, Eq, Structural)]
pub enum Instruction {
    /// `0000`: does nothing.
    Nop,
    /// `00E0`: clears the display.
    ClearScreen,
    /// `00EE`: returns from a subroutine.
    Return,
    /// `1NNN`: jumps to `NNN`.
    Jump { addr: u16 },
    /// `2NNN`: calls the subroutine at `NNN`.
    Call { addr: u16 },
    /// `3XNN`: skips the next instruction if `VX == NN`.
    SkipIfEqual { x: usize, byte: u8 },
    /// `4XNN`: skips the next instruction if `VX != NN`.
    SkipIfNotEqual { x: usize, byte: u8 },
    /// `5XY0`: skips the next instruction if `VX == VY`.
    SkipIfRegsEqual { x: usize, y: usize },
    /// `6XNN`: `VX = NN`.
    SetByte { x: usize, byte: u8 },
    /// `7XNN`: `VX += NN`, wrapping, flag untouched.
    AddByte { x: usize, byte: u8 },
    /// `8XY0`: `VX = VY`.
    Copy { x: usize, y: usize },
    /// `8XY1`: `VX |= VY`.
    Or { x: usize, y: usize },
    /// `8XY2`: `VX &= VY`.
    And { x: usize, y: usize },
    /// `8XY3`: `VX ^= VY`.
    Xor { x: usize, y: usize },
    /// `8XY4`: `VX += VY`, `VF` = carry.
    AddRegs { x: usize, y: usize },
    /// `8XY5`: `VX -= VY`, `VF` = no borrow.
    Sub { x: usize, y: usize },
    /// `8XY6`: `VX >>= 1`, `VF` = the bit shifted out.
    ShiftRight { x: usize },
    /// `8XY7`: `VX = VY - VX`, `VF` = no borrow.
    SubReversed { x: usize, y: usize },
    /// `8XYE`: `VX <<= 1`, `VF` = the bit shifted out.
    ShiftLeft { x: usize },
    /// `9XY0`: skips the next instruction if `VX != VY`.
    SkipIfRegsNotEqual { x: usize, y: usize },
    /// `ANNN`: `I = NNN`.
    SetIndex { addr: u16 },
    /// `BNNN`: jumps to `NNN + V0`.
    JumpOffset { addr: u16 },
    /// `CXNN`: `VX = random & NN`.
    Random { x: usize, byte: u8 },
    /// `DXYN`: draws an `N`-row sprite from memory at `I` at `(VX, VY)`.
    Draw { x: usize, y: usize, rows: u8 },
    /// `EX9E`: skips the next instruction if key `VX` is down.
    SkipIfKey { x: usize },
    /// `EXA1`: skips the next instruction if key `VX` is up.
    SkipIfNotKey { x: usize },
    /// `FX07`: `VX = delay timer`.
    ReadDelay { x: usize },
    /// `FX0A`: waits for a key press and stores the key in `VX`.
    WaitKey { x: usize },
    /// `FX15`: `delay timer = VX`.
    SetDelay { x: usize },
    /// `FX18`: `sound timer = VX`.
    SetSound { x: usize },
    /// `FX1E`: `I += VX`, wrapping.
    AddIndex { x: usize },
    /// `FX29`: `I` = address of the font glyph for digit `VX`.
    FontChar { x: usize },
    /// `FX33`: stores the decimal digits of `VX` at `I`, `I+1`, `I+2`.
    StoreBcd { x: usize },
    /// `FX55`: stores `V0..=VX` at `I..`.
    StoreRegs { x: usize },
    /// `FX65`: loads `V0..=VX` from `I..`.
    LoadRegs { x: usize },
}

/// The highest nibble of an opcode.
pub open spec fn op_kind(op: u16) -> int {
    op as int / 4096
}

/// The second nibble of an opcode (usually the register `X`).
pub open spec fn op_x(op: u16) -> int {
    (op as int / 256) % 16
}

/// The third nibble of an opcode (usually the register `Y`).
pub open spec fn op_y(op: u16) -> int {
    (op as int / 16) % 16
}

/// The lowest nibble of an opcode.
pub open spec fn op_n(op: u16) -> int {
    op as int % 16
}

/// The low twelve bits of an opcode.
pub open spec fn op_addr(op: u16) -> u16 {
    (op as int % 4096) as u16
}

/// The low byte of an opcode.
pub open spec fn op_byte(op: u16) -> u8 {
    (op as int % 256) as u8
}

/// What an opcode means, or `None` for an opcode outside the instruction set.
pub open spec fn decode_spec(op: u16) -> Option<Instruction> {
    let k = op_kind(op);
    let x = op_x(op) as usize;
    let y = op_y(op) as usize;
    let n = op_n(op);
    if k == 0 {
        if op == 0x0000 {
            Some(Instruction::Nop)
        } else if op == 0x00E0 {
            Some(Instruction::ClearScreen)
        } else if op == 0x00EE {
            Some(Instruction::Return)
        } else {
            None
        }
    } else if k == 1 {
        Some(Instruction::Jump { addr: op_addr(op) })
    } else if k == 2 {
        Some(Instruction::Call { addr: op_addr(op) })
    } else if k == 3 {
        Some(Instruction::SkipIfEqual { x, byte: op_byte(op) })
    } else if k == 4 {
        Some(Instruction::SkipIfNotEqual { x, byte: op_byte(op) })
    } else if k == 5 {
        if n == 0 { Some(Instruction::SkipIfRegsEqual { x, y }) } else { None }
    } else if k == 6 {
        Some(Instruction::SetByte { x, byte: op_byte(op) })
    } else if k == 7 {
        Some(Instruction::AddByte { x, byte: op_byte(op) })
    } else if k == 8 {
        if n == 0 {
            Some(Instruction::Copy { x, y })
        } else if n == 1 {
            Some(Instruction::Or { x, y })
        } else if n == 2 {
            Some(Instruction::And { x, y })
        } else if n == 3 {
            Some(Instruction::Xor { x, y })
        } else if n == 4 {
            Some(Instruction::AddRegs { x, y })
        } else if n == 5 {
            Some(Instruction::Sub { x, y })
        } else if n == 6 {
            Some(Instruction::ShiftRight { x })
        } else if n == 7 {
            Some(Instruction::SubReversed { x, y })
        } else if n == 0xE {
            Some(Instruction::ShiftLeft { x })
        } else {
            None
        }
    } else if k == 9 {
        if n == 0 { Some(Instruction::SkipIfRegsNotEqual { x, y }) } else { None }
    } else if k == 0xA {
        Some(Instruction::SetIndex { addr: op_addr(op) })
    } else if k == 0xB {
        Some(Instruction::JumpOffset { addr: op_addr(op) })
    } else if k == 0xC {
        Some(Instruction::Random { x, byte: op_byte(op) })
    } else if k == 0xD {
        Some(Instruction::Draw { x, y, rows: n as u8 })
    } else if k == 0xE {
        if op_byte(op) == 0x9E {
            Some(Instruction::SkipIfKey { x })
        } else if op_byte(op) == 0xA1 {
            Some(Instruction::SkipIfNotKey { x })
        } else {
            None
        }
    } else {
        let b = op_byte(op);
        if b == 0x07 {
            Some(Instruction::ReadDelay { x })
        } else if b == 0x0A {
            Some(Instruction::WaitKey { x })
        } else if b == 0x15 {
            Some(Instruction::SetDelay { x })
        } else if b == 0x18 {
            Some(Instruction::SetSound { x })
        } else if b == 0x1E {
            Some(Instruction::AddIndex { x })
        } else if b == 0x29 {
            Some(Instruction::FontChar { x })
        } else if b == 0x33 {
            Some(Instruction::StoreBcd { x })
        } else if b == 0x55 {
            Some(Instruction::StoreRegs { x })
        } else if b == 0x65 {
            Some(Instruction::LoadRegs { x })
        } else {
            None
        }
    }
}

/// Operands in range: registers below 16, addresses below 4096, sprite
/// heights below 16.
pub open spec fn operands_in_range(ins: Instruction) -> bool {
    match ins {
        Instruction::Jump { addr } | Instruction::Call { addr } | Instruction::SetIndex { addr }
        | Instruction::JumpOffset { addr } => addr < 4096,
        Instruction::SkipIfEqual { x, .. } | Instruction::SkipIfNotEqual { x, .. }
        | Instruction::SetByte { x, .. } | Instruction::AddByte { x, .. }
        | Instruction::Random { x, .. } | Instruction::ShiftRight { x }
        | Instruction::ShiftLeft { x } | Instruction::SkipIfKey { x }
        | Instruction::SkipIfNotKey { x } | Instruction::ReadDelay { x }
        | Instruction::WaitKey { x } | Instruction::SetDelay { x } | Instruction::SetSound { x }
        | Instruction::AddIndex { x } | Instruction::FontChar { x } | Instruction::StoreBcd { x }
        | Instruction::StoreRegs { x } | Instruction::LoadRegs { x } => x < 16,
        Instruction::SkipIfRegsEqual { x, y } | Instruction::Copy { x, y }
        | Instruction::Or { x, y } | Instruction::And { x, y } | Instruction::Xor { x, y }
        | Instruction::AddRegs { x, y } | Instruction::Sub { x, y }
        | Instruction::SubReversed { x, y } | Instruction::SkipIfRegsNotEqual { x, y } => x < 16
            && y < 16,
        Instruction::Draw { x, y, rows } => x < 16 && y < 16 && rows < 16,
        Instruction::Nop | Instruction::ClearScreen | Instruction::Return => true,
    }
}

/// Every decoded instruction has its operands in range.
pub proof fn lemma_decode_in_range(op: u16)
    ensures
        decode_spec(op) matches Some(ins) ==> operands_in_range(ins),
{
}

/// The opcode that writes `ins`, as an assembler would: kind nibble, then
/// the operands at their fixed places (`X` at bits 8..12, `Y` at 4..8, `N`
/// and the low byte at the bottom, an address in the low twelve bits).
pub open spec fn encode(ins: Instruction) -> int {
    match ins {
        Instruction::Nop => 0x0000,
        Instruction::ClearScreen => 0x00E0,
        Instruction::Return => 0x00EE,
        Instruction::Jump { addr } => 0x1000 + addr,
        Instruction::Call { addr } => 0x2000 + addr,
        Instruction::SkipIfEqual { x, byte } => 0x3000 + 256 * x + byte,
        Instruction::SkipIfNotEqual { x, byte } => 0x4000 + 256 * x + byte,
        Instruction::SkipIfRegsEqual { x, y } => 0x5000 + 256 * x + 16 * y,
        Instruction::SetByte { x, byte } => 0x6000 + 256 * x + byte,
        Instruction::AddByte { x, byte } => 0x7000 + 256 * x + byte,
        Instruction::Copy { x, y } => 0x8000 + 256 * x + 16 * y,
        Instruction::Or { x, y } => 0x8001 + 256 * x + 16 * y,
        Instruction::And { x, y } => 0x8002 + 256 * x + 16 * y,
        Instruction::Xor { x, y } => 0x8003 + 256 * x + 16 * y,
        Instruction::AddRegs { x, y } => 0x8004 + 256 * x + 16 * y,
        Instruction::Sub { x, y } => 0x8005 + 256 * x + 16 * y,
        Instruction::ShiftRight { x } => 0x8006 + 256 * x,
        Instruction::SubReversed { x, y } => 0x8007 + 256 * x + 16 * y,
        Instruction::ShiftLeft { x } => 0x800E + 256 * x,
        Instruction::SkipIfRegsNotEqual { x, y } => 0x9000 + 256 * x + 16 * y,
        Instruction::SetIndex { addr } => 0xA000 + addr,
        Instruction::JumpOffset { addr } => 0xB000 + addr,
        Instruction::Random { x, byte } => 0xC000 + 256 * x + byte,
        Instruction::Draw { x, y, rows } => 0xD000 + 256 * x + 16 * y + rows,
        Instruction::SkipIfKey { x } => 0xE09E + 256 * x,
        Instruction::SkipIfNotKey { x } => 0xE0A1 + 256 * x,
        Instruction::ReadDelay { x } => 0xF007 + 256 * x,
        Instruction::WaitKey { x } => 0xF00A + 256 * x,
        Instruction::SetDelay { x } => 0xF015 + 256 * x,
        Instruction::SetSound { x } => 0xF018 + 256 * x,
        Instruction::AddIndex { x } => 0xF01E + 256 * x,
        Instruction::FontChar { x } => 0xF029 + 256 * x,
        Instruction::StoreBcd { x } => 0xF033 + 256 * x,
        Instruction::StoreRegs { x } => 0xF055 + 256 * x,
        Instruction::LoadRegs { x } => 0xF065 + 256 * x,
    }
}

/// The nibbles of an opcode put back together give the opcode.
pub proof fn lemma_nibble_sum(op: u16)
    ensures
        op == 4096 * op_kind(op) + 256 * op_x(op) + 16 * op_y(op) + op_n(op),
        op_addr(op) == 256 * op_x(op) + 16 * op_y(op) + op_n(op),
        op_byte(op) == 16 * op_y(op) + op_n(op),
        0 <= op_kind(op) < 16,
        0 <= op_x(op) < 16,
        0 <= op_y(op) < 16,
        0 <= op_n(op) < 16,
{
    assert(op == 4096 * (op / 4096) + 256 * ((op / 256) % 16) + 16 * ((op / 16) % 16) + op % 16)
        by (bit_vector);
    assert(op % 4096 == 256 * ((op / 256) % 16) + 16 * ((op / 16) % 16) + op % 16) by (bit_vector);
    assert(op % 256 == 16 * ((op / 16) % 16) + op % 16) by (bit_vector);
    assert(op / 4096 < 16) by (bit_vector);
}

/// The nibbles of an opcode assembled from a kind, a register and a low byte.
pub proof fn lemma_assemble(k: u16, a: u16, lo: u16)
    requires
        k < 16,
        a < 16,
        lo < 256,
    ensures
        ({
            let op = (4096 * k + 256 * a + lo) as u16;
            &&& op as int == 4096 * k + 256 * a + lo
            &&& op_kind(op) == k
            &&& op_x(op) == a
            &&& op_y(op) == lo / 16
            &&& op_n(op) == lo % 16
            &&& op_byte(op) == lo
            &&& op_addr(op) == 256 * a + lo
        }),
{
    let op = (4096 * k + 256 * a + lo) as u16;
    assert(4096 * k + 256 * a + lo < 0x10000);
    assert(op / 4096 == k && (op / 256) % 16 == a && (op / 16) % 16 == lo / 16 && op % 16 == lo
        % 16 && op % 256 == lo && op % 4096 == 256 * a + lo) by (bit_vector)
        requires
            k < 16,
            a < 16,
            lo < 256,
            op == 4096 * k + 256 * a + lo,
    ;
}

proof fn lemma_nibbles(op: u16)
    ensures
        (op >> 12u16) & 0x0F == op / 4096,
        (op >> 8u16) & 0x0F == (op / 256) % 16,
        (op >> 4u16) & 0x0F == (op / 16) % 16,
        op & 0x0F == op % 16,
        op & 0xFFF == op % 4096,
        op & 0xFF == op % 256,
{
    assert((op >> 12u16) & 0x0F == op / 4096) by (bit_vector);
    assert((op >> 8u16) & 0x0F == (op / 256) % 16) by (bit_vector);
    assert((op >> 4u16) & 0x0F == (op / 16) % 16) by (bit_vector);
    assert(op & 0x0F == op % 16) by (bit_vector);
    assert(op & 0xFFF == op % 4096) by (bit_vector);
    assert(op & 0xFF == op % 256) by (bit_vector);
}

/// Decodes a 16-bit opcode; `None` for an opcode outside the instruction set.
pub fn decode(opcode: u16) -> (r: Option<Instruction>)
    ensures
        r == decode_spec(opcode),
        r matches Some(ins) ==> operands_in_range(ins),
{
    proof {
        lemma_nibbles(opcode);
    }
    let kind = (opcode >> 12) & 0x0F;
    let x = ((opcode >> 8) & 0x0F) as usize;
    let y = ((opcode >> 4) & 0x0F) as usize;
    let n = opcode & 0x0F;
    let addr = opcode & 0xFFF;
    let byte = (opcode & 0xFF) as u8;
    if kind == 0 {
        if opcode == 0x0000 {
            Some(Instruction::Nop)
        } else if opcode == 0x00E0 {
            Some(Instruction::ClearScreen)
        } else if opcode == 0x00EE {
            Some(Instruction::Return)
        } else {
            None
        }
    } else if kind == 1 {
        Some(Instruction::Jump { addr })
    } else if kind == 2 {
        Some(Instruction::Call { addr })
    } else if kind == 3 {
        Some(Instruction::SkipIfEqual { x, byte })
    } else if kind == 4 {
        Some(Instruction::SkipIfNotEqual { x, byte })
    } else if kind == 5 {
        if n == 0 { Some(Instruction::SkipIfRegsEqual { x, y }) } else { None }
    } else if kind == 6 {
        Some(Instruction::SetByte { x, byte })
    } else if kind == 7 {
        Some(Instruction::AddByte { x, byte })
    } else if kind == 8 {
        if n == 0 {
            Some(Instruction::Copy { x, y })
        } else if n == 1 {
            Some(Instruction::Or { x, y })
        } else if n == 2 {
            Some(Instruction::And { x, y })
        } else if n == 3 {
            Some(Instruction::Xor { x, y })
        } else if n == 4 {
            Some(Instruction::AddRegs { x, y })
        } else if n == 5 {
            Some(Instruction::Sub { x, y })
        } else if n == 6 {
            Some(Instruction::ShiftRight { x })
        } else if n == 7 {
            Some(Instruction::SubReversed { x, y })
        } else if n == 0xE {
            Some(Instruction::ShiftLeft { x })
        } else {
            None
        }
    } else if kind == 9 {
        if n == 0 { Some(Instruction::SkipIfRegsNotEqual { x, y }) } else { None }
    } else if kind == 0xA {
        Some(Instruction::SetIndex { addr })
    } else if kind == 0xB {
        Some(Instruction::JumpOffset { addr })
    } else if kind == 0xC {
        Some(Instruction::Random { x, byte })
    } else if kind == 0xD {
        Some(Instruction::Draw { x, y, rows: n as u8 })
    } else if kind == 0xE {
        if byte == 0x9E {
            Some(Instruction::SkipIfKey { x })
        } else if byte == 0xA1 {
            Some(Instruction::SkipIfNotKey { x })
        } else {
            None
        }
    } else {
        if byte == 0x07 {
            Some(Instruction::ReadDelay { x })
        } else if byte == 0x0A {
            Some(Instruction::WaitKey { x })
        } else if byte == 0x15 {
            Some(Instruction::SetDelay { x })
        } else if byte == 0x18 {
            Some(Instruction::SetSound { x })
        } else if byte == 0x1E {
            Some(Instruction::AddIndex { x })
        } else if byte == 0x29 {
            Some(Instruction::FontChar { x })
        } else if byte == 0x33 {
            Some(Instruction::StoreBcd { x })
        } else if byte == 0x55 {
            Some(Instruction::StoreRegs { x })
        } else if byte == 0x65 {
            Some(Instruction::LoadRegs { x })
        } else {
            None
        }
    }
}

} // verus!
