use chip8_core::machine::FONTSET;
use chip8_core::{decode, Emu, Fault, Instruction, SCREEN_HEIGHT, SCREEN_WIDTH};

fn machine_with(program: &[u8]) -> Emu {
    let mut emu = Emu::new();
    emu.load(program);
    emu
}

fn run_ticks(emu: &mut Emu, n: usize) {
    for _ in 0..n {
        assert!(emu.fault().is_none());
        emu.tick();
    }
}

#[test]
fn power_on_state() {
    let emu = Emu::new();
    assert_eq!(emu.pc(), 0x200);
    assert_eq!(emu.index(), 0);
    assert_eq!(emu.stack_depth(), 0);
    assert_eq!(emu.delay(), 0);
    assert_eq!(emu.sound(), 0);
    for a in 0..80 {
        assert_eq!(emu.memory(a), FONTSET[a]);
    }
    for a in 80..4096 {
        assert_eq!(emu.memory(a), 0);
    }
    for x in 0..16 {
        assert_eq!(emu.register(x), 0);
        assert!(!emu.key_down(x));
    }
    let display = emu.get_display();
    assert_eq!(display.len(), SCREEN_WIDTH * SCREEN_HEIGHT);
    assert!(display.iter().all(|p| !*p));
}

#[test]
fn reset_restores_power_on() {
    let mut emu = machine_with(&[0x60, 0x07, 0xA1, 0x23, 0x00, 0xE0]);
    emu.set_key(3, true);
    run_ticks(&mut emu, 2);
    emu.execute(0xF018, 0);
    emu.reset();
    let fresh = Emu::new();
    assert_eq!(emu.pc(), fresh.pc());
    assert_eq!(emu.index(), 0);
    assert_eq!(emu.register(0), 0);
    assert_eq!(emu.sound(), 0);
    assert!(!emu.key_down(3));
    for a in 0..4096 {
        assert_eq!(emu.memory(a), fresh.memory(a));
    }
}

#[test]
fn load_copies_program_at_0x200() {
    let emu = machine_with(&[1, 2, 3]);
    assert_eq!(emu.memory(0x1FF), 0);
    assert_eq!(emu.memory(0x200), 1);
    assert_eq!(emu.memory(0x201), 2);
    assert_eq!(emu.memory(0x202), 3);
    assert_eq!(emu.memory(0x203), 0);
}

#[test]
fn load_fills_all_of_memory() {
    let program = vec![0xAB; 4096 - 0x200];
    let emu = machine_with(&program);
    assert_eq!(emu.memory(0x200), 0xAB);
    assert_eq!(emu.memory(4095), 0xAB);
    assert_eq!(emu.memory(0x4F), FONTSET[0x4F]);
}

#[test]
fn set_key_changes_one_key() {
    let mut emu = Emu::new();
    emu.set_key(7, true);
    assert!(emu.key_down(7));
    assert!(!emu.key_down(6));
    emu.set_key(7, false);
    assert!(!emu.key_down(7));
}

#[test]
fn timers_count_down_and_beep() {
    let mut emu = Emu::new();
    emu.execute(0x6302, 0); // V3 = 2
    emu.execute(0xF315, 0); // delay = V3
    emu.execute(0xF318, 0); // sound = V3
    assert_eq!(emu.delay(), 2);
    assert!(emu.timer_ticks());
    assert_eq!(emu.delay(), 1);
    assert_eq!(emu.sound(), 1);
    assert!(emu.timer_ticks());
    assert!(!emu.timer_ticks());
    assert_eq!(emu.delay(), 0);
    assert_eq!(emu.sound(), 0);
    emu.execute(0xF307, 0); // V3 = delay
    assert_eq!(emu.register(3), 0);
}

#[test]
fn fetch_execute_cycle() {
    let mut emu = machine_with(&[0x60, 0x2A, 0x71, 0x05]);
    run_ticks(&mut emu, 2);
    assert_eq!(emu.register(0), 0x2A);
    assert_eq!(emu.register(1), 5);
    assert_eq!(emu.pc(), 0x204);
}

#[test]
fn nop_and_clear_screen() {
    let mut emu = Emu::new();
    emu.execute(0x0000, 0);
    assert_eq!(emu.pc(), 0x200);
    emu.execute(0xD005, 0);
    assert!(emu.get_display()[0]);
    emu.execute(0x00E0, 0);
    assert!(emu.get_display().iter().all(|p| !*p));
}

#[test]
fn call_and_return() {
    let mut emu = Emu::new();
    emu.execute(0x2345, 0);
    assert_eq!(emu.pc(), 0x345);
    assert_eq!(emu.stack_depth(), 1);
    emu.execute(0x2456, 0);
    assert_eq!(emu.stack_depth(), 2);
    emu.execute(0x00EE, 0);
    assert_eq!(emu.pc(), 0x345);
    emu.execute(0x00EE, 0);
    assert_eq!(emu.pc(), 0x200);
    assert_eq!(emu.stack_depth(), 0);
}

#[test]
fn jumps() {
    let mut emu = Emu::new();
    emu.execute(0x1ABC, 0);
    assert_eq!(emu.pc(), 0xABC);
    emu.execute(0x60FF, 0);
    emu.execute(0xBFFF, 0);
    assert_eq!(emu.pc(), 0xFFF + 0xFF);
}

#[test]
fn skips() {
    let mut emu = Emu::new();
    emu.execute(0x6011, 0);
    emu.execute(0x6111, 0);
    emu.execute(0x3011, 0);
    assert_eq!(emu.pc(), 0x202);
    emu.execute(0x3012, 0);
    assert_eq!(emu.pc(), 0x202);
    emu.execute(0x4012, 0);
    assert_eq!(emu.pc(), 0x204);
    emu.execute(0x4011, 0);
    assert_eq!(emu.pc(), 0x204);
    emu.execute(0x5010, 0);
    assert_eq!(emu.pc(), 0x206);
    emu.execute(0x9010, 0);
    assert_eq!(emu.pc(), 0x206);
    emu.execute(0x6200, 0);
    emu.execute(0x9020, 0);
    assert_eq!(emu.pc(), 0x208);
}

#[test]
fn key_skips() {
    let mut emu = Emu::new();
    emu.execute(0x6505, 0); // V5 = 5
    emu.execute(0xE59E, 0);
    assert_eq!(emu.pc(), 0x200);
    emu.execute(0xE5A1, 0);
    assert_eq!(emu.pc(), 0x202);
    emu.set_key(5, true);
    emu.execute(0xE59E, 0);
    assert_eq!(emu.pc(), 0x204);
    emu.execute(0xE5A1, 0);
    assert_eq!(emu.pc(), 0x204);
}

#[test]
fn register_logic() {
    let mut emu = Emu::new();
    emu.execute(0x60F0, 0);
    emu.execute(0x613C, 0);
    emu.execute(0x8200, 0); // V2 = V0 (V2 = F0)
    assert_eq!(emu.register(2), 0xF0);
    emu.execute(0x8211, 0); // V2 |= V1
    assert_eq!(emu.register(2), 0xFC);
    emu.execute(0x8212, 0); // V2 &= V1
    assert_eq!(emu.register(2), 0x3C);
    emu.execute(0x8203, 0); // V2 ^= V0
    assert_eq!(emu.register(2), 0xCC);
    emu.execute(0x72FF, 0); // V2 += FF, wrapping, VF untouched
    assert_eq!(emu.register(2), 0xCB);
    assert_eq!(emu.register(0xF), 0);
}

#[test]
fn add_with_carry() {
    let mut emu = Emu::new();
    emu.execute(0x60FF, 0);
    emu.execute(0x6102, 0);
    emu.execute(0x8014, 0);
    assert_eq!(emu.register(0), 1);
    assert_eq!(emu.register(0xF), 1);
    emu.execute(0x8014, 0);
    assert_eq!(emu.register(0), 3);
    assert_eq!(emu.register(0xF), 0);
}

#[test]
fn sub_with_borrow() {
    let mut emu = Emu::new();
    emu.execute(0x6001, 0);
    emu.execute(0x6102, 0);
    emu.execute(0x8015, 0); // V0 = 1 - 2
    assert_eq!(emu.register(0), 0xFF);
    assert_eq!(emu.register(0xF), 0);
    emu.execute(0x8015, 0); // V0 = FF - 2
    assert_eq!(emu.register(0), 0xFD);
    assert_eq!(emu.register(0xF), 1);
    emu.execute(0x6305, 0);
    emu.execute(0x6403, 0);
    emu.execute(0x8347, 0); // V3 = V4 - V3 = 3 - 5
    assert_eq!(emu.register(3), 0xFE);
    assert_eq!(emu.register(0xF), 0);
    emu.execute(0x6303, 0);
    emu.execute(0x6405, 0);
    emu.execute(0x8347, 0); // V3 = 5 - 3
    assert_eq!(emu.register(3), 2);
    assert_eq!(emu.register(0xF), 1);
}

#[test]
fn shifts() {
    let mut emu = Emu::new();
    emu.execute(0x6081, 0);
    emu.execute(0x8016, 0);
    assert_eq!(emu.register(0), 0x40);
    assert_eq!(emu.register(0xF), 1);
    emu.execute(0x8016, 0);
    assert_eq!(emu.register(0), 0x20);
    assert_eq!(emu.register(0xF), 0);
    emu.execute(0x6181, 0);
    emu.execute(0x810E, 0);
    assert_eq!(emu.register(1), 0x02);
    assert_eq!(emu.register(0xF), 1);
    emu.execute(0x810E, 0);
    assert_eq!(emu.register(1), 0x04);
    assert_eq!(emu.register(0xF), 0);
}

#[test]
fn flag_register_as_operand() {
    let mut emu = Emu::new();
    emu.execute(0x6FFF, 0);
    emu.execute(0x6101, 0);
    emu.execute(0x8F14, 0); // VF = FF + 1, then VF = carry
    assert_eq!(emu.register(0xF), 1);
}

#[test]
fn random_is_masked() {
    let mut emu = Emu::new();
    emu.execute(0xC30F, 0xAB);
    assert_eq!(emu.register(3), 0x0B);
    emu.execute(0xC300, 0xFF);
    assert_eq!(emu.register(3), 0);
    let mut emu = machine_with(&[0xC4, 0x0F]);
    run_ticks(&mut emu, 1);
    assert_eq!(emu.register(4) & 0xF0, 0);
}

#[test]
fn index_and_font() {
    let mut emu = Emu::new();
    emu.execute(0xA123, 0);
    assert_eq!(emu.index(), 0x123);
    emu.execute(0x6010, 0);
    emu.execute(0xF01E, 0);
    assert_eq!(emu.index(), 0x133);
    emu.execute(0x600A, 0);
    emu.execute(0xF029, 0);
    assert_eq!(emu.index(), 50);
    assert_eq!(emu.memory(50), 0xF0);
}

#[test]
fn bcd() {
    let mut emu = Emu::new();
    emu.execute(0x65FE, 0); // V5 = 254
    emu.execute(0xA300, 0);
    emu.execute(0xF533, 0);
    assert_eq!(emu.memory(0x300), 2);
    assert_eq!(emu.memory(0x301), 5);
    assert_eq!(emu.memory(0x302), 4);
}

#[test]
fn store_and_load_registers() {
    let mut emu = Emu::new();
    for x in 0..16u16 {
        emu.execute(0x6000 | (x << 8) | (x * 3), 0);
    }
    emu.execute(0xA400, 0);
    emu.execute(0xF355, 0);
    for x in 0..4usize {
        assert_eq!(emu.memory(0x400 + x), (x * 3) as u8);
    }
    assert_eq!(emu.memory(0x404), 0);
    for x in 0..16u16 {
        emu.execute(0x6000 | (x << 8), 0);
    }
    emu.execute(0xF365, 0);
    for x in 0..4usize {
        assert_eq!(emu.register(x), (x * 3) as u8);
    }
    assert_eq!(emu.register(4), 0);
    assert_eq!(emu.index(), 0x400);
}

#[test]
fn draw_glyph_and_collision() {
    let mut emu = Emu::new();
    // I = 0: the glyph "0" (F0 90 90 90 F0), drawn at (0, 0).
    emu.execute(0xD015, 0);
    let display = emu.get_display().to_vec();
    for x in 0..8 {
        assert_eq!(display[x], x < 4);
        assert_eq!(display[64 + x], x == 0 || x == 3);
        assert_eq!(display[4 * 64 + x], x < 4);
    }
    assert!(!display[5 * 64]);
    assert_eq!(emu.register(0xF), 0);
    assert_eq!(display.iter().filter(|p| **p).count(), 14);
    // Drawing it again erases it and reports the collision.
    emu.execute(0xD015, 0);
    assert_eq!(emu.register(0xF), 1);
    assert!(emu.get_display().iter().all(|p| !*p));
}

#[test]
fn draw_wraps_around_edges() {
    let mut emu = Emu::new();
    emu.execute(0x603E, 0); // V0 = 62
    emu.execute(0x611F, 0); // V1 = 31
    emu.execute(0xD012, 0); // rows F0 and 90 of the glyph "0" at (62, 31)
    let display = emu.get_display();
    assert!(display[31 * 64 + 62]);
    assert!(display[31 * 64 + 63]);
    assert!(display[31 * 64]);
    assert!(display[31 * 64 + 1]);
    assert!(!display[31 * 64 + 2]);
    assert!(display[62]);
    assert!(!display[63]);
    assert!(!display[0]);
    assert!(display[1]);
    assert_eq!(display.iter().filter(|p| **p).count(), 6);
}

#[test]
fn draw_zero_rows_changes_nothing() {
    let mut emu = Emu::new();
    emu.execute(0x6F01, 0);
    emu.execute(0xD010, 0);
    assert_eq!(emu.register(0xF), 0);
    assert!(emu.get_display().iter().all(|p| !*p));
}

#[test]
fn wait_for_key() {
    let mut emu = machine_with(&[0xF2, 0x0A]);
    run_ticks(&mut emu, 3);
    assert_eq!(emu.pc(), 0x200);
    emu.set_key(9, true);
    emu.set_key(0xC, true);
    run_ticks(&mut emu, 1);
    assert_eq!(emu.register(2), 9);
    assert_eq!(emu.pc(), 0x202);
}

#[test]
fn faults_are_reported() {
    let mut emu = machine_with(&[0x01, 0x23]);
    assert_eq!(emu.fault(), Some(Fault::UnknownOpcode { pc: 0x200, opcode: 0x0123 }));
    let mut other = machine_with(&[0x00, 0xEE]);
    assert_eq!(other.fault(), Some(Fault::BadOperands { pc: 0x200, opcode: 0x00EE }));
    emu.execute(0x1FFF, 0);
    assert_eq!(emu.fault(), Some(Fault::PcOutOfRange { pc: 0xFFF }));
    other.execute(0x1FFE, 0);
    assert_eq!(other.fault(), None);
    let mut key = machine_with(&[0x6A, 0x10, 0xEA, 0x9E]);
    run_ticks(&mut key, 1);
    assert_eq!(key.fault(), Some(Fault::BadOperands { pc: 0x202, opcode: 0xEA9E }));
    let mut bcd = machine_with(&[0xAF, 0xFE, 0xF0, 0x33]);
    run_ticks(&mut bcd, 1);
    assert_eq!(bcd.fault(), Some(Fault::BadOperands { pc: 0x202, opcode: 0xF033 }));
}

#[test]
fn stack_overflow_is_a_fault() {
    let mut emu = machine_with(&[0x22, 0x00]);
    run_ticks(&mut emu, 16);
    assert_eq!(emu.stack_depth(), 16);
    assert_eq!(emu.fault(), Some(Fault::BadOperands { pc: 0x200, opcode: 0x2200 }));
}

#[test]
fn frame_runs_cycles_then_timers() {
    // V0 += 1, then jump back.
    let mut emu = machine_with(&[0x70, 0x01, 0x12, 0x00]);
    emu.execute(0x6105, 0);
    emu.execute(0xF118, 0);
    assert_eq!(emu.run_frame(10), Ok(true));
    assert_eq!(emu.register(0), 5);
    assert_eq!(emu.sound(), 4);
    emu.execute(0x6100, 0);
    emu.execute(0xF118, 0);
    assert_eq!(emu.run_frame(0), Ok(false));
}

#[test]
fn frame_stops_at_fault() {
    let mut emu = machine_with(&[0x60, 0x07, 0x00, 0xEE]);
    emu.execute(0x6103, 0);
    emu.execute(0xF115, 0);
    assert_eq!(emu.run_frame(5), Err(Fault::BadOperands { pc: 0x202, opcode: 0x00EE }));
    assert_eq!(emu.register(0), 7);
    assert_eq!(emu.pc(), 0x202);
    assert_eq!(emu.delay(), 3);
}

#[test]
fn decoding() {
    assert_eq!(decode(0x0000), Some(Instruction::Nop));
    assert_eq!(decode(0x00E0), Some(Instruction::ClearScreen));
    assert_eq!(decode(0x00EE), Some(Instruction::Return));
    assert_eq!(decode(0x0123), None);
    assert_eq!(decode(0x1234), Some(Instruction::Jump { addr: 0x234 }));
    assert_eq!(decode(0x5121), None);
    assert_eq!(decode(0x8AB6), Some(Instruction::ShiftRight { x: 10 }));
    assert_eq!(decode(0x8AB8), None);
    assert_eq!(decode(0xD12F), Some(Instruction::Draw { x: 1, y: 2, rows: 15 }));
    assert_eq!(decode(0xE19F), None);
    assert_eq!(decode(0xF765), Some(Instruction::LoadRegs { x: 7 }));
    assert_eq!(decode(0xF766), None);
    assert_eq!(decode(0xC7AB), Some(Instruction::Random { x: 7, byte: 0xAB }));
}

#[test]
fn random_byte_only_reaches_cxnn() {
    let mut a = Emu::new();
    let mut b = Emu::new();
    for op in [0x6A05u16, 0x7A03, 0x8AA4, 0xA222, 0xFA1E, 0x2300] {
        a.execute(op, 0x00);
        b.execute(op, 0xFF);
    }
    assert_eq!(a.register(0xA), b.register(0xA));
    assert_eq!(a.register(0xF), b.register(0xF));
    assert_eq!(a.index(), b.index());
    assert_eq!(a.pc(), b.pc());
    a.execute(0xCAFF, 0x12);
    b.execute(0xCAFF, 0x34);
    assert_eq!(a.register(0xA), 0x12);
    assert_eq!(b.register(0xA), 0x34);
}
