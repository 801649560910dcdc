use chip8::cpu::{decode, CPU};
use chip8::model::Instruction;

fn machine_with(program: &[u8]) -> CPU {
    let mut cpu = CPU::new();
    cpu.load_rom(program);
    cpu
}

#[test]
fn new_loads_font_and_starts_at_program() {
    let cpu = CPU::new();
    assert_eq!(cpu.pc, 0x200);
    assert_eq!(cpu.memory[0x50], 0xF0);
    assert_eq!(cpu.memory[0x55], 0x20);
    assert_eq!(cpu.memory[0x9F], 0x80);
    assert_eq!(cpu.memory[0x4F], 0);
    assert_eq!(cpu.memory[0xA0], 0);
    assert_eq!(cpu.sp, 0);
    assert!(cpu.display.iter().all(|p| !*p));
    assert!(!cpu.draw_flag);
}

#[test]
fn load_rom_copies_program_only() {
    let cpu = machine_with(&[0xAB, 0xCD, 0xEF]);
    assert_eq!(cpu.memory[0x1FF], 0);
    assert_eq!(cpu.memory[0x200], 0xAB);
    assert_eq!(cpu.memory[0x202], 0xEF);
    assert_eq!(cpu.memory[0x203], 0);
    assert_eq!(cpu.memory[0x50], 0xF0);
}

#[test]
fn decode_patterns() {
    assert_eq!(decode(0x00E0), Instruction::ClearScreen);
    assert_eq!(decode(0x00EE), Instruction::Return);
    assert_eq!(decode(0x0123), Instruction::Unknown(0x0123));
    assert_eq!(decode(0x1234), Instruction::Jump(0x234));
    assert_eq!(decode(0x2ABC), Instruction::Call(0xABC));
    assert_eq!(decode(0x3A12), Instruction::SkipIfEqual(10, 0x12));
    assert_eq!(decode(0x5120), Instruction::SkipIfRegistersEqual(1, 2));
    assert_eq!(decode(0x5121), Instruction::Unknown(0x5121));
    assert_eq!(decode(0x8AB4), Instruction::AddRegisters(10, 11));
    assert_eq!(decode(0x8ABE), Instruction::ShiftLeft(10, 11));
    assert_eq!(decode(0x8AB8), Instruction::Unknown(0x8AB8));
    assert_eq!(decode(0xB300), Instruction::JumpOffset(0x300));
    assert_eq!(decode(0xC3FF), Instruction::Random(3, 0xFF));
    assert_eq!(decode(0xD125), Instruction::Draw(1, 2, 5));
    assert_eq!(decode(0xE19E), Instruction::SkipIfKey(1));
    assert_eq!(decode(0xE2A1), Instruction::SkipIfNotKey(2));
    assert_eq!(decode(0xE2A2), Instruction::Unknown(0xE2A2));
    assert_eq!(decode(0xF00A), Instruction::WaitKey(0));
    assert_eq!(decode(0xF529), Instruction::FontChar(5));
    assert_eq!(decode(0xF165), Instruction::LoadRegisters(1));
    assert_eq!(decode(0xF166), Instruction::Unknown(0xF166));
}

#[test]
fn fetch_reads_big_endian_and_advances() {
    let mut cpu = machine_with(&[0x12, 0x34]);
    assert_eq!(cpu.fetch(), 0x1234);
    assert_eq!(cpu.pc, 0x202);
}

#[test]
fn jump_and_call_then_return() {
    // 0x200: call 0x206; 0x206: return
    let mut cpu = machine_with(&[0x22, 0x06, 0x00, 0x00, 0x00, 0x00, 0x00, 0xEE]);
    assert_eq!(cpu.cycle(), Instruction::Call(0x206));
    assert_eq!(cpu.pc, 0x206);
    assert_eq!(cpu.sp, 1);
    assert_eq!(cpu.stack[0], 0x202);
    assert_eq!(cpu.cycle(), Instruction::Return);
    assert_eq!(cpu.pc, 0x202);
    assert_eq!(cpu.sp, 0);
    let mut cpu = machine_with(&[0x1A, 0xBC]);
    cpu.cycle();
    assert_eq!(cpu.pc, 0xABC);
}

#[test]
fn skips() {
    let mut cpu = machine_with(&[0x30, 0x05]);
    cpu.v[0] = 5;
    cpu.cycle();
    assert_eq!(cpu.pc, 0x204);
    let mut cpu = machine_with(&[0x40, 0x05]);
    cpu.v[0] = 5;
    cpu.cycle();
    assert_eq!(cpu.pc, 0x202);
    let mut cpu = machine_with(&[0x51, 0x20, 0x91, 0x20]);
    cpu.v[1] = 7;
    cpu.v[2] = 7;
    cpu.cycle();
    assert_eq!(cpu.pc, 0x204);
    let mut cpu = machine_with(&[0x91, 0x20]);
    cpu.v[1] = 7;
    cpu.v[2] = 8;
    cpu.cycle();
    assert_eq!(cpu.pc, 0x204);
}

#[test]
fn register_arithmetic() {
    let mut cpu = CPU::new();
    cpu.execute(0x60FF, 0);
    cpu.execute(0x7002, 0);
    assert_eq!(cpu.v[0], 1);
    assert_eq!(cpu.v[0xF], 0);

    cpu.v[1] = 200;
    cpu.v[2] = 100;
    cpu.execute(0x8124, 0);
    assert_eq!((cpu.v[1], cpu.v[0xF]), (44, 1));
    cpu.execute(0x8124, 0);
    assert_eq!((cpu.v[1], cpu.v[0xF]), (144, 0));

    cpu.v[1] = 10;
    cpu.v[2] = 20;
    cpu.execute(0x8125, 0);
    assert_eq!((cpu.v[1], cpu.v[0xF]), (246, 0));
    cpu.v[1] = 20;
    cpu.execute(0x8125, 0);
    assert_eq!((cpu.v[1], cpu.v[0xF]), (0, 1));

    cpu.v[1] = 10;
    cpu.v[2] = 20;
    cpu.execute(0x8127, 0);
    assert_eq!((cpu.v[1], cpu.v[0xF]), (10, 1));

    cpu.v[1] = 5;
    cpu.execute(0x8126, 0);
    assert_eq!((cpu.v[1], cpu.v[0xF]), (2, 1));
    cpu.v[1] = 0x81;
    cpu.execute(0x812E, 0);
    assert_eq!((cpu.v[1], cpu.v[0xF]), (0x02, 1));

    cpu.v[3] = 0b1100;
    cpu.v[4] = 0b1010;
    cpu.execute(0x8341, 0);
    assert_eq!(cpu.v[3], 0b1110);
    cpu.v[3] = 0b1100;
    cpu.execute(0x8342, 0);
    assert_eq!(cpu.v[3], 0b1000);
    cpu.v[3] = 0b1100;
    cpu.execute(0x8343, 0);
    assert_eq!(cpu.v[3], 0b0110);
    cpu.execute(0x8340, 0);
    assert_eq!(cpu.v[3], 0b1010);
}

#[test]
fn flag_register_as_operand_is_overwritten_by_flag() {
    let mut cpu = CPU::new();
    cpu.v[0xF] = 200;
    cpu.v[1] = 100;
    cpu.execute(0x8F14, 0);
    assert_eq!(cpu.v[0xF], 1);
    cpu.v[0xF] = 3;
    cpu.execute(0x8FF6, 0);
    assert_eq!(cpu.v[0xF], 0);
}

#[test]
fn index_and_jump_offset() {
    let mut cpu = CPU::new();
    cpu.execute(0xA123, 0);
    assert_eq!(cpu.i, 0x123);
    cpu.v[2] = 0x10;
    cpu.execute(0xF21E, 0);
    assert_eq!(cpu.i, 0x133);
    cpu.v[0] = 0xFF;
    cpu.execute(0xBFFF, 0);
    assert_eq!(cpu.pc, 0xFFF + 0xFF);
    cpu.v[3] = 0xA;
    cpu.execute(0xF329, 0);
    assert_eq!(cpu.i, 0x82);
    assert_eq!(&cpu.memory[0x82..0x87], &[0xF0, 0x90, 0xF0, 0x90, 0x90]);
}

#[test]
fn draw_sets_and_clears_pixels_with_collision() {
    let mut cpu = CPU::new();
    cpu.i = 0x50; // glyph "0": F0 90 90 90 F0
    cpu.execute(0xD015, 0);
    assert!(cpu.draw_flag);
    assert_eq!(cpu.v[0xF], 0);
    assert!(cpu.display[0] && cpu.display[3] && !cpu.display[4]);
    assert!(cpu.display[64] && !cpu.display[65] && cpu.display[67]);
    assert!(cpu.display[4 * 64] && cpu.display[4 * 64 + 3]);
    assert!(!cpu.display[5 * 64]);
    cpu.execute(0xD015, 0);
    assert_eq!(cpu.v[0xF], 1);
    assert!(cpu.display.iter().all(|p| !*p));
}

#[test]
fn draw_wraps_round_the_edges() {
    let mut cpu = CPU::new();
    cpu.memory[0x300] = 0xFF;
    cpu.memory[0x301] = 0x80;
    cpu.i = 0x300;
    cpu.v[1] = 62 + 64; // x wraps modulo 64 first
    cpu.v[2] = 31;
    cpu.execute(0xD122, 0);
    let lit: Vec<usize> = (0..2048).filter(|k| cpu.display[*k]).collect();
    assert_eq!(lit, vec![62, 1984, 1985, 1986, 1987, 1988, 1989, 2046, 2047]);
    assert_eq!(cpu.v[0xF], 0);
}

#[test]
fn clear_screen() {
    let mut cpu = CPU::new();
    cpu.display[100] = true;
    cpu.execute(0x00E0, 0);
    assert!(cpu.display.iter().all(|p| !*p));
    assert!(cpu.draw_flag);
}

#[test]
fn bcd_and_register_memory_transfer() {
    let mut cpu = CPU::new();
    cpu.i = 0x300;
    cpu.v[4] = 123;
    cpu.execute(0xF433, 0);
    assert_eq!(&cpu.memory[0x300..0x303], &[1, 2, 3]);

    for k in 0..16 {
        cpu.v[k] = k as u8 * 3;
    }
    cpu.execute(0xF355, 0);
    assert_eq!(&cpu.memory[0x300..0x305], &[0, 3, 6, 9, 0]);
    for k in 0..16 {
        cpu.v[k] = 0;
    }
    cpu.execute(0xF365, 0);
    assert_eq!(&cpu.v[0..5], &[0, 3, 6, 9, 0]);
    assert_eq!(cpu.i, 0x300);
}

#[test]
fn keys_and_timers() {
    let mut cpu = machine_with(&[0xE1, 0x9E, 0x00, 0x00, 0xE1, 0xA1]);
    cpu.v[1] = 7;
    cpu.keyboard[7] = true;
    cpu.cycle();
    assert_eq!(cpu.pc, 0x204);
    cpu.cycle();
    assert_eq!(cpu.pc, 0x206);

    let mut cpu = machine_with(&[0xF3, 0x0A]);
    cpu.cycle();
    assert_eq!(cpu.pc, 0x200);
    cpu.keyboard[9] = true;
    cpu.keyboard[12] = true;
    cpu.cycle();
    assert_eq!(cpu.pc, 0x202);
    assert_eq!(cpu.v[3], 9);

    let mut cpu = CPU::new();
    cpu.v[5] = 42;
    cpu.execute(0xF515, 0);
    cpu.execute(0xF518, 0);
    assert_eq!((cpu.delay_timer, cpu.sound_timer), (42, 42));
    cpu.tick_timers();
    cpu.execute(0xF607, 0);
    assert_eq!(cpu.v[6], 41);
    cpu.delay_timer = 0;
    cpu.tick_timers();
    assert_eq!((cpu.delay_timer, cpu.sound_timer), (0, 40));
}

#[test]
fn random_is_masked() {
    let mut cpu = machine_with(&[0xC2, 0x00, 0xC3, 0x0F]);
    cpu.v[2] = 0xAA;
    assert_eq!(cpu.cycle(), Instruction::Random(2, 0x00));
    assert_eq!(cpu.v[2], 0);
    cpu.cycle();
    assert!(cpu.v[3] <= 0x0F);
    let mut cpu = CPU::new();
    cpu.execute(0xC4F0, 0x3C);
    assert_eq!(cpu.v[4], 0x30);
}

#[test]
fn unknown_opcode_changes_nothing_but_pc() {
    let mut cpu = machine_with(&[0x01, 0x23]);
    assert_eq!(cpu.cycle(), Instruction::Unknown(0x0123));
    assert_eq!(cpu.pc, 0x202);
}

#[test]
fn undefined_cycles_are_reported() {
    let mut cpu = machine_with(&[0x00, 0xEE]);
    assert!(!cpu.is_cycle_defined());
    let mut cpu = machine_with(&[0x00, 0xE0]);
    assert!(cpu.is_cycle_defined());
    cpu.pc = 4095;
    assert!(!cpu.is_cycle_defined());
    let mut cpu = machine_with(&[0xE1, 0x9E]);
    cpu.v[1] = 16;
    assert!(!cpu.is_cycle_defined());
    let mut cpu = machine_with(&[0xF1, 0x55]);
    cpu.i = 4095;
    assert!(!cpu.is_cycle_defined());
    cpu.i = 4094;
    assert!(cpu.is_cycle_defined());
}

#[test]
fn frame_runs_ten_cycles_then_ticks_timers() {
    // ten unknown opcodes (zero bytes)
    let mut cpu = CPU::new();
    cpu.delay_timer = 3;
    cpu.sound_timer = 0;
    let frame = cpu.run_frame().ok().unwrap();
    assert_eq!(frame.executed.len(), 10);
    assert!(frame.executed.iter().all(|i| *i == Instruction::Unknown(0)));
    assert!(!frame.redraw);
    assert_eq!(cpu.pc, 0x200 + 20);
    assert_eq!((cpu.delay_timer, cpu.sound_timer), (2, 0));

    let mut cpu = machine_with(&[0x00, 0xE0]);
    let frame = cpu.run_frame().ok().unwrap();
    assert!(frame.redraw);
    assert!(!cpu.draw_flag);
    assert_eq!(frame.executed[0], Instruction::ClearScreen);
}

#[test]
fn frame_stops_at_an_undefined_cycle() {
    // 0x200: 6005 (V0 = 5); 0x202: 00EE with an empty stack
    let mut cpu = machine_with(&[0x60, 0x05, 0x00, 0xEE]);
    let executed = cpu.run_frame().err().unwrap();
    assert_eq!(executed, vec![Instruction::SetRegister(0, 5)]);
}

#[test]
fn only_drawing_touches_the_screen() {
    let mut cpu = CPU::new();
    cpu.display[7] = true;
    cpu.execute(0x6005, 0);
    cpu.execute(0xA300, 0);
    cpu.execute(0x8014, 0);
    assert!(cpu.display[7]);
    assert!(!cpu.draw_flag);
    assert_eq!(cpu.memory[0x300], 0);
}

#[test]
fn stack_stays_within_sixteen_entries() {
    let mut cpu = machine_with(&[0x22, 0x00]);
    for depth in 1..=16u8 {
        assert!(cpu.is_cycle_defined());
        cpu.cycle();
        assert_eq!(cpu.sp, depth);
    }
    assert!(!cpu.is_cycle_defined());
}

#[test]
fn redrawing_a_blank_sprite_reports_no_collision() {
    let mut cpu = CPU::new();
    cpu.i = 0x300; // zero bytes
    cpu.execute(0xD013, 0);
    cpu.execute(0xD013, 0);
    assert_eq!(cpu.v[0xF], 0);
    assert!(cpu.display.iter().all(|p| !*p));
}

#[test]
fn paired_skips_complement() {
    let mut a = CPU::new();
    let mut b = CPU::new();
    a.v[3] = 9;
    b.v[3] = 9;
    a.op_3xnn(3, 9);
    b.op_4xnn(3, 9);
    assert_eq!((a.pc, b.pc), (0x202, 0x200));
    let mut a = CPU::new();
    let mut b = CPU::new();
    a.v[1] = 4;
    b.v[1] = 4;
    a.op_ex9e(1);
    b.op_exa1(1);
    assert_eq!((a.pc, b.pc), (0x200, 0x202));
}

#[test]
fn call_return_and_store_load_through_opcode_functions() {
    let mut cpu = CPU::new();
    cpu.op_2nnn(0x400);
    assert_eq!((cpu.pc, cpu.sp), (0x400, 1));
    cpu.op_00ee();
    assert_eq!((cpu.pc, cpu.sp), (0x200, 0));
    cpu.i = 0x300;
    cpu.v[0] = 1;
    cpu.v[1] = 2;
    cpu.op_fx55(1);
    cpu.v[0] = 0;
    cpu.v[1] = 0;
    cpu.op_fx65(1);
    assert_eq!((cpu.v[0], cpu.v[1]), (1, 2));
}

#[test]
fn opcode_precondition_is_testable() {
    let mut cpu = CPU::new();
    assert!(!cpu.can_execute_opcode(0x00EE));
    assert!(cpu.can_execute_opcode(0x2300));
    cpu.sp = 16;
    assert!(!cpu.can_execute_opcode(0x2300));
    cpu.i = 0xFFFF;
    cpu.v[0] = 1;
    assert!(!cpu.can_execute_opcode(0xF01E));
    assert!(cpu.can_execute_opcode(0xF029));
}
