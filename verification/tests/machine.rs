use std::collections::HashSet;

use yac8::display::Color;
use yac8::machine::{Effect, FONT_DATA};
use yac8::system::{Chip8, Step};

fn machine() -> Chip8 {
    Chip8::new(Color::white(), Color::black(), 700, HashSet::new(), false)
}

fn run(c: &mut Chip8, ops: &[u16]) {
    for &op in ops {
        c.execute_with_random(op, 0);
    }
}

#[test]
fn start_up_state() {
    let c = machine();
    assert_eq!(c.pc(), 0x200);
    assert_eq!(c.idx_reg(), 0);
    assert_eq!(c.var_regs(), &[0u8; 16]);
    assert!(c.stack().is_empty());
    assert_eq!(c.delay_timer(), 0);
    assert_eq!(c.sound_timer(), 0);
    assert_eq!(&c.memory()[0x50..0xA0], &FONT_DATA[..]);
    assert!(c.memory()[..0x50].iter().all(|b| *b == 0));
    assert!(c.memory()[0xA0..].iter().all(|b| *b == 0));
    assert!(c.display().buff.iter().all(|p| !p));
    assert!(!c.paused());
    assert!(!c.debug());
    assert!(!c.reset_requested());
    assert_eq!(c.instructions_per_second(), 700);
}

#[test]
fn load_rom_copies_from_0x200_and_truncates() {
    let mut c = machine();
    assert_eq!(c.load_rom(&[0x12, 0x34, 0x56]), 3);
    assert_eq!(&c.memory()[0x200..0x203], &[0x12, 0x34, 0x56]);
    let big = vec![0xAB; 5000];
    assert_eq!(c.load_rom(&big), 0xE00);
    assert!(c.memory()[0x200..].iter().all(|b| *b == 0xAB));
    assert_eq!(&c.memory()[0x50..0xA0], &FONT_DATA[..]);
}

#[test]
fn fetch_reads_big_endian_and_advances() {
    let mut c = machine();
    c.load_rom(&[0xA2, 0x2A]);
    assert_eq!(c.fetch_opcode(), Some(0xA22A));
    assert_eq!(c.pc(), 0x202);
}

#[test]
fn fetch_fails_at_end_of_memory() {
    let mut c = machine();
    c.execute_with_random(0x1FFF, 0);
    assert_eq!(c.fetch_opcode(), None);
    assert_eq!(c.pc(), 0xFFF);
    c.execute_with_random(0x1FFE, 0);
    assert_eq!(c.fetch_opcode(), Some(0x0000));
    assert_eq!(c.pc(), 0x1000);
    assert_eq!(c.run_next_instruction(), Err("Reached end of file; Terminating".to_string()));
    assert_eq!(c.pc(), 0x1000);
}

#[test]
fn clear_screen_blanks_and_redraws() {
    let mut c = machine();
    run(&mut c, &[0xA050, 0xD005]);
    assert!(c.display().buff.iter().any(|p| *p));
    assert_eq!(c.execute_with_random(0x00E0, 0), Effect::Redraw);
    assert!(c.display().buff.iter().all(|p| !p));
}

#[test]
fn call_and_return() {
    let mut c = machine();
    c.load_rom(&[0x23, 0x00]);
    assert_eq!(c.run_next_instruction(), Ok(Step { op_code: 0x2300, effect: Effect::Nothing }));
    assert_eq!(c.pc(), 0x300);
    assert_eq!(c.stack(), &vec![0x202]);
    c.execute_with_random(0x00EE, 0);
    assert_eq!(c.pc(), 0x202);
    assert!(c.stack().is_empty());
}

#[test]
fn jumps() {
    let mut c = machine();
    c.execute_with_random(0x1456, 0);
    assert_eq!(c.pc(), 0x456);
    run(&mut c, &[0x6010, 0xB100]);
    assert_eq!(c.pc(), 0x110);
    run(&mut c, &[0x60FF, 0xBFFF]);
    assert_eq!(c.pc(), 0x10FE);
}

#[test]
fn skips() {
    let mut c = machine();
    run(&mut c, &[0x6105, 0x6205]);
    let pc = c.pc();
    c.execute_with_random(0x3105, 0);
    assert_eq!(c.pc(), pc + 2);
    c.execute_with_random(0x3106, 0);
    assert_eq!(c.pc(), pc + 2);
    c.execute_with_random(0x4106, 0);
    assert_eq!(c.pc(), pc + 4);
    c.execute_with_random(0x4105, 0);
    assert_eq!(c.pc(), pc + 4);
    c.execute_with_random(0x5120, 0);
    assert_eq!(c.pc(), pc + 6);
    c.execute_with_random(0x9120, 0);
    assert_eq!(c.pc(), pc + 6);
    c.execute_with_random(0x6206, 0);
    c.execute_with_random(0x9120, 0);
    assert_eq!(c.pc(), pc + 8);
    // 5XY1 is not a known opcode
    assert_eq!(c.execute_with_random(0x5111, 0), Effect::Unknown);
    assert_eq!(c.pc(), pc + 8);
}

#[test]
fn set_and_add_wraps() {
    let mut c = machine();
    run(&mut c, &[0x6AFE, 0x7A03]);
    assert_eq!(c.var_regs()[0xA], 0x01);
    assert_eq!(c.var_regs()[0xF], 0, "7XNN leaves VF alone");
}

#[test]
fn alu_logic() {
    let mut c = machine();
    run(&mut c, &[0x610C, 0x620A, 0x8121]);
    assert_eq!(c.var_regs()[1], 0x0E);
    run(&mut c, &[0x610C, 0x8122]);
    assert_eq!(c.var_regs()[1], 0x08);
    run(&mut c, &[0x610C, 0x8123]);
    assert_eq!(c.var_regs()[1], 0x06);
    run(&mut c, &[0x8120]);
    assert_eq!(c.var_regs()[1], 0x0A);
}

#[test]
fn alu_add_sets_carry() {
    let mut c = machine();
    run(&mut c, &[0x61F0, 0x6220, 0x8124]);
    assert_eq!(c.var_regs()[1], 0x10);
    assert_eq!(c.var_regs()[0xF], 1);
    run(&mut c, &[0x6110, 0x8124]);
    assert_eq!(c.var_regs()[1], 0x30);
    assert_eq!(c.var_regs()[0xF], 0);
}

#[test]
fn alu_sub_sets_no_borrow() {
    let mut c = machine();
    run(&mut c, &[0x6105, 0x6203, 0x8125]);
    assert_eq!(c.var_regs()[1], 2);
    assert_eq!(c.var_regs()[0xF], 1);
    run(&mut c, &[0x8125]);
    assert_eq!(c.var_regs()[1], 0xFF);
    assert_eq!(c.var_regs()[0xF], 0);
    run(&mut c, &[0x6105, 0x8127]);
    assert_eq!(c.var_regs()[1], 0xFE);
    assert_eq!(c.var_regs()[0xF], 0);
    run(&mut c, &[0x6101, 0x8127]);
    assert_eq!(c.var_regs()[1], 2);
    assert_eq!(c.var_regs()[0xF], 1);
}

#[test]
fn alu_shifts() {
    let mut c = machine();
    run(&mut c, &[0x6181, 0x8106]);
    assert_eq!(c.var_regs()[1], 0x40);
    assert_eq!(c.var_regs()[0xF], 1);
    run(&mut c, &[0x6181, 0x810E]);
    assert_eq!(c.var_regs()[1], 0x02);
    assert_eq!(c.var_regs()[0xF], 1);
    run(&mut c, &[0x6140, 0x810E]);
    assert_eq!(c.var_regs()[1], 0x80);
    assert_eq!(c.var_regs()[0xF], 0);
}

#[test]
fn alu_flag_wins_over_result_in_vf() {
    let mut c = machine();
    run(&mut c, &[0x6FF0, 0x6120, 0x8F14]);
    assert_eq!(c.var_regs()[0xF], 1);
    // an undefined 8XYN leaves both registers alone
    run(&mut c, &[0x6107, 0x6F03, 0x8128]);
    assert_eq!(c.var_regs()[1], 7);
    assert_eq!(c.var_regs()[0xF], 3);
}

#[test]
fn index_register() {
    let mut c = machine();
    c.execute_with_random(0xA123, 0);
    assert_eq!(c.idx_reg(), 0x123);
    run(&mut c, &[0x6310, 0xF31E]);
    assert_eq!(c.idx_reg(), 0x133);
}

#[test]
fn random_is_masked() {
    let mut c = machine();
    c.execute_with_random(0xC40F, 0xAB);
    assert_eq!(c.var_regs()[4], 0x0B);
    c.execute_opcode(0xC400);
    assert_eq!(c.var_regs()[4], 0);
}

#[test]
fn draw_font_glyph_and_collision() {
    let mut c = machine();
    // glyph "0" at (1, 2)
    run(&mut c, &[0xA050, 0x6001, 0x6102]);
    assert_eq!(c.execute_with_random(0xD015, 0), Effect::Redraw);
    let rows = [0xF0u8, 0x90, 0x90, 0x90, 0xF0];
    for (r, bits) in rows.iter().enumerate() {
        for col in 0..8 {
            let on = bits & (0x80 >> col) != 0;
            assert_eq!(c.display().buff[(2 + r) * 64 + 1 + col], on);
        }
    }
    assert_eq!(c.var_regs()[0xF], 0);
    c.execute_with_random(0xD015, 0);
    assert!(c.display().buff.iter().all(|p| !p));
    assert_eq!(c.var_regs()[0xF], 1);
}

#[test]
fn draw_clips_at_edges() {
    let mut c = machine();
    run(&mut c, &[0xA050, 0x603E, 0x611E, 0xD015]);
    let lit: Vec<usize> = (0..2048).filter(|p| c.display().buff[*p]).collect();
    // "0" rows F0, 90 clipped to columns 62..64 and rows 30..32
    assert_eq!(lit, vec![30 * 64 + 62, 30 * 64 + 63, 31 * 64 + 62]);
    // a start past the right edge draws nothing
    run(&mut c, &[0x00E0, 0x6050, 0x6100, 0xD015]);
    assert!(c.display().buff.iter().all(|p| !p));
}

#[test]
fn bcd() {
    let mut c = machine();
    run(&mut c, &[0x65FE, 0xA300, 0xF533]);
    assert_eq!(&c.memory()[0x300..0x303], &[2, 5, 4]);
    run(&mut c, &[0x6507, 0xF533]);
    assert_eq!(&c.memory()[0x300..0x303], &[0, 0, 7]);
}

#[test]
fn store_and_load_registers() {
    let mut c = machine();
    run(&mut c, &[0x6011, 0x6122, 0x6233, 0x6344, 0xA400, 0xF255]);
    assert_eq!(&c.memory()[0x400..0x404], &[0x11, 0x22, 0x33, 0]);
    run(&mut c, &[0x6000, 0x6100, 0x6200, 0x6399, 0xF265]);
    assert_eq!(&c.var_regs()[..4], &[0x11, 0x22, 0x33, 0x99]);
}

#[test]
fn unimplemented_and_unknown_opcodes() {
    let mut c = machine();
    for op in [0xE19E_u16, 0xE1A1, 0xF107, 0xF10A, 0xF115, 0xF118, 0xF129] {
        assert_eq!(c.execute_with_random(op, 0), Effect::Nothing);
    }
    for op in [0x0000_u16, 0x0123, 0x5121, 0x9121, 0xE100, 0xF1FF] {
        assert_eq!(c.execute_with_random(op, 0), Effect::Unknown);
    }
    assert_eq!(c.pc(), 0x200);
    assert_eq!(c.var_regs(), &[0u8; 16]);
}

#[test]
fn timers_tick_down_per_cycle_and_stop_at_zero() {
    let mut c = machine();
    c.load_rom(&[0x60, 0x01, 0x60, 0x02]);
    c.run_next_instruction().unwrap();
    assert_eq!(c.delay_timer(), 0);
    assert_eq!(c.sound_timer(), 0);
    assert_eq!(c.var_regs()[0], 1);
}

#[test]
fn peek_shows_the_next_opcode() {
    let mut c = machine();
    c.load_rom(&[0x61, 0x07]);
    assert_eq!(c.peek_opcode(), Some(0x6107));
    assert_eq!(c.pc(), 0x200);
    c.execute_with_random(0x1FFF, 0);
    assert_eq!(c.peek_opcode(), None);
}

#[test]
fn random_opcode_steps_with_a_system_byte() {
    let mut c = machine();
    c.load_rom(&[0xC3, 0x0F]);
    let step = c.run_next_instruction().unwrap();
    assert_eq!(step.op_code, 0xC30F);
    assert_eq!(step.effect, Effect::Nothing);
    assert!(c.var_regs()[3] <= 0x0F);
    assert_eq!(c.pc(), 0x202);
}

#[test]
fn step_reports_opcode_and_effect() {
    let mut c = machine();
    c.load_rom(&[0x00, 0xE0, 0x01, 0x23]);
    assert_eq!(c.run_next_instruction(), Ok(Step { op_code: 0x00E0, effect: Effect::Redraw }));
    assert_eq!(c.run_next_instruction(), Ok(Step { op_code: 0x0123, effect: Effect::Unknown }));
    assert_eq!(c.pc(), 0x204);
}

#[test]
fn next_step_panics_detects_failures() {
    let mut c = machine();
    c.load_rom(&[0x00, 0xEE]);
    assert!(c.next_step_panics());
    let mut c = machine();
    c.load_rom(&[0xD0, 0x05]);
    c.execute_with_random(0xAFFE, 0);
    assert!(c.next_step_panics());
    c.execute_with_random(0xAFFB, 0);
    assert!(!c.next_step_panics());
    let mut c = machine();
    c.load_rom(&[0xF1, 0x33]);
    c.execute_with_random(0xAFFE, 0);
    assert!(c.next_step_panics());
    let mut c = machine();
    c.load_rom(&[0xF3, 0x55]);
    c.execute_with_random(0xAFFD, 0);
    assert!(c.next_step_panics());
    c.execute_with_random(0xAFFC, 0);
    assert!(!c.next_step_panics());
    let mut c = machine();
    c.load_rom(&[0x60, 0x01]);
    assert!(!c.next_step_panics());
}

#[test]
fn reset_state_restores_start_up() {
    let mut c = machine();
    c.load_rom(&[0x6A, 0x05, 0x23, 0x00]);
    c.run_next_instruction().unwrap();
    c.run_next_instruction().unwrap();
    run(&mut c, &[0xA050, 0xD005]);
    c.reset_state();
    let fresh = machine();
    assert_eq!(c.pc(), fresh.pc());
    assert_eq!(c.memory()[..], fresh.memory()[..]);
    assert_eq!(c.var_regs(), fresh.var_regs());
    assert!(c.stack().is_empty());
    assert_eq!(c.idx_reg(), 0);
    assert!(c.display().buff.iter().all(|p| !p));
}

#[test]
fn instruction_delay() {
    let c = machine();
    assert_eq!(c.instruction_delay_msec(), 1);
    let c = Chip8::new(Color::white(), Color::black(), 3, HashSet::new(), false);
    assert_eq!(c.instruction_delay_msec(), 333);
}
