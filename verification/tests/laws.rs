use std::collections::HashSet;

use yac8::display::Color;
use yac8::events::{HostEvent, HostKey};
use yac8::system::Chip8;

fn machine() -> Chip8 {
    Chip8::new(Color::white(), Color::black(), 700, HashSet::new(), false)
}

fn run(c: &mut Chip8, ops: &[u16]) {
    for &op in ops {
        c.execute_with_random(op, 0);
    }
}

#[test]
fn law_random_byte_ignored_outside_cxnn() {
    let mut a = machine();
    let mut b = machine();
    a.execute_with_random(0x6A12, 0x00);
    b.execute_with_random(0x6A12, 0xFF);
    assert_eq!(a.var_regs(), b.var_regs());
}

#[test]
fn law_store_then_load_gives_back_registers() {
    let mut c = machine();
    run(&mut c, &[0x6009, 0x6108, 0x6207, 0xA500, 0xF255, 0xF265]);
    assert_eq!(&c.var_regs()[..3], &[9, 8, 7]);
}

#[test]
fn law_draw_twice_restores_screen() {
    let mut c = machine();
    run(&mut c, &[0xA055, 0x6003, 0x6104, 0xD015]);
    let before: Vec<bool> = c.display().buff.to_vec();
    run(&mut c, &[0xA050, 0xD015, 0xD015]);
    assert_eq!(c.display().buff.to_vec(), before);
}

#[test]
fn law_call_then_return() {
    let mut c = machine();
    c.execute_with_random(0x1234, 0);
    run(&mut c, &[0x2ABC, 0x00EE]);
    assert_eq!(c.pc(), 0x234);
    assert!(c.stack().is_empty());
}

#[test]
fn law_bcd_digits_make_the_number() {
    for v in [0u16, 9, 10, 99, 100, 199, 255] {
        let mut c = machine();
        run(&mut c, &[0x6300 + v, 0xA700, 0xF333]);
        let m = &c.memory()[0x700..0x703];
        assert_eq!(100 * m[0] as u16 + 10 * m[1] as u16 + m[2] as u16, v);
    }
}

#[test]
fn law_add_carry_and_sub_borrow() {
    for (a, b) in [(0u16, 0u16), (200, 100), (255, 1), (17, 255)] {
        let mut c = machine();
        run(&mut c, &[0x6100 + a, 0x6200 + b, 0x8124]);
        assert_eq!(256 * c.var_regs()[15] as u16 + c.var_regs()[1] as u16, a + b);
        let mut c = machine();
        run(&mut c, &[0x6100 + a, 0x6200 + b, 0x8125]);
        let vx = c.var_regs()[1] as i32;
        assert_eq!(vx, a as i32 - b as i32 + 256 * (1 - c.var_regs()[15] as i32));
    }
}

#[test]
fn law_skips_complement() {
    for v in [0x05u16, 0x06] {
        let mut eq = machine();
        let mut ne = machine();
        run(&mut eq, &[0x6105, 0x3100 + v]);
        run(&mut ne, &[0x6105, 0x4100 + v]);
        let pcs = [eq.pc(), ne.pc()];
        assert!(pcs == [0x200, 0x202] || pcs == [0x202, 0x200]);
    }
}

#[test]
fn law_memory_only_written_by_stores() {
    let mut c = machine();
    let before = c.memory().to_vec();
    run(&mut c, &[0x6001, 0xA050, 0xD015, 0x8014, 0xF01E, 0xF065, 0x00E0, 0xC0FF]);
    assert_eq!(c.memory().to_vec(), before);
}

#[test]
fn law_breakpoint_fires_once() {
    let mut bps = HashSet::new();
    bps.insert(0x200);
    let mut c = Chip8::new(Color::white(), Color::black(), 700, bps, false);
    c.check_breakpoint();
    assert!(c.paused());
    c.handle_event(HostEvent::KeyDown { key: HostKey::Space, keypad: None });
    c.check_breakpoint();
    assert!(!c.paused());
}

#[test]
fn law_space_and_tab_twice_change_nothing() {
    let mut c = machine();
    for k in [HostKey::Space, HostKey::Tab] {
        c.handle_event(HostEvent::KeyDown { key: k, keypad: None });
        c.handle_event(HostEvent::KeyDown { key: k, keypad: None });
    }
    assert!(!c.paused());
    assert!(!c.debug());
    assert!(!c.display().debug_lines);
}

#[test]
fn law_press_then_release() {
    let mut c = machine();
    c.handle_event(HostEvent::KeyDown { key: HostKey::Other, keypad: Some(7) });
    assert!(c.keypad()[7]);
    c.handle_event(HostEvent::KeyUp { keypad: Some(7) });
    assert_eq!(c.keypad(), &[false; 16]);
}


#[test]
fn law_execute_frame_unknown_and_unimplemented_change_nothing() {
    let mut c = machine();
    run(&mut c, &[0x6A05, 0x6F02, 0xA123]);
    let regs = *c.var_regs();
    for op in [0x5AF1_u16, 0x8AF8, 0x8AFF, 0xEA9E, 0xEAA1, 0xFA07, 0xFA0A, 0xFA15, 0xFA18, 0xFA29, 0x0ABC] {
        c.execute_with_random(op, 0);
        assert_eq!(c.var_regs(), &regs);
        assert_eq!(c.idx_reg(), 0x123);
        assert_eq!(c.pc(), 0x200);
        assert!(c.stack().is_empty());
    }
}

#[test]
fn law_paused_frame_at_breakpoint_runs_nothing() {
    let mut bps = HashSet::new();
    bps.insert(0x200);
    let mut c = Chip8::new(Color::white(), Color::black(), 700, bps, false);
    c.load_rom(&[0x60, 0x01]);
    c.check_breakpoint();
    c.handle_event(HostEvent::KeyDown { key: HostKey::Tab, keypad: Some(2) });
    c.handle_event(HostEvent::KeyUp { keypad: Some(2) });
    assert!(c.advance().is_none());
    assert!(c.paused());
    assert_eq!(c.pc(), 0x200);
    assert_eq!(c.var_regs()[0], 0);
    assert!(c.breakpoints().is_empty());
}
