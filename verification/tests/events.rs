use std::collections::HashSet;

use yac8::config::C8Config;
use yac8::display::Color;
use yac8::machine::Effect;
use yac8::events::{HostEvent, HostKey};
use yac8::system::{Chip8, Step};

fn machine() -> Chip8 {
    Chip8::new(Color::white(), Color::black(), 700, HashSet::new(), false)
}

fn key(k: HostKey) -> HostEvent {
    HostEvent::KeyDown { key: k, keypad: None }
}

#[test]
fn quit_and_escape_end_the_loop() {
    let mut c = machine();
    assert!(c.handle_event(HostEvent::Quit).quit);
    let r = c.handle_event(HostEvent::KeyDown { key: HostKey::Escape, keypad: Some(3) });
    assert!(r.quit);
    assert!(!r.keypad_changed);
    assert!(!c.keypad()[3]);
    let r = c.handle_event(HostEvent::Other);
    assert!(!r.quit && !r.keypad_changed && r.step.is_none() && !r.repaint);
}

#[test]
fn keypad_press_and_release() {
    let mut c = machine();
    let r = c.handle_event(HostEvent::KeyDown { key: HostKey::Other, keypad: Some(0xA) });
    assert!(r.keypad_changed);
    assert!(c.keypad()[0xA]);
    let r = c.handle_event(HostEvent::KeyUp { keypad: Some(0xA) });
    assert!(r.keypad_changed);
    assert!(!c.keypad()[0xA]);
    let r = c.handle_event(HostEvent::KeyUp { keypad: None });
    assert!(!r.keypad_changed);
}

#[test]
fn space_pauses_and_resumes() {
    let mut c = machine();
    c.handle_event(key(HostKey::Space));
    assert!(c.paused());
    c.handle_event(key(HostKey::Space));
    assert!(!c.paused());
}

#[test]
fn n_steps_only_while_paused() {
    let mut c = machine();
    c.load_rom(&[0x61, 0x07, 0x00, 0xE0]);
    let r = c.handle_event(key(HostKey::N));
    assert!(r.step.is_none());
    assert_eq!(c.pc(), 0x200);
    c.handle_event(key(HostKey::Space));
    let r = c.handle_event(key(HostKey::N));
    assert_eq!(r.step, Some(Ok(Step { op_code: 0x6107, effect: Effect::Nothing })));
    assert!(!r.quit);
    assert_eq!(c.var_regs()[1], 7);
    let r = c.handle_event(key(HostKey::N));
    assert_eq!(r.step, Some(Ok(Step { op_code: 0x00E0, effect: Effect::Redraw })));
}

#[test]
fn n_at_end_of_memory_quits_with_error() {
    let mut c = machine();
    c.execute_with_random(0x1FFF, 0);
    c.handle_event(key(HostKey::Space));
    let r = c.handle_event(key(HostKey::N));
    assert!(r.quit);
    assert_eq!(r.step, Some(Err("Reached end of file; Terminating".to_string())));
}

#[test]
fn tab_switches_debug_and_asks_for_repaint() {
    let mut c = machine();
    let r = c.handle_event(key(HostKey::Tab));
    assert!(r.repaint);
    assert!(c.debug());
    assert!(c.display().debug_lines);
    c.handle_event(key(HostKey::Tab));
    assert!(!c.debug());
    assert!(!c.display().debug_lines);
}

#[test]
fn backspace_requests_reset_and_restart_carries_it_out() {
    let mut c = machine();
    c.load_rom(&[0x61, 0x07]);
    c.run_next_instruction().unwrap();
    c.handle_event(HostEvent::KeyDown { key: HostKey::Other, keypad: Some(1) });
    c.handle_event(key(HostKey::Backspace));
    assert!(c.reset_requested());
    assert_eq!(c.restart(&[0x62, 0x08]), 2);
    assert!(!c.reset_requested());
    assert!(c.paused());
    assert_eq!(c.pc(), 0x200);
    assert_eq!(c.var_regs()[1], 0);
    assert!(!c.keypad()[1]);
    assert_eq!(&c.memory()[0x200..0x202], &[0x62, 0x08]);
}

#[test]
fn request_reset_and_speed_setters() {
    let mut c = machine();
    c.request_reset();
    assert!(c.reset_requested());
    c.set_instructions_per_second(10);
    assert_eq!(c.instructions_per_second(), 10);
    assert_eq!(c.instruction_delay_msec(), 100);
}

#[test]
fn breakpoint_pauses_once() {
    let mut bps = HashSet::new();
    bps.insert(0x202);
    let mut c = Chip8::new(Color::white(), Color::black(), 700, bps, false);
    c.load_rom(&[0x60, 0x01, 0x60, 0x02, 0x60, 0x03]);
    c.check_breakpoint();
    assert!(!c.paused());
    assert!(c.advance().is_some());
    c.check_breakpoint();
    assert!(c.paused());
    assert!(c.breakpoints().is_empty());
    assert!(c.advance().is_none());
    assert_eq!(c.pc(), 0x202);
    c.handle_event(key(HostKey::Space));
    c.check_breakpoint();
    assert!(!c.paused());
    assert_eq!(c.advance(), Some(Ok(Step { op_code: 0x6002, effect: Effect::Nothing })));
}

#[test]
fn from_config_uses_settings() {
    let mut cfg = C8Config::new(123, 10, Color::gray(), Color::white(), true);
    cfg.breakpoints.insert(0x204);
    let c = Chip8::from_config(cfg);
    assert_eq!(c.instructions_per_second(), 123);
    assert!(c.debug());
    assert!(c.display().debug_lines);
    assert_eq!(c.display().on_color, Color::gray());
    assert_eq!(c.display().off_color, Color::white());
    assert!(c.breakpoints().contains(&0x204));
    assert_eq!(c.pc(), 0x200);
}
