use yac8::config::{ArgAbort, C8Config, ParseResult};
use yac8::display::Color;

fn args(list: &[&str]) -> Vec<String> {
    list.iter().map(|s| s.to_string()).collect()
}

#[test]
fn defaults() {
    let cfg = C8Config::default();
    assert_eq!(cfg.instructions_per_second, 700);
    assert_eq!(cfg.pixel_size, 10);
    assert_eq!(cfg.on_color, Color::white());
    assert_eq!(cfg.off_color, Color::black());
    assert!(!cfg.debug);
    assert!(cfg.rom_path.is_none());
    assert!(cfg.breakpoints.is_empty());
}

#[test]
fn rom_path_only() {
    let cfg = C8Config::parse_args(&args(&["yac8-emu", "pong.ch8"])).unwrap();
    assert_eq!(cfg.rom_path, Some("pong.ch8".to_string()));
    assert_eq!(cfg.instructions_per_second, 700);
    assert!(!cfg.debug);
}

#[test]
fn flags_in_any_order() {
    let cfg = C8Config::parse_args(&args(&["yac8-emu", "--debug", "--cycles", "+42", "rom"])).unwrap();
    assert!(cfg.debug);
    assert_eq!(cfg.instructions_per_second, 42);
    assert_eq!(cfg.rom_path, Some("rom".to_string()));
}

#[test]
fn breakpoints_are_instruction_numbers() {
    let cfg = C8Config::parse_args(&args(&["yac8-emu", "rom", "--break", "0", "3", "32511", "--debug"])).unwrap();
    let mut got: Vec<u16> = cfg.breakpoints.iter().copied().collect();
    got.sort();
    assert_eq!(got, vec![0x200, 0x206, 0xFFFE]);
    assert!(cfg.debug);
}

#[test]
fn later_break_replaces_earlier() {
    let cfg = C8Config::parse_args(&args(&["yac8-emu", "--break", "1", "--break", "2", "--", "x"]));
    assert_eq!(cfg.err(), Some("Invalid flag: `--`".to_string()));
    let cfg = C8Config::parse_args(&args(&["yac8-emu", "--break", "1", "--break"])).unwrap();
    assert!(cfg.breakpoints.is_empty());
    assert!(cfg.rom_path.is_none());
}

#[test]
fn missing_cycles_argument() {
    let err = C8Config::parse_args(&args(&["yac8-emu", "rom", "--cycles"])).err();
    assert_eq!(err, Some("Missing argument after `--cycles`".to_string()));
}

#[test]
fn invalid_flag() {
    let err = C8Config::parse_args(&args(&["yac8-emu", "rom", "-x"])).err();
    assert_eq!(err, Some("Invalid flag: `-x`".to_string()));
}

#[test]
fn duplicate_rom_paths() {
    let err = C8Config::parse_args(&args(&["yac8-emu", "a.ch8", "b \"x\".ch8"])).err();
    assert_eq!(err, Some("Duplicate ROM paths: `\"a.ch8\"` and `\"b \\\"x\\\".ch8\"`".to_string()));
}


fn aborted(list: &[&str]) -> Option<ArgAbort> {
    match C8Config::parse_command(&args(list)) {
        ParseResult::Aborted(a) => Some(a),
        _ => None,
    }
}

#[test]
fn command_lines_that_give_up() {
    assert_eq!(aborted(&["yac8-emu"]), Some(ArgAbort::Usage));
    assert_eq!(aborted(&[]), Some(ArgAbort::Usage));
    assert_eq!(aborted(&["yac8-emu", "rom", "--cycles", "fast"]), Some(ArgAbort::CyclesNotANumber));
    assert_eq!(aborted(&["yac8-emu", "rom", "--cycles", "-5"]), Some(ArgAbort::CyclesNotANumber));
    assert_eq!(aborted(&["yac8-emu", "rom", "--cycles", "4294967296"]), Some(ArgAbort::CyclesNotANumber));
    assert_eq!(aborted(&["yac8-emu", "--break", "1", "x"]), Some(ArgAbort::InvalidBreakpoint));
    assert_eq!(aborted(&["yac8-emu", "--break", "32512"]), Some(ArgAbort::InvalidBreakpoint));
    assert_eq!(aborted(&["yac8-emu", "--break", "1", "rom"]), Some(ArgAbort::InvalidBreakpoint));
    assert_eq!(aborted(&["yac8-emu", "rom", "--pixel-size"]), Some(ArgAbort::NotImplemented));
    assert_eq!(aborted(&["yac8-emu", "rom", "--on-color"]), Some(ArgAbort::NotImplemented));
    assert_eq!(aborted(&["yac8-emu", "rom", "--off-color"]), Some(ArgAbort::NotImplemented));
    assert_eq!(aborted(&["yac8-emu", "rom"]), None);
}

#[test]
fn cycles_accepts_the_largest_u32() {
    match C8Config::parse_command(&args(&["yac8-emu", "--cycles", "4294967295", "r"])) {
        ParseResult::Parsed(cfg) => assert_eq!(cfg.instructions_per_second, u32::MAX),
        _ => panic!("expected settings"),
    }
}

#[test]
fn duplicate_rom_paths_show_the_first_as_a_path() {
    let err = C8Config::parse_command(&args(&["yac8-emu", "it's.ch8", "b's.ch8"]));
    match err {
        ParseResult::Failed(e) => {
            assert_eq!(e, "Duplicate ROM paths: `\"it's.ch8\"` and `\"b's.ch8\"`".to_string())
        }
        _ => panic!("expected an error"),
    }
}

#[test]
fn numbers_with_plus_sign_and_bounds() {
    let cfg = C8Config::parse_args(&args(&["yac8-emu", "--cycles", "+0", "r"])).unwrap();
    assert_eq!(cfg.instructions_per_second, 0);
    let cfg = C8Config::parse_args(&args(&["yac8-emu", "--cycles", "0007", "r"])).unwrap();
    assert_eq!(cfg.instructions_per_second, 7);
    for bad in ["+", "", "1_000", " 5", "5 ", "٣", "99999999999"] {
        match C8Config::parse_command(&args(&["yac8-emu", "--cycles", bad, "r"])) {
            ParseResult::Aborted(a) => assert_eq!(a, ArgAbort::CyclesNotANumber),
            _ => panic!("{bad:?} should not parse"),
        }
    }
}
