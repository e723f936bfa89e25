use vstd::prelude::*;

use crate::display::blank_screen;
use crate::instructions::{decode, op_nib1, op_nib2, op_nib3, op_nib4, Instruction};
use crate::machine::{
    cpu_wf, draw, execute, execute_panics, font, initial_memory, is_known, redraws, step, tick_timer,
    CpuState,
};
use crate::events::{
    advance_outcome, breakpoint_check, event_batch, event_outcome, press, resumes_or_steps,
    HostEvent, HostKey, Reaction,
};
use crate::system::{instruction_cycle, Chip8View, Step};
use crate::config::{
    all_digits, default_config, digits_value, is_flag, parse_from, parse_unsigned, unsigned_digits,
    ConfigView, ParseOutcome,
};

verus! {

/// The random byte matters only to `CXNN`: every other opcode does the same
/// whatever byte is supplied.
pub proof fn lemma_execute_ignores_random(c: CpuState, op: u16, r1: u8, r2: u8)
    requires
        op_nib1(op) != 0xC,
    ensures
        execute(c, op, r1) == execute(c, op, r2),
{
}

/// Executing an opcode that `from_op_code` decodes does what the decoded
/// instruction says.
pub proof fn lemma_decoded_instruction_semantics(c: CpuState, op: u16, rnd: u8)
    requires
        decode(op) is Some,
    ensures
        match decode(op).unwrap() {
            Instruction::ClearScreen => execute(c, op, rnd) == CpuState { screen: blank_screen(), ..c },
            Instruction::Jump(a) => execute(c, op, rnd) == CpuState { pc: a, ..c },
            Instruction::SetRegister { reg, val } => execute(c, op, rnd) == CpuState {
                regs: c.regs.update(reg as int, val),
                ..c
            },
            Instruction::AddRegister { reg, val } => execute(c, op, rnd) == CpuState {
                regs: c.regs.update(reg as int, ((c.regs[reg as int] + val) % 256) as u8),
                ..c
            },
            Instruction::SetI(a) => execute(c, op, rnd) == CpuState { index: a, ..c },
            Instruction::Draw { x, y, sprite_size } => execute(c, op, rnd) == draw(
                c,
                x as int,
                y as int,
                sprite_size as int,
            ),
        },
{
}

/// `FX55` followed by `FX65`, with the same `X` and `I`, gives back the
/// registers it stored.
pub proof fn lemma_store_then_load(c: CpuState, x: u16, rnd: u8)
    requires
        cpu_wf(c),
        x < 16,
        c.index + x < 4096,
    ensures
        ({
            let stored = execute(c, (0xF055 + x * 0x100) as u16, rnd);
            let loaded = execute(stored, (0xF065 + x * 0x100) as u16, rnd);
            &&& loaded.regs == c.regs
            &&& loaded.memory == stored.memory
            &&& forall|j: int| 0 <= j <= x ==> #[trigger] stored.memory[c.index + j] == c.regs[j]
        }),
{
    let st = (0xF055 + x * 0x100) as u16;
    let ld = (0xF065 + x * 0x100) as u16;
    assert(op_nib1(st) == 0xF && op_nib2(st) == x && op_nib3(st) == 5 && op_nib4(st) == 5);
    assert(op_nib1(ld) == 0xF && op_nib2(ld) == x && op_nib3(ld) == 6 && op_nib4(ld) == 5);
    let stored = execute(c, st, rnd);
    let loaded = execute(stored, ld, rnd);
    assert(loaded.regs =~= c.regs);
}

/// Drawing the same sprite twice in a row leaves the screen as it was, as
/// long as the coordinates are not read from `VF`, which the first drawing
/// overwrites.
pub proof fn lemma_draw_twice_restores_screen(c: CpuState, op: u16, rnd: u8)
    requires
        cpu_wf(c),
        op_nib1(op) == 0xD,
        op_nib2(op) != 0xF,
        op_nib3(op) != 0xF,
        !execute_panics(c, op),
    ensures
        execute(execute(c, op, rnd), op, rnd).screen == c.screen,
{
    let once = execute(c, op, rnd);
    let twice = execute(once, op, rnd);
    assert(once.regs[op_nib2(op)] == c.regs[op_nib2(op)]);
    assert(once.regs[op_nib3(op)] == c.regs[op_nib3(op)]);
    assert(twice.screen =~= c.screen);
}

/// A call followed by a return comes back to the instruction after the call,
/// with the stack as it was.
pub proof fn lemma_call_then_return(c: CpuState, addr: u16, rnd: u8)
    requires
        addr < 0x1000,
    ensures
        ({
            let called = execute(c, (0x2000 + addr) as u16, rnd);
            let returned = execute(called, 0x00EE, rnd);
            &&& called.pc == addr
            &&& returned.pc == c.pc
            &&& returned.stack == c.stack
        }),
{
    let call = (0x2000 + addr) as u16;
    assert(op_nib1(call) == 2);
    assert(op_nib1(0x00EEu16) == 0 && op_nib2(0x00EEu16) == 0 && op_nib3(0x00EEu16) == 0xE
        && op_nib4(0x00EEu16) == 0xE);
    let called = execute(c, call, rnd);
    assert(called.stack.drop_last() =~= c.stack);
}

/// `FX33` writes the three decimal digits of `VX`, most significant first.
pub proof fn lemma_bcd_digits(c: CpuState, x: u16, rnd: u8)
    requires
        cpu_wf(c),
        x < 16,
        c.index + 2 < 4096,
    ensures
        ({
            let m = execute(c, (0xF033 + x * 0x100) as u16, rnd).memory;
            let i = c.index as int;
            &&& m[i] < 10 && m[i + 1] < 10 && m[i + 2] < 10
            &&& 100 * m[i] + 10 * m[i + 1] + m[i + 2] == c.regs[x as int]
        }),
{
    let op = (0xF033 + x * 0x100) as u16;
    assert(op_nib1(op) == 0xF && op_nib2(op) == x && op_nib3(op) == 3 && op_nib4(op) == 3);
}

/// `8XY4` (with `X` other than `F`): the carry in `VF` and the sum in `VX`
/// together make the full sum.
pub proof fn lemma_add_carry(c: CpuState, x: u16, y: u16, rnd: u8)
    requires
        cpu_wf(c),
        x < 15,
        y < 16,
    ensures
        ({
            let r = execute(c, (0x8004 + x * 0x100 + y * 0x10) as u16, rnd).regs;
            256 * r[15] + r[x as int] == c.regs[x as int] + c.regs[y as int] && r[15] <= 1
        }),
{
    let op = (0x8004 + x * 0x100 + y * 0x10) as u16;
    assert(op_nib1(op) == 8 && op_nib2(op) == x && op_nib3(op) == y && op_nib4(op) == 4)
        by (nonlinear_arith)
        requires
            op == 0x8004 + x * 0x100 + y * 0x10,
            x < 15,
            y < 16,
    ;
}

/// `8XY5` (with `X` other than `F`): `VF` is 1 when no borrow was needed, and
/// `VX` holds the difference modulo 256.
pub proof fn lemma_sub_borrow(c: CpuState, x: u16, y: u16, rnd: u8)
    requires
        cpu_wf(c),
        x < 15,
        y < 16,
    ensures
        ({
            let r = execute(c, (0x8005 + x * 0x100 + y * 0x10) as u16, rnd).regs;
            r[x as int] == c.regs[x as int] - c.regs[y as int] + 256 * (1 - r[15]) && r[15] <= 1
        }),
{
    let op = (0x8005 + x * 0x100 + y * 0x10) as u16;
    assert(op_nib1(op) == 8 && op_nib2(op) == x && op_nib3(op) == y && op_nib4(op) == 5)
        by (nonlinear_arith)
        requires
            op == 0x8005 + x * 0x100 + y * 0x10,
            x < 15,
            y < 16,
    ;
}

/// `3XNN` and `4XNN` with the same operands: exactly one of them skips.
pub proof fn lemma_skips_complement(c: CpuState, x: u16, nn: u16, rnd: u8)
    requires
        x < 16,
        nn < 256,
    ensures
        ({
            let eq = execute(c, (0x3000 + x * 0x100 + nn) as u16, rnd).pc;
            let ne = execute(c, (0x4000 + x * 0x100 + nn) as u16, rnd).pc;
            let next = ((c.pc + 2) % 0x10000) as u16;
            (eq == c.pc && ne == next) || (eq == next && ne == c.pc)
        }),
{
    let a = (0x3000 + x * 0x100 + nn) as u16;
    let b = (0x4000 + x * 0x100 + nn) as u16;
    assert(op_nib1(a) == 3 && op_nib2(a) == x && a % 0x100 == nn) by (nonlinear_arith)
        requires
            a == 0x3000 + x * 0x100 + nn,
            x < 16,
            nn < 256,
    ;
    assert(op_nib1(b) == 4 && op_nib2(b) == x && b % 0x100 == nn) by (nonlinear_arith)
        requires
            b == 0x4000 + x * 0x100 + nn,
            x < 16,
            nn < 256,
    ;
}

/// Instructions leave the timers alone; an instruction cycle ticks both down
/// by one, never below zero.
pub proof fn lemma_step_ticks_timers(c: CpuState, rnd: u8)
    ensures
        step(c, rnd).delay_timer == tick_timer(c.delay_timer),
        step(c, rnd).sound_timer == tick_timer(c.sound_timer),
        step(c, rnd).delay_timer <= c.delay_timer,
        step(c, rnd).sound_timer <= c.sound_timer,
        step(c, rnd).delay_timer == (if c.delay_timer > 0 { c.delay_timer - 1 } else { 0 }),
        step(c, rnd).sound_timer == (if c.sound_timer > 0 { c.sound_timer - 1 } else { 0 }),
{
}

/// Executing an instruction keeps the sizes of memory, registers and screen.
pub proof fn lemma_execute_keeps_sizes(c: CpuState, op: u16, rnd: u8)
    requires
        cpu_wf(c),
        !execute_panics(c, op),
    ensures
        cpu_wf(execute(c, op, rnd)),
{
}

/// Only `FX33` and `FX55` write to memory; every other opcode leaves it, and
/// with it the font and the program, unchanged.
pub proof fn lemma_memory_written_only_by_stores(c: CpuState, op: u16, rnd: u8)
    requires
        !(op_nib1(op) == 0xF && op_nib3(op) == 0x3 && op_nib4(op) == 0x3),
        !(op_nib1(op) == 0xF && op_nib3(op) == 0x5 && op_nib4(op) == 0x5),
    ensures
        execute(c, op, rnd).memory == c.memory,
{
}

/// After start-up memory holds the font at `0x50` and zero everywhere else.
pub proof fn lemma_initial_memory_holds_font()
    ensures
        initial_memory().len() == 4096,
        initial_memory().subrange(0x50, 0xA0) == font(),
        forall|j: int| 0 <= j < 4096 && !(0x50 <= j < 0xA0) ==> #[trigger] initial_memory()[j] == 0,
{
    assert(initial_memory().subrange(0x50, 0xA0) =~= font());
}

/// A breakpoint fires once: checking again right after a check changes
/// nothing.
pub proof fn lemma_breakpoint_fires_once(v: Chip8View)
    ensures
        breakpoint_check(breakpoint_check(v)) == breakpoint_check(v),
        !breakpoint_check(v).breakpoints.contains(v.cpu.pc),
        v.breakpoints.contains(v.cpu.pc) ==> breakpoint_check(v).paused,
{
}

/// Pressing `Space` twice leaves the interpreter as it was.
pub proof fn lemma_space_twice(v: Chip8View, a: Chip8View, b: Chip8View, r1: Reaction, r2: Reaction)
    requires
        event_outcome(v, HostEvent::KeyDown { key: HostKey::Space, keypad: None }, a, r1),
        event_outcome(a, HostEvent::KeyDown { key: HostKey::Space, keypad: None }, b, r2),
    ensures
        b == v,
        a.paused == !v.paused,
{
}

/// Pressing `Tab` twice leaves the interpreter as it was, and asks for a
/// repaint both times.
pub proof fn lemma_tab_twice(v: Chip8View, a: Chip8View, b: Chip8View, r1: Reaction, r2: Reaction)
    requires
        event_outcome(v, HostEvent::KeyDown { key: HostKey::Tab, keypad: None }, a, r1),
        event_outcome(a, HostEvent::KeyDown { key: HostKey::Tab, keypad: None }, b, r2),
    ensures
        b == v,
        a.debug == !v.debug,
        a.debug_lines == !v.debug_lines,
        a.cpu == v.cpu && a.paused == v.paused && a.reset == v.reset,
        r1.repaint && r2.repaint,
{
}

/// Pressing and releasing a keypad key that was up holds it down in between
/// and leaves the interpreter as it was.
pub proof fn lemma_press_then_release(
    v: Chip8View,
    k: u8,
    a: Chip8View,
    b: Chip8View,
    r1: Reaction,
    r2: Reaction,
)
    requires
        k < 16,
        v.keypad.len() == 16,
        !v.keypad[k as int],
        event_outcome(v, HostEvent::KeyDown { key: HostKey::Other, keypad: Some(k) }, a, r1),
        event_outcome(a, HostEvent::KeyUp { keypad: Some(k) }, b, r2),
    ensures
        a.keypad[k as int],
        b == v,
        r1.keypad_changed && r2.keypad_changed,
{
    assert(b.keypad =~= v.keypad);
}

/// What an opcode leaves alone: it never touches the timers; only `00E0` and
/// `DXYN` change the screen; only `2NNN` and `00EE` change the stack; and an
/// opcode the interpreter does not know, one it does not implement (`EX9E`,
/// `EXA1`, `FX07`, `FX0A`, `FX15`, `FX18`, `FX29`) or an undefined `8XYN`
/// changes nothing at all.
pub proof fn lemma_execute_frame(c: CpuState, op: u16, rnd: u8)
    requires
        cpu_wf(c),
    ensures
        execute(c, op, rnd).delay_timer == c.delay_timer,
        execute(c, op, rnd).sound_timer == c.sound_timer,
        !redraws(op) ==> execute(c, op, rnd).screen == c.screen,
        !(op_nib1(op) == 0x2 || op == 0x00EE) ==> execute(c, op, rnd).stack == c.stack,
        !is_known(op) ==> execute(c, op, rnd) == c,
        op_nib1(op) == 0xE && (op_nib3(op) == 0x9 && op_nib4(op) == 0xE || op_nib3(op) == 0xA
            && op_nib4(op) == 0x1) ==> execute(c, op, rnd) == c,
        op_nib1(op) == 0xF && (op_nib3(op) == 0x0 && (op_nib4(op) == 0x7 || op_nib4(op) == 0xA)
            || op_nib3(op) == 0x1 && (op_nib4(op) == 0x5 || op_nib4(op) == 0x8) || op_nib3(op)
            == 0x2 && op_nib4(op) == 0x9) ==> execute(c, op, rnd) == c,
        op_nib1(op) == 0x8 && (0x8 <= op_nib4(op) <= 0xD || op_nib4(op) == 0xF) ==> execute(
            c,
            op,
            rnd,
        ) == c,
{
    if op == 0x00EE {
        assert(op_nib1(op) == 0 && op_nib2(op) == 0 && op_nib3(op) == 0xE && op_nib4(op) == 0xE);
    }
    if op_nib1(op) == 0x0 && op_nib2(op) == 0x0 && op_nib3(op) == 0xE && op_nib4(op) == 0xE {
        assert(op == 0x00EE);
    }
    if op_nib1(op) == 0x8 && (0x8 <= op_nib4(op) <= 0xD || op_nib4(op) == 0xF) {
        assert(execute(c, op, rnd).regs =~= c.regs);
    }
}

/// Handling events never changes the breakpoints: within a frame only the
/// check at its start drops one.
pub proof fn lemma_events_keep_breakpoints(
    views: Seq<Chip8View>,
    events: Seq<HostEvent>,
    reactions: Seq<Reaction>,
)
    requires
        event_batch(views, events, reactions),
    ensures
        views.last().breakpoints == views[0].breakpoints,
    decreases events.len(),
{
    if events.len() > 0 {
        let n = events.len() - 1;
        assert(event_outcome(views[n], events[n], views[n + 1], reactions[n]));
        lemma_events_keep_breakpoints(views.drop_last(), events.drop_last(), reactions.drop_last());
        assert(views.drop_last().last() == views[n]);
    }
}

/// While paused, events other than `Space` and `N` run no instruction: the
/// interpreter state and the pause stay as they were.
pub proof fn lemma_paused_events_run_nothing(
    views: Seq<Chip8View>,
    events: Seq<HostEvent>,
    reactions: Seq<Reaction>,
)
    requires
        event_batch(views, events, reactions),
        views[0].paused,
        forall|i: int| 0 <= i < events.len() ==> !resumes_or_steps(#[trigger] events[i]),
    ensures
        views.last().cpu == views[0].cpu,
        views.last().paused,
        forall|i: int| 0 <= i < reactions.len() ==> (#[trigger] reactions[i]).step is None,
    decreases events.len(),
{
    if events.len() > 0 {
        let n = events.len() - 1;
        assert(event_outcome(views[n], events[n], views[n + 1], reactions[n]));
        assert(!resumes_or_steps(events[n]));
        lemma_paused_events_run_nothing(views.drop_last(), events.drop_last(), reactions.drop_last());
        assert(views.drop_last().last() == views[n]);
        assert forall|i: int| 0 <= i < reactions.len() implies (#[trigger] reactions[i]).step is None by {
            if i < n {
                assert(reactions.drop_last()[i] == reactions[i]);
            }
        }
    }
}

/// `N` while paused runs exactly one instruction cycle and stays paused.
pub proof fn lemma_step_key_runs_one_cycle(
    v: Chip8View,
    keypad: Option<u8>,
    after: Chip8View,
    r: Reaction,
)
    requires
        v.paused,
        event_outcome(v, HostEvent::KeyDown { key: HostKey::N, keypad }, after, r),
    ensures
        r.step matches Some(res) && instruction_cycle(
            press(v, keypad, true),
            after,
            res,
        ),
        after.paused,
{
}

/// A frame that starts at a breakpoint does not run the instruction there:
/// the check pauses and drops the breakpoint, events other than `Space` and
/// `N` keep the pause, and the step after the events runs nothing.
pub proof fn lemma_breakpoint_frame(
    v: Chip8View,
    views: Seq<Chip8View>,
    events: Seq<HostEvent>,
    reactions: Seq<Reaction>,
    after: Chip8View,
    res: Option<Result<Step, String>>,
)
    requires
        v.breakpoints.contains(v.cpu.pc),
        views[0] == breakpoint_check(v),
        event_batch(views, events, reactions),
        forall|i: int| 0 <= i < events.len() ==> !resumes_or_steps(#[trigger] events[i]),
        advance_outcome(views.last(), after, res),
    ensures
        res is None,
        after.paused,
        after.cpu == v.cpu,
        after.breakpoints == v.breakpoints.remove(v.cpu.pc),
{
    lemma_paused_events_run_nothing(views, events, reactions);
    lemma_events_keep_breakpoints(views, events, reactions);
}

/// `Backspace` requests a reset and changes nothing else; `Escape` and
/// quitting end the loop and change nothing.
pub proof fn lemma_reset_and_quit_keys(
    v: Chip8View,
    a: Chip8View,
    r: Reaction,
    b: Chip8View,
    q: Reaction,
)
    requires
        event_outcome(v, HostEvent::KeyDown { key: HostKey::Backspace, keypad: None }, a, r),
        event_outcome(v, HostEvent::KeyDown { key: HostKey::Escape, keypad: None }, b, q),
    ensures
        a.reset,
        a.cpu == v.cpu && a.paused == v.paused && a.debug == v.debug && a.keypad == v.keypad,
        !r.quit && r.step is None,
        b == v && q.quit && q.step is None,
{
}

/// Appending a digit to a digit string multiplies its value by ten and adds
/// the digit.
pub proof fn lemma_digits_value_append(d: Seq<char>, ch: char)
    ensures
        digits_value(d.push(ch)) == 10 * digits_value(d) + (ch as int - '0' as int),
{
    assert(d.push(ch).drop_last() =~= d);
}

/// A single digit parses as itself; a `+` in front changes nothing; a `-` in
/// front is refused.
pub proof fn lemma_parse_single_digit(ch: char, max: int)
    requires
        '0' <= ch <= '9',
        max >= 9,
    ensures
        parse_unsigned(seq![ch], max) == Some(ch as int - '0' as int),
        parse_unsigned(seq!['+', ch], max) == Some(ch as int - '0' as int),
        parse_unsigned(seq!['-', ch], max) is None,
{
    let one = seq![ch];
    assert(one.drop_last() =~= Seq::<char>::empty());
    assert(digits_value(Seq::<char>::empty()) == 0);
    assert(one.last() == ch);
    assert(digits_value(one) == ch as int - '0' as int);
    assert(all_digits(one));
    assert(unsigned_digits(one) == one);
    let plus = seq!['+', ch];
    assert(plus.drop_first() =~= one);
    assert(unsigned_digits(plus) == one);
    let minus = seq!['-', ch];
    assert(unsigned_digits(minus) == minus);
    assert(!all_digits(minus)) by {
        assert(!('0' <= minus[0] <= '9'));
    }
}

/// A command line that names only a program gives the default settings with
/// that program; `--debug` before it switches debug mode on; `--cycles N`
/// before it sets the speed to `N`.
pub proof fn lemma_parse_simple_command_lines(p: Seq<char>, rom: Seq<char>, num: Seq<char>)
    requires
        !(rom.len() > 0 && rom[0] == '-'),
    ensures
        parse_from(seq![p, rom], 1, default_config()) == ParseOutcome::Parsed(
            ConfigView { rom_path: Some(rom), ..default_config() },
        ),
        parse_from(seq![p, "--debug"@, rom], 1, default_config()) == ParseOutcome::Parsed(
            ConfigView { rom_path: Some(rom), debug: true, ..default_config() },
        ),
        parse_unsigned(num, u32::MAX as int) matches Some(n) ==> parse_from(
            seq![p, "--cycles"@, num, rom],
            1,
            default_config(),
        ) == ParseOutcome::Parsed(
            ConfigView { rom_path: Some(rom), instructions_per_second: n as u32, ..default_config() },
        ),
{
    reveal_strlit("--debug");
    reveal_strlit("--cycles");
    let a1 = seq![p, rom];
    assert(parse_from(a1, 2, ConfigView { rom_path: Some(rom), ..default_config() })
        == ParseOutcome::Parsed(ConfigView { rom_path: Some(rom), ..default_config() }));
    let dbg = ConfigView { debug: true, ..default_config() };
    let a2 = seq![p, "--debug"@, rom];
    assert(a2[1] == "--debug"@);
    assert(a2[2] == rom);
    assert(is_flag(a2[1]));
    assert(!is_flag(a2[2]));
    assert(parse_from(a2, 3, ConfigView { rom_path: Some(rom), ..dbg })
        == ParseOutcome::Parsed(ConfigView { rom_path: Some(rom), ..dbg }));
    assert(parse_from(a2, 2, dbg)
        == ParseOutcome::Parsed(ConfigView { rom_path: Some(rom), ..dbg }));
    assert(ConfigView { rom_path: Some(rom), ..dbg }
        == ConfigView { rom_path: Some(rom), debug: true, ..default_config() });
    let a3 = seq![p, "--cycles"@, num, rom];
    assert(a3[1] == "--cycles"@);
    assert(a3[2] == num);
    assert(a3[3] == rom);
    assert(is_flag(a3[1]));
    assert(!is_flag(a3[3]));
    assert("--cycles"@ != "--debug"@) by {
        assert("--cycles"@.len() != "--debug"@.len());
    }
    if let Some(n) = parse_unsigned(num, u32::MAX as int) {
        let cyc = ConfigView { instructions_per_second: n as u32, ..default_config() };
        assert(parse_from(a3, 4, ConfigView { rom_path: Some(rom), ..cyc })
            == ParseOutcome::Parsed(ConfigView { rom_path: Some(rom), ..cyc }));
        assert(parse_from(a3, 3, cyc)
            == ParseOutcome::Parsed(ConfigView { rom_path: Some(rom), ..cyc }));
        assert(parse_from(a3, 1, default_config()) == parse_from(a3, 3, cyc));
    }
}

} // verus!
