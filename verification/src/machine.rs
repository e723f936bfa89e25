use vstd::prelude::*;

use crate::display::blank_screen;
use crate::instructions::{op_nib1, op_nib2, op_nib3, op_nib4, op_nn, op_nnn};

verus! {

/// The built-in hexadecimal font: sixteen sprites of five rows each.
pub const FONT_DATA: [u8; 80] = [
    0xF0, 0x90, 0x90, 0x90, 0xF0, // 0
    0x20, 0x60, 0x20, 0x20, 0x70, // 1
    0xF0, 0x10, 0xF0, 0x80, 0xF0, // 2
    0xF0, 0x10, 0xF0, 0x10, 0xF0, // 3
    0x90, 0x90, 0xF0, 0x10, 0x10, // 4
    0xF0, 0x80, 0xF0, 0x10, 0xF0, // 5
    0xF0, 0x80, 0xF0, 0x90, 0xF0, // 6
    0xF0, 0x10, 0x20, 0x40, 0x40, // 7
    0xF0, 0x90, 0xF0, 0x90, 0xF0, // 8
    0xF0, 0x90, 0xF0, 0x10, 0xF0, // 9
    0xF0, 0x90, 0xF0, 0x90, 0x90, // A
    0xE0, 0x90, 0xE0, 0x90, 0xE0, // B
    0xF0, 0x80, 0x80, 0x80, 0xF0, // C
    0xE0, 0x90, 0x90, 0x90, 0xE0, // D
    0xF0, 0x80, 0xF0, 0x80, 0xF0, // E
    0xF0, 0x80, 0xF0, 0x80, 0x80, // F
];

/// The font as a sequence of bytes.
pub open spec fn font() -> Seq<u8> {
    seq![
        0xF0u8, 0x90, 0x90, 0x90, 0xF0,
        0x20, 0x60, 0x20, 0x20, 0x70,
        0xF0, 0x10, 0xF0, 0x80, 0xF0,
        0xF0, 0x10, 0xF0, 0x10, 0xF0,
        0x90, 0x90, 0xF0, 0x10, 0x10,
        0xF0, 0x80, 0xF0, 0x10, 0xF0,
        0xF0, 0x80, 0xF0, 0x90, 0xF0,
        0xF0, 0x10, 0x20, 0x40, 0x40,
        0xF0, 0x90, 0xF0, 0x90, 0xF0,
        0xF0, 0x90, 0xF0, 0x10, 0xF0,
        0xF0, 0x90, 0xF0, 0x90, 0x90,
        0xE0, 0x90, 0xE0, 0x90, 0xE0,
        0xF0, 0x80, 0x80, 0x80, 0xF0,
        0xE0, 0x90, 0x90, 0x90, 0xE0,
        0xF0, 0x80, 0xF0, 0x80, 0xF0,
        0xF0, 0x80, 0xF0, 0x80, 0x80,
    ]
}

/// Size of the CHIP-8 memory, in bytes.
pub const MEMORY_SIZE: usize = 4096;

/// Address at which programs are loaded and execution starts.
pub const PROGRAM_START: u16 = 0x200;

/// Address at which the font is stored.
pub const FONT_START: usize = 0x50;

/// The state of the interpreter that instructions read and write.
#[verifier::ext_equal]
pub struct CpuState {
    /// The 4096 bytes of memory.
    pub memory: Seq<u8>,
    /// The sixteen variable registers `V0` to `VF`.
    pub regs: Seq<u8>,
    /// Return addresses of the subroutines being run, innermost last.
    pub stack: Seq<u16>,
    /// The program counter.
    pub pc: u16,
    /// The index register `I`.
    pub index: u16,
    pub delay_timer: u8,
    pub sound_timer: u8,
    /// The 64 x 32 screen, row by row.
    pub screen: Seq<bool>,
}

/// The sizes that every state of the interpreter has.
pub open spec fn cpu_wf(c: CpuState) -> bool {
    &&& c.memory.len() == 4096
    &&& c.regs.len() == 16
    &&& c.screen.len() == 2048
}

/// Memory as it is after start-up: zero but for the font.
pub open spec fn initial_memory() -> Seq<u8> {
    Seq::new(4096, |i: int| if 0x50 <= i < 0xA0 { font()[i - 0x50] } else { 0u8 })
}

/// The state of the interpreter after start-up and after a reset.
pub open spec fn initial_cpu() -> CpuState {
    CpuState {
        memory: initial_memory(),
        regs: Seq::new(16, |i: int| 0u8),
        stack: Seq::empty(),
        pc: 0x200,
        index: 0,
        delay_timer: 0,
        sound_timer: 0,
        screen: blank_screen(),
    }
}

/// Skips the next instruction where `cond` holds.
pub open spec fn skip_if(c: CpuState, cond: bool) -> CpuState {
    if cond {
        CpuState { pc: ((c.pc + 2) % 0x10000) as u16, ..c }
    } else {
        c
    }
}

/// Writes `v` into register `x`.
pub open spec fn set_reg(c: CpuState, x: int, v: u8) -> CpuState {
    CpuState { regs: c.regs.update(x, v), ..c }
}

/// The value that `8XYN` writes into `VX`.
pub open spec fn alu_result(vx: u8, vy: u8, n: int) -> u8 {
    if n == 0x0 {
        vy
    } else if n == 0x1 {
        vx | vy
    } else if n == 0x2 {
        vx & vy
    } else if n == 0x3 {
        vx ^ vy
    } else if n == 0x4 {
        ((vx + vy) % 256) as u8
    } else if n == 0x5 {
        ((vx - vy + 256) % 256) as u8
    } else if n == 0x6 {
        vx / 2
    } else if n == 0x7 {
        ((vy - vx + 256) % 256) as u8
    } else if n == 0xE {
        ((vx * 2) % 256) as u8
    } else {
        vx
    }
}

/// The value that `8XYN` writes into `VF` (written after `VX`), given the
/// value `vf` that `VF` held before.
pub open spec fn alu_flag(vx: u8, vy: u8, vf: u8, n: int) -> u8 {
    if n == 0x4 {
        if vx + vy > 255 { 1 } else { 0 }
    } else if n == 0x5 {
        if vx >= vy { 1 } else { 0 }
    } else if n == 0x6 {
        vx % 2
    } else if n == 0x7 {
        if vy >= vx { 1 } else { 0 }
    } else if n == 0xE {
        vx / 128
    } else {
        vf
    }
}

/// `8XYN`: arithmetic and logic on `VX` and `VY`, with `VF` as the flag.
pub open spec fn alu(c: CpuState, x: int, y: int, n: int) -> CpuState {
    let vx = c.regs[x];
    let vy = c.regs[y];
    let vf = c.regs[15];
    CpuState {
        regs: c.regs.update(x, alu_result(vx, vy, n)).update(15, alu_flag(vx, vy, vf, n)),
        ..c
    }
}

/// Whether column `col` (0 to 7, left to right) of a sprite row is set.
pub open spec fn sprite_bit(row: u8, col: int) -> bool {
    (row >> ((7 - col) as u8)) & 1u8 == 1u8
}

/// Whether the sprite of height `h` stored at `index`, drawn at `(sx, sy)`,
/// covers screen pixel `p`. Rows and columns past the screen's edge are cut
/// off, not wrapped.
pub open spec fn sprite_covers(mem: Seq<u8>, index: int, sx: int, sy: int, h: int, p: int) -> bool {
    let px = p % 64;
    let py = p / 64;
    &&& sy <= py < sy + h
    &&& sx <= px < sx + 8
    &&& sprite_bit(mem[index + (py - sy)], px - sx)
}

/// Whether drawing the sprite turns off a pixel that was on.
pub open spec fn draw_collides(
    screen: Seq<bool>,
    mem: Seq<u8>,
    index: int,
    sx: int,
    sy: int,
    h: int,
) -> bool {
    exists|p: int| 0 <= p < 2048 && #[trigger] sprite_covers(mem, index, sx, sy, h, p) && screen[p]
}

/// The screen after XOR-drawing the sprite.
pub open spec fn drawn_screen(
    screen: Seq<bool>,
    mem: Seq<u8>,
    index: int,
    sx: int,
    sy: int,
    h: int,
) -> Seq<bool> {
    Seq::new(2048, |p: int| screen[p] != sprite_covers(mem, index, sx, sy, h, p))
}

/// `DXYN`: XOR-draws the `N`-row sprite at `I` at `(VX, VY)`; `VF` tells
/// whether a pixel was turned off.
pub open spec fn draw(c: CpuState, x: int, y: int, h: int) -> CpuState {
    let sx = c.regs[x] as int;
    let sy = c.regs[y] as int;
    let i = c.index as int;
    CpuState {
        screen: drawn_screen(c.screen, c.memory, i, sx, sy, h),
        regs: c.regs.update(
            15,
            if draw_collides(c.screen, c.memory, i, sx, sy, h) { 1u8 } else { 0u8 },
        ),
        ..c
    }
}

/// The address of row `r` of a sprite stored at `index`.
pub open spec fn sprite_row(index: int, r: int) -> int {
    index + r
}

/// Whether every sprite row that lands on the screen lies in memory.
pub open spec fn sprite_in_memory(index: int, sy: int, h: int) -> bool {
    forall|r: int| 0 <= r < h && sy + r < 32 ==> #[trigger] sprite_row(index, r) < 4096
}

/// Whether `DXYN` reads a sprite row past the end of memory.
pub open spec fn draw_panics(c: CpuState, x: int, y: int, h: int) -> bool {
    !sprite_in_memory(c.index as int, c.regs[y] as int, h)
}

/// `FX33`: the decimal digits of `VX` at `I`, `I + 1` and `I + 2`.
pub open spec fn bcd(c: CpuState, x: int) -> CpuState {
    let vx = c.regs[x];
    let i = c.index as int;
    CpuState {
        memory: c.memory.update(i, vx / 100).update(i + 1, (vx / 10) % 10).update(i + 2, vx % 10),
        ..c
    }
}

/// `FX55`: `V0` to `VX` stored at `I` to `I + X`.
pub open spec fn store_regs(c: CpuState, x: int) -> CpuState {
    let i = c.index as int;
    CpuState {
        memory: Seq::new(
            c.memory.len(),
            |j: int| if i <= j <= i + x { c.regs[j - i] } else { c.memory[j] },
        ),
        ..c
    }
}

/// `FX65`: `V0` to `VX` loaded from `I` to `I + X`.
pub open spec fn load_regs(c: CpuState, x: int) -> CpuState {
    let i = c.index as int;
    CpuState {
        regs: Seq::new(c.regs.len(), |j: int| if j <= x { c.memory[i + j] } else { c.regs[j] }),
        ..c
    }
}

/// Whether an opcode is one that the interpreter knows; the others are
/// reported and otherwise ignored.
pub open spec fn is_known(op: u16) -> bool {
    let n1 = op_nib1(op);
    let y = op_nib3(op);
    let n = op_nib4(op);
    ||| n1 == 0x0 && op_nib2(op) == 0x0 && y == 0xE && (n == 0x0 || n == 0xE)
    ||| n1 == 0x1 || n1 == 0x2 || n1 == 0x3 || n1 == 0x4 || n1 == 0x6 || n1 == 0x7
    ||| n1 == 0x8 || n1 == 0xA || n1 == 0xB || n1 == 0xC || n1 == 0xD
    ||| (n1 == 0x5 || n1 == 0x9) && n == 0x0
    ||| n1 == 0xE && (y == 0x9 && n == 0xE || y == 0xA && n == 0x1)
    ||| n1 == 0xF && (y == 0x0 && n == 0x7 || y == 0x0 && n == 0xA || y == 0x1 && n == 0x5
        || y == 0x1 && n == 0x8 || y == 0x1 && n == 0xE || y == 0x2 && n == 0x9
        || y == 0x3 && n == 0x3 || y == 0x5 && n == 0x5 || y == 0x6 && n == 0x5)
}

/// Whether an opcode changes the screen (`00E0` and `DXYN`).
pub open spec fn redraws(op: u16) -> bool {
    ||| op_nib1(op) == 0x0 && op_nib2(op) == 0x0 && op_nib3(op) == 0xE && op_nib4(op) == 0x0
    ||| op_nib1(op) == 0xD
}

/// Whether executing `op` would make the interpreter fail: a return with an
/// empty stack, or a memory access past the end of memory.
pub open spec fn execute_panics(c: CpuState, op: u16) -> bool {
    let n1 = op_nib1(op);
    let x = op_nib2(op);
    let y = op_nib3(op);
    let n = op_nib4(op);
    ||| n1 == 0x0 && x == 0x0 && y == 0xE && n == 0xE && c.stack.len() == 0
    ||| n1 == 0xD && draw_panics(c, x, y, n)
    ||| n1 == 0xF && y == 0x3 && n == 0x3 && c.index + 2 >= 4096
    ||| n1 == 0xF && (y == 0x5 || y == 0x6) && n == 0x5 && c.index + x >= 4096
}

/// The state after executing `op`, where `rnd` is the random byte that `CXNN`
/// uses. The program counter already points past `op`. Register, index and
/// program-counter arithmetic wraps around.
pub open spec fn execute(c: CpuState, op: u16, rnd: u8) -> CpuState {
    let n1 = op_nib1(op);
    let x = op_nib2(op);
    let y = op_nib3(op);
    let n = op_nib4(op);
    let nn = op_nn(op) as u8;
    let nnn = op_nnn(op) as u16;
    let vx = c.regs[x];
    let vy = c.regs[y];
    if n1 == 0x0 && x == 0x0 && y == 0xE && n == 0x0 {
        CpuState { screen: blank_screen(), ..c }
    } else if n1 == 0x0 && x == 0x0 && y == 0xE && n == 0xE {
        CpuState { pc: c.stack.last(), stack: c.stack.drop_last(), ..c }
    } else if n1 == 0x1 {
        CpuState { pc: nnn, ..c }
    } else if n1 == 0x2 {
        CpuState { stack: c.stack.push(c.pc), pc: nnn, ..c }
    } else if n1 == 0x3 {
        skip_if(c, vx == nn)
    } else if n1 == 0x4 {
        skip_if(c, vx != nn)
    } else if n1 == 0x5 && n == 0x0 {
        skip_if(c, vx == vy)
    } else if n1 == 0x6 {
        set_reg(c, x, nn)
    } else if n1 == 0x7 {
        set_reg(c, x, ((vx + nn) % 256) as u8)
    } else if n1 == 0x8 {
        alu(c, x, y, n)
    } else if n1 == 0x9 && n == 0x0 {
        skip_if(c, vx != vy)
    } else if n1 == 0xA {
        CpuState { index: nnn, ..c }
    } else if n1 == 0xB {
        CpuState { pc: (c.regs[0] + nnn) as u16, ..c }
    } else if n1 == 0xC {
        set_reg(c, x, rnd & nn)
    } else if n1 == 0xD {
        draw(c, x, y, n)
    } else if n1 == 0xF && y == 0x1 && n == 0xE {
        CpuState { index: ((c.index + vx) % 0x10000) as u16, ..c }
    } else if n1 == 0xF && y == 0x3 && n == 0x3 {
        bcd(c, x)
    } else if n1 == 0xF && y == 0x5 && n == 0x5 {
        store_regs(c, x)
    } else if n1 == 0xF && y == 0x6 && n == 0x5 {
        load_regs(c, x)
    } else {
        c
    }
}

/// Whether the next opcode can be fetched: both of its bytes lie in memory.
pub open spec fn can_fetch(c: CpuState) -> bool {
    c.pc + 1 < 4096
}

/// The opcode at the program counter, high byte first.
pub open spec fn fetched_op(c: CpuState) -> u16 {
    (c.memory[c.pc as int] * 256 + c.memory[c.pc + 1]) as u16
}

/// The state once the program counter has moved past the fetched opcode.
pub open spec fn advance_pc(c: CpuState) -> CpuState {
    CpuState { pc: (c.pc + 2) as u16, ..c }
}

/// A timer one tick later: it counts down to zero and stays there.
pub open spec fn tick_timer(t: u8) -> u8 {
    if t > 0 { (t - 1) as u8 } else { 0 }
}

/// One instruction cycle: fetch, execute, then tick both timers.
pub open spec fn step(c: CpuState, rnd: u8) -> CpuState {
    let e = execute(advance_pc(c), fetched_op(c), rnd);
    CpuState {
        delay_timer: tick_timer(e.delay_timer),
        sound_timer: tick_timer(e.sound_timer),
        ..e
    }
}

/// Whether the next instruction cycle would make the interpreter fail.
pub open spec fn step_panics(c: CpuState) -> bool {
    can_fetch(c) && execute_panics(advance_pc(c), fetched_op(c))
}

} // verus!

verus! {

/// What the host has to do after an instruction.
#[derive(Debug, Clone, Copy, PartialEq, Eq, Structural)]
pub enum Effect {
    /// Nothing.
    Nothing,
    /// The screen changed: show it again.
    Redraw,
    /// The opcode is not one the interpreter knows: report it.
    Unknown,
    /// `CXNN` could not get a random byte from the system: nothing was
    /// executed.
    NoRandom,
}

/// The effect of executing `op`.
pub open spec fn effect_of(op: u16) -> Effect {
    if redraws(op) {
        Effect::Redraw
    } else if !is_known(op) {
        Effect::Unknown
    } else {
        Effect::Nothing
    }
}

} // verus!
