use rand::TryRng;
use std::collections::HashSet;
use vstd::prelude::*;

use crate::config::C8Config;
use crate::display::{C8Display, Color};
use crate::events::{advance_outcome, breakpoint_check, event_allowed, event_outcome, HostEvent, HostKey, Reaction};
use crate::instructions::{lemma_nibbles, op_nib1};
use crate::machine::{
    alu_flag, alu_result, can_fetch, cpu_wf, advance_pc, draw_collides, drawn_screen, effect_of, execute,
    execute_panics, fetched_op, font, initial_cpu, initial_memory, sprite_bit, sprite_covers,
    sprite_in_memory, sprite_row, step, step_panics, CpuState, Effect, FONT_DATA,
};

verus! {

/// Pixel `p` has been drawn once the sprite rows before `row`, and the
/// columns before `col` of row `row`, have been drawn.
spec fn painted(mem: Seq<u8>, index: int, sx: int, sy: int, h: int, row: int, col: int, p: int) -> bool {
    &&& sprite_covers(mem, index, sx, sy, h, p)
    &&& (p / 64 - sy < row || (p / 64 - sy == row && p % 64 - sx < col))
}

proof fn lemma_sprite_bit(b: u8, c: u8)
    requires
        c < 8,
    ensures
        (b & (0x80u8 >> c) > 0) == sprite_bit(b, c as int),
{
    let d: u8 = (7 - c) as u8;
    assert((b & (0x80u8 >> c) > 0) == ((b >> d) & 1u8 == 1u8)) by (bit_vector)
        requires
            c < 8,
            d == 7 - c,
    ;
}

/// XOR-draws a sprite of `height` rows, stored at `index`, at `(sx, sy)`;
/// returns whether a pixel that was on was turned off.
fn draw_sprite(
    buff: &mut [bool; 2048],
    memory: &[u8; 4096],
    index: u16,
    sx: usize,
    sy: usize,
    height: usize,
) -> (collided: bool)
    requires
        sx < 256,
        sy < 256,
        height < 16,
        sprite_in_memory(index as int, sy as int, height as int),
    ensures
        final(buff)@ == drawn_screen(
            old(buff)@,
            memory@,
            index as int,
            sx as int,
            sy as int,
            height as int,
        ),
        collided == draw_collides(
            old(buff)@,
            memory@,
            index as int,
            sx as int,
            sy as int,
            height as int,
        ),
{
    let ghost s0 = buff@;
    let ghost mem = memory@;
    let ghost i = index as int;
    let ghost h = height as int;
    let rows: usize = if sy >= 32 {
        0
    } else if height < 32 - sy {
        height
    } else {
        32 - sy
    };
    let cols: usize = if sx >= 64 {
        0
    } else if 8 < 64 - sx {
        8
    } else {
        64 - sx
    };
    let mut collided = false;
    let mut row: usize = 0;
    while row < rows
        invariant
            row <= rows,
            rows <= height,
            rows > 0 ==> sy + rows <= 32,
            cols <= 8,
            cols > 0 ==> sx + cols <= 64,
            sy >= 32 ==> rows == 0,
            sy < 32 ==> rows == height || sy + rows == 32,
            sx >= 64 ==> cols == 0,
            sx < 64 ==> cols == 8 || sx + cols == 64,
            s0 == old(buff)@,
            mem == memory@,
            i == index as int,
            h == height as int,
            sx < 256,
            sy < 256,
            height < 16,
            sprite_in_memory(index as int, sy as int, height as int),
            forall|p: int|
                0 <= p < 2048 ==> buff@[p] == (s0[p] != painted(
                    mem,
                    i,
                    sx as int,
                    sy as int,
                    h,
                    row as int,
                    0,
                    p,
                )),
            collided == exists|p: int|
                0 <= p < 2048 && #[trigger] painted(mem, i, sx as int, sy as int, h, row as int, 0, p)
                    && s0[p],
        decreases rows - row,
    {
        assert(sprite_row(index as int, row as int) < 4096);
        let row_byte = memory[index as usize + row];
        let mut col: usize = 0;
        while col < cols
            invariant
                row < rows,
                col <= cols,
                rows <= height,
                rows > 0 ==> sy + rows <= 32,
                cols <= 8,
                cols > 0 ==> sx + cols <= 64,
                s0 == old(buff)@,
                mem == memory@,
                i == index as int,
                h == height as int,
                0 <= i + row < 4096,
                row_byte == mem[i + row],
                sx < 256,
                sy < 256,
                height < 16,
                forall|p: int|
                    0 <= p < 2048 ==> buff@[p] == (s0[p] != painted(
                        mem,
                        i,
                        sx as int,
                        sy as int,
                        h,
                        row as int,
                        col as int,
                        p,
                    )),
                collided == exists|p: int|
                    0 <= p < 2048 && #[trigger] painted(
                        mem,
                        i,
                        sx as int,
                        sy as int,
                        h,
                        row as int,
                        col as int,
                        p,
                    ) && s0[p],
            decreases cols - col,
        {
            let ghost p0 = ((sy + row) * 64 + (sx + col)) as int;
            let ghost prev_collided = collided;
            let ghost prev = buff@;
            assert(p0 / 64 == sy + row && p0 % 64 == sx + col) by (nonlinear_arith)
                requires
                    p0 == (sy + row) * 64 + (sx + col),
                    sx + col < 64,
            ;
            proof {
                lemma_sprite_bit(row_byte, col as u8);
            }
            let bit = row_byte & (0x80u8 >> (col as u8)) > 0;
            assert(sprite_covers(mem, i, sx as int, sy as int, h, p0) == bit);
            if bit {
                let pixel_idx = (sy + row) * 64 + (sx + col);
                if buff[pixel_idx] {
                    collided = true;
                }
                buff[pixel_idx] = !buff[pixel_idx];
            }
            assert forall|p: int| 0 <= p < 2048 implies #[trigger] painted(
                mem,
                i,
                sx as int,
                sy as int,
                h,
                row as int,
                col + 1,
                p,
            ) == (painted(mem, i, sx as int, sy as int, h, row as int, col as int, p) || (p == p0
                && bit)) by {
                if p / 64 == sy + row && p % 64 == sx + col {
                    assert(p == p0);
                }
            }
            assert(collided == exists|p: int|
                0 <= p < 2048 && #[trigger] painted(
                    mem,
                    i,
                    sx as int,
                    sy as int,
                    h,
                    row as int,
                    col + 1,
                    p,
                ) && s0[p]) by {
                if bit && prev[p0] {
                    assert(painted(mem, i, sx as int, sy as int, h, row as int, col + 1, p0) && s0[p0]);
                } else if prev_collided {
                    let w = choose|p: int|
                        0 <= p < 2048 && #[trigger] painted(
                            mem,
                            i,
                            sx as int,
                            sy as int,
                            h,
                            row as int,
                            col as int,
                            p,
                        ) && s0[p];
                    assert(painted(mem, i, sx as int, sy as int, h, row as int, col + 1, w));
                } else {
                    assert forall|p: int|
                        0 <= p < 2048 && #[trigger] painted(
                            mem,
                            i,
                            sx as int,
                            sy as int,
                            h,
                            row as int,
                            col + 1,
                            p,
                        ) implies !s0[p] by {
                        if p != p0 {
                            assert(!(painted(
                                mem,
                                i,
                                sx as int,
                                sy as int,
                                h,
                                row as int,
                                col as int,
                                p,
                            ) && s0[p]));
                        }
                    }
                }
            }
            col += 1;
        }
        assert forall|p: int| 0 <= p < 2048 implies #[trigger] painted(
            mem,
            i,
            sx as int,
            sy as int,
            h,
            row + 1,
            0,
            p,
        ) == painted(mem, i, sx as int, sy as int, h, row as int, col as int, p) by {
            if sprite_covers(mem, i, sx as int, sy as int, h, p) && p / 64 - sy == row {
                assert(p % 64 - sx < cols);
            }
        }
        assert(collided == exists|p: int|
            0 <= p < 2048 && #[trigger] painted(mem, i, sx as int, sy as int, h, row + 1, 0, p)
                && s0[p]) by {
            if collided {
                let w = choose|p: int|
                    0 <= p < 2048 && #[trigger] painted(
                        mem,
                        i,
                        sx as int,
                        sy as int,
                        h,
                        row as int,
                        col as int,
                        p,
                    ) && s0[p];
                assert(painted(mem, i, sx as int, sy as int, h, row + 1, 0, w));
            } else {
                assert forall|p: int|
                    0 <= p < 2048 && #[trigger] painted(
                        mem,
                        i,
                        sx as int,
                        sy as int,
                        h,
                        row + 1,
                        0,
                        p,
                    ) implies !s0[p] by {
                    assert(painted(mem, i, sx as int, sy as int, h, row as int, col as int, p));
                }
            }
        }
        row += 1;
    }
    assert forall|p: int| 0 <= p < 2048 implies #[trigger] painted(
        mem,
        i,
        sx as int,
        sy as int,
        h,
        row as int,
        0,
        p,
    ) == sprite_covers(mem, i, sx as int, sy as int, h, p) by {
        if sprite_covers(mem, i, sx as int, sy as int, h, p) {
            assert(p / 64 < 32);
        }
    }
    assert(buff@ =~= drawn_screen(s0, mem, i, sx as int, sy as int, h));
    collided
}

/// A byte from the operating system's random source: `rand::rngs::SysRng`
/// (getrandom's), `TryRng::try_fill_bytes` on a one-byte buffer. `None` where
/// the system cannot give one. Nothing is promised of the byte.
#[verifier::external_body]
fn try_random_byte() -> Option<u8> {
    let mut buf = [0u8; 1];
    match rand::rngs::SysRng.try_fill_bytes(&mut buf) {
        Ok(()) => Some(buf[0]),
        Err(_) => None,
    }
}

proof fn lemma_byte_ops(v: u8)
    ensures
        v >> 1u8 == v / 2,
        v & 1u8 == v % 2,
        v << 1u8 == (v * 2) % 256,
        (v & 0x80u8) >> 7u8 == v / 128,
{
    assert(v >> 1u8 == v / 2) by (bit_vector);
    assert(v & 1u8 == v % 2) by (bit_vector);
    assert(v << 1u8 == (v * 2) % 256) by (bit_vector);
    assert((v & 0x80u8) >> 7u8 == v / 128) by (bit_vector);
}

proof fn lemma_opcode_bytes(upper: u8, lower: u8)
    ensures
        ((upper as u16) << 8u16) | (lower as u16) == upper * 256 + lower,
{
    assert(((upper as u16) << 8u16) | (lower as u16) == upper * 256 + lower) by (bit_vector);
}

/// The value that `8XYN` writes into `VX`, then the one it writes into `VF`.
fn alu_values(vx: u8, vy: u8, vf: u8, n: u16) -> (r: (u8, u8))
    ensures
        r.0 == alu_result(vx, vy, n as int),
        r.1 == alu_flag(vx, vy, vf, n as int),
{
    proof {
        lemma_byte_ops(vx);
    }
    if n == 0x0 {
        (vy, vf)
    } else if n == 0x1 {
        (vx | vy, vf)
    } else if n == 0x2 {
        (vx & vy, vf)
    } else if n == 0x3 {
        (vx ^ vy, vf)
    } else if n == 0x4 {
        (vx.wrapping_add(vy), if vx > u8::MAX - vy { 1 } else { 0 })
    } else if n == 0x5 {
        (vx.wrapping_sub(vy), if vx >= vy { 1 } else { 0 })
    } else if n == 0x6 {
        (vx >> 1, vx & 0x01)
    } else if n == 0x7 {
        (vy.wrapping_sub(vx), if vy >= vx { 1 } else { 0 })
    } else if n == 0xE {
        (vx << 1, (vx & 0x80) >> 7)
    } else {
        (vx, vf)
    }
}

/// Memory as it is after start-up: zero but for the font.
fn initial_memory_array() -> (m: [u8; 4096])
    ensures
        m@ == initial_memory(),
{
    let mut m = [0u8; 4096];
    let font_data = FONT_DATA;
    let mut k: usize = 0;
    while k < 80
        invariant
            k <= 80,
            font_data@ == font(),
            forall|j: int| 0 <= j < 4096 ==> m@[j] == (if 0x50 <= j < 0x50 + k {
                font()[j - 0x50]
            } else {
                0u8
            }),
        decreases 80 - k,
    {
        m[0x50 + k] = font_data[k];
        k += 1;
    }
    assert(m@ =~= initial_memory());
    m
}

/// Everything the interpreter holds, as mathematical values.
#[verifier::ext_equal]
pub struct Chip8View {
    pub cpu: CpuState,
    /// Which of the sixteen keys of the keypad are held down.
    pub keypad: Seq<bool>,
    pub instructions_per_second: u32,
    pub debug: bool,
    pub paused: bool,
    /// Program-counter values at which execution pauses (once).
    pub breakpoints: Set<u16>,
    /// Whether a reset was requested.
    pub reset: bool,
    pub on_color: Color,
    pub off_color: Color,
    pub debug_lines: bool,
}

impl Chip8View {
    /// The same view with another interpreter state.
    pub open spec fn with_cpu(self, c: CpuState) -> Chip8View {
        Chip8View { cpu: c, ..self }
    }
}

/// A CHIP-8 interpreter: memory, registers, stack, timers, keypad, screen,
/// and the debugger's controls.
pub struct Chip8 {
    memory: [u8; 4096],
    display: C8Display,
    var_regs: [u8; 16],
    stack: Vec<u16>,
    pc: u16,
    idx_reg: u16,
    delay_timer: u8,
    sound_timer: u8,
    keypad: [bool; 16],
    instructions_per_second: u32,
    debug: bool,
    paused: bool,
    breakpoints: HashSet<u16>,
    reset: bool,
}

impl View for Chip8 {
    type V = Chip8View;

    closed spec fn view(&self) -> Chip8View {
        Chip8View {
            cpu: CpuState {
                memory: self.memory@,
                regs: self.var_regs@,
                stack: self.stack@,
                pc: self.pc,
                index: self.idx_reg,
                delay_timer: self.delay_timer,
                sound_timer: self.sound_timer,
                screen: self.display.buff@,
            },
            keypad: self.keypad@,
            instructions_per_second: self.instructions_per_second,
            debug: self.debug,
            paused: self.paused,
            breakpoints: self.breakpoints@,
            reset: self.reset,
            on_color: self.display.on_color,
            off_color: self.display.off_color,
            debug_lines: self.display.debug_lines,
        }
    }
}

impl Chip8 {
    /// The interpreter's memory, registers, screen and keypad always have
    /// their fixed sizes.
    pub proof fn lemma_view_wf(&self)
        ensures
            cpu_wf(self@.cpu),
            self@.keypad.len() == 16,
    {
    }
}

/// A keypad with no key held down.
pub open spec fn released_keypad() -> Seq<bool> {
    Seq::new(16, |i: int| false)
}

impl Chip8 {
    /// A freshly started interpreter: memory holds only the font, every
    /// register and timer is zero, the stack is empty, the screen is blank and
    /// execution starts at `0x200`.
    pub fn new(
        on_color: Color,
        off_color: Color,
        instructions_per_second: u32,
        breakpoints: HashSet<u16>,
        debug: bool,
    ) -> (state: Self)
        ensures
            state@ == (Chip8View {
                cpu: initial_cpu(),
                keypad: released_keypad(),
                instructions_per_second,
                debug,
                paused: false,
                breakpoints: breakpoints@,
                reset: false,
                on_color,
                off_color,
                debug_lines: debug,
            }),
    {
        let display = C8Display::new(on_color, off_color, debug);
        let state = Chip8 {
            memory: initial_memory_array(),
            display,
            var_regs: [0; 16],
            stack: Vec::new(),
            pc: 0x200,
            idx_reg: 0,
            delay_timer: 0,
            sound_timer: 0,
            keypad: [false; 16],
            instructions_per_second,
            debug,
            paused: false,
            breakpoints,
            reset: false,
        };
        assert(state@.cpu.regs =~= initial_cpu().regs);
        assert(state@.keypad =~= released_keypad());
        state
    }

    /// A freshly started interpreter with the speed, colours, breakpoints and
    /// debug mode of the settings.
    pub fn from_config(cfg: C8Config) -> (state: Self)
        ensures
            state@ == (Chip8View {
                cpu: initial_cpu(),
                keypad: released_keypad(),
                instructions_per_second: cfg@.instructions_per_second,
                debug: cfg@.debug,
                paused: false,
                breakpoints: cfg@.breakpoints,
                reset: false,
                on_color: cfg@.on_color,
                off_color: cfg@.off_color,
                debug_lines: cfg@.debug,
            }),
    {
        Chip8::new(
            cfg.on_color,
            cfg.off_color,
            cfg.instructions_per_second,
            cfg.breakpoints,
            cfg.debug,
        )
    }

    /// Puts the interpreter back in its start-up state. The debugger's
    /// controls, the breakpoints and the colours stay as they are.
    pub fn reset_state(&mut self)
        ensures
            final(self)@ == old(self)@.with_cpu(initial_cpu()).with_keypad(released_keypad()),
    {
        self.memory = initial_memory_array();
        self.var_regs = [0; 16];
        self.idx_reg = 0;
        self.stack = Vec::new();
        self.pc = 0x200;
        self.delay_timer = 0;
        self.sound_timer = 0;
        self.keypad = [false; 16];
        self.display.clear();
        assert(self@.cpu.regs =~= initial_cpu().regs);
        assert(self@.keypad =~= released_keypad());
    }

    /// Copies a program into memory from `0x200` on. Bytes that do not fit
    /// are left out; returns how many were copied.
    pub fn load_rom(&mut self, rom: &[u8]) -> (copied: usize)
        ensures
            copied == (if rom@.len() < 0xE00 { rom@.len() } else { 0xE00 }),
            final(self)@ == old(self)@.with_cpu(
                CpuState {
                    memory: loaded_memory(old(self)@.cpu.memory, rom@),
                    ..old(self)@.cpu
                },
            ),
    {
        let n: usize = if rom.len() < 0xE00 { rom.len() } else { 0xE00 };
        let mut memory = self.memory;
        let ghost m0 = self.memory@;
        let mut k: usize = 0;
        while k < n
            invariant
                k <= n,
                n <= rom@.len(),
                n <= 0xE00,
                m0.len() == 4096,
                forall|j: int| 0 <= j < 4096 ==> memory@[j] == (if 0x200 <= j < 0x200 + k {
                    rom@[j - 0x200]
                } else {
                    m0[j]
                }),
            decreases n - k,
        {
            memory[0x200 + k] = rom[k];
            k += 1;
        }
        self.memory = memory;
        assert(self.memory@ =~= loaded_memory(m0, rom@));
        n
    }

    /// Reads the opcode at the program counter and moves the program counter
    /// past it; `None`, and nothing changed, where the opcode would run past
    /// the end of memory.
    pub fn fetch_opcode(&mut self) -> (op: Option<u16>)
        ensures
            can_fetch(old(self)@.cpu) ==> op == Some(fetched_op(old(self)@.cpu)) && final(self)@
                == old(self)@.with_cpu(advance_pc(old(self)@.cpu)),
            !can_fetch(old(self)@.cpu) ==> op is None && final(self)@ == old(self)@,
    {
        if self.pc as usize >= 4096 {
            return None;
        }
        let upper = self.memory[self.pc as usize];
        if self.pc as usize + 1 >= 4096 {
            return None;
        }
        let lower = self.memory[self.pc as usize + 1];
        self.pc += 2;
        proof {
            lemma_opcode_bytes(upper, lower);
        }
        Some(((upper as u16) << 8) | (lower as u16))
    }
}

impl Chip8 {
    /// Executes one opcode, with `random` as the byte that `CXNN` masks. The
    /// program counter is taken to point past the opcode already.
    pub fn execute_with_random(&mut self, op_code: u16, random: u8) -> (effect: Effect)
        requires
            !execute_panics(old(self)@.cpu, op_code),
        ensures
            final(self)@ == old(self)@.with_cpu(execute(old(self)@.cpu, op_code, random)),
            effect == effect_of(op_code),
    {
        proof {
            lemma_nibbles(op_code);
        }
        let nib1 = (op_code & 0xF000) >> 12;
        if nib1 <= 0x5 || nib1 == 0x9 || nib1 == 0xB {
            self.execute_control(op_code, random)
        } else {
            self.execute_data(op_code, random)
        }
    }

    /// The opcodes that move the program counter or the stack: `0NNN` to
    /// `5XYN`, `9XYN` and `BNNN`.
    fn execute_control(&mut self, op_code: u16, random: u8) -> (effect: Effect)
        requires
            !execute_panics(old(self)@.cpu, op_code),
            op_nib1(op_code) <= 0x5 || op_nib1(op_code) == 0x9 || op_nib1(op_code) == 0xB,
        ensures
            final(self)@ == old(self)@.with_cpu(execute(old(self)@.cpu, op_code, random)),
            effect == effect_of(op_code),
    {
        proof {
            lemma_nibbles(op_code);
        }
        let nib1 = (op_code & 0xF000) >> 12;
        let nib2 = (op_code & 0x0F00) >> 8;
        let nib3 = (op_code & 0x00F0) >> 4;
        let nib4 = op_code & 0x000F;
        let x = nib2 as usize;
        let y = nib3 as usize;
        let nn = (op_code & 0x00FF) as u8;
        let nnn = op_code & 0x0FFF;

        if nib1 == 0x0 && nib2 == 0x0 && nib3 == 0xE && nib4 == 0x0 {
            // 00E0: clear the screen
            self.display.clear();
            return Effect::Redraw;
        } else if nib1 == 0x0 && nib2 == 0x0 && nib3 == 0xE && nib4 == 0xE {
            // 00EE: return from a subroutine
            let ghost st = self.stack@;
            match self.stack.pop() {
                Some(addr) => {
                    self.pc = addr;
                },
                None => {},
            }
            assert(self.stack@ =~= st.drop_last());
        } else if nib1 == 0x1 {
            // 1NNN: jump
            self.pc = nnn;
        } else if nib1 == 0x2 {
            // 2NNN: call a subroutine
            self.stack.push(self.pc);
            self.pc = nnn;
        } else if nib1 == 0x3 {
            // 3XNN: skip if VX == NN
            if self.var_regs[x] == nn {
                self.pc = self.pc.wrapping_add(2);
            }
        } else if nib1 == 0x4 {
            // 4XNN: skip if VX != NN
            if self.var_regs[x] != nn {
                self.pc = self.pc.wrapping_add(2);
            }
        } else if nib1 == 0x5 && nib4 == 0x0 {
            // 5XY0: skip if VX == VY
            if self.var_regs[x] == self.var_regs[y] {
                self.pc = self.pc.wrapping_add(2);
            }
        } else if nib1 == 0x9 && nib4 == 0x0 {
            // 9XY0: skip if VX != VY
            if self.var_regs[x] != self.var_regs[y] {
                self.pc = self.pc.wrapping_add(2);
            }
        } else if nib1 == 0xB {
            // BNNN: jump to NNN + V0
            self.pc = self.var_regs[0x0] as u16 + nnn;
        } else {
            return Effect::Unknown;
        }
        Effect::Nothing
    }

    /// The opcodes that work on registers, memory and the screen: `6XNN` to
    /// `8XYN` and `AXNN` to `FXNN`.
    fn execute_data(&mut self, op_code: u16, random: u8) -> (effect: Effect)
        requires
            !execute_panics(old(self)@.cpu, op_code),
            !(op_nib1(op_code) <= 0x5 || op_nib1(op_code) == 0x9 || op_nib1(op_code) == 0xB),
        ensures
            final(self)@ == old(self)@.with_cpu(execute(old(self)@.cpu, op_code, random)),
            effect == effect_of(op_code),
    {
        proof {
            lemma_nibbles(op_code);
        }
        let nib1 = (op_code & 0xF000) >> 12;
        if nib1 <= 0xC {
            self.execute_registers(op_code, random)
        } else {
            self.execute_memory(op_code, random)
        }
    }

    /// `6XNN`, `7XNN`, `8XYN`, `ANNN` and `CXNN`.
    #[verifier::rlimit(20)]
    fn execute_registers(&mut self, op_code: u16, random: u8) -> (effect: Effect)
        requires
            !execute_panics(old(self)@.cpu, op_code),
            op_nib1(op_code) == 0x6 || op_nib1(op_code) == 0x7 || op_nib1(op_code) == 0x8
                || op_nib1(op_code) == 0xA || op_nib1(op_code) == 0xC,
        ensures
            final(self)@ == old(self)@.with_cpu(execute(old(self)@.cpu, op_code, random)),
            effect == effect_of(op_code),
    {
        proof {
            lemma_nibbles(op_code);
        }
        let nib1 = (op_code & 0xF000) >> 12;
        let nib2 = (op_code & 0x0F00) >> 8;
        let nib3 = (op_code & 0x00F0) >> 4;
        let nib4 = op_code & 0x000F;
        let x = nib2 as usize;
        let y = nib3 as usize;
        let nn = (op_code & 0x00FF) as u8;
        let nnn = op_code & 0x0FFF;

        if nib1 == 0x6 {
            // 6XNN: set VX
            self.var_regs[x] = nn;
        } else if nib1 == 0x7 {
            // 7XNN: add to VX, without carry
            self.var_regs[x] = self.var_regs[x].wrapping_add(nn);
        } else if nib1 == 0x8 {
            // 8XYN: arithmetic and logic, VF as flag
            self.alu(x, y, nib4);
        } else if nib1 == 0xA {
            // ANNN: set I
            self.idx_reg = nnn;
        } else if nib1 == 0xC {
            // CXNN: random byte masked with NN
            self.var_regs[x] = random & nn;
        } else {
            return Effect::Unknown;
        }
        Effect::Nothing
    }

    /// `DXYN`, `EXNN` and `FXNN`.
    #[verifier::rlimit(20)]
    fn execute_memory(&mut self, op_code: u16, random: u8) -> (effect: Effect)
        requires
            !execute_panics(old(self)@.cpu, op_code),
            op_nib1(op_code) >= 0xD,
        ensures
            final(self)@ == old(self)@.with_cpu(execute(old(self)@.cpu, op_code, random)),
            effect == effect_of(op_code),
    {
        proof {
            lemma_nibbles(op_code);
        }
        let nib1 = (op_code & 0xF000) >> 12;
        let nib2 = (op_code & 0x0F00) >> 8;
        let nib3 = (op_code & 0x00F0) >> 4;
        let nib4 = op_code & 0x000F;
        let x = nib2 as usize;
        let y = nib3 as usize;
        let nn = (op_code & 0x00FF) as u8;
        let nnn = op_code & 0x0FFF;

        if nib1 == 0xD {
            // DXYN: draw a sprite
            let screen_x = self.var_regs[x] as usize;
            let screen_y = self.var_regs[y] as usize;
            let mut buff = self.display.buff;
            let collided = draw_sprite(
                &mut buff,
                &self.memory,
                self.idx_reg,
                screen_x,
                screen_y,
                nib4 as usize,
            );
            self.display.buff = buff;
            self.var_regs[0xF] = if collided {
                1
            } else {
                0
            };
            return Effect::Redraw;
        } else if nib1 == 0xF && nib3 == 0x1 && nib4 == 0xE {
            // FX1E: add VX to I
            self.idx_reg = self.idx_reg.wrapping_add(self.var_regs[x] as u16);
        } else if nib1 == 0xF && nib3 == 0x3 && nib4 == 0x3 {
            // FX33: binary-coded decimal of VX at I
            let vx = self.var_regs[x];
            let idx = self.idx_reg as usize;
            self.memory[idx] = vx / 100;
            self.memory[idx + 1] = (vx / 10) % 10;
            self.memory[idx + 2] = vx % 10;
        } else if nib1 == 0xF && nib3 == 0x5 && nib4 == 0x5 {
            // FX55: store V0 to VX at I
            self.store_registers(x);
        } else if nib1 == 0xF && nib3 == 0x6 && nib4 == 0x5 {
            // FX65: load V0 to VX from I
            self.load_registers(x);
        } else if nib1 == 0xE && (nib3 == 0x9 && nib4 == 0xE || nib3 == 0xA && nib4 == 0x1) {
            // EX9E, EXA1: key skips, not implemented
        } else if nib1 == 0xF && (nib3 == 0x0 && nib4 == 0x7 || nib3 == 0x0 && nib4 == 0xA
            || nib3 == 0x1 && nib4 == 0x5 || nib3 == 0x1 && nib4 == 0x8 || nib3 == 0x2 && nib4
            == 0x9) {
            // FX07, FX0A, FX15, FX18, FX29: not implemented
        } else {
            return Effect::Unknown;
        }
        Effect::Nothing
    }

    /// `8XYN` on the registers.
    fn alu(&mut self, x: usize, y: usize, n: u16)
        requires
            x < 16,
            y < 16,
            n < 16,
        ensures
            final(self)@ == old(self)@.with_cpu(
                CpuState {
                    regs: old(self)@.cpu.regs.update(
                        x as int,
                        alu_result(old(self)@.cpu.regs[x as int], old(self)@.cpu.regs[y as int], n as int),
                    ).update(
                        15,
                        alu_flag(
                            old(self)@.cpu.regs[x as int],
                            old(self)@.cpu.regs[y as int],
                            old(self)@.cpu.regs[15],
                            n as int,
                        ),
                    ),
                    ..old(self)@.cpu
                },
            ),
    {
        let (res, flag) = alu_values(self.var_regs[x], self.var_regs[y], self.var_regs[0xF], n);
        self.var_regs[x] = res;
        self.var_regs[0xF] = flag;
    }

    /// `FX55`: `V0` to `VX` into memory from `I` on.
    fn store_registers(&mut self, x: usize)
        requires
            x < 16,
            old(self).idx_reg + x < 4096,
        ensures
            final(self)@ == old(self)@.with_cpu(crate::machine::store_regs(old(self)@.cpu, x as int)),
    {
        let start = self.idx_reg as usize;
        let mut memory = self.memory;
        let ghost m0 = self.memory@;
        let mut k: usize = 0;
        while k <= x
            invariant
                k <= x + 1,
                x < 16,
                start + x < 4096,
                m0.len() == 4096,
                self.var_regs@.len() == 16,
                forall|j: int| 0 <= j < 4096 ==> memory@[j] == (if start <= j < start + k {
                    self.var_regs@[j - start]
                } else {
                    m0[j]
                }),
            decreases x + 1 - k,
        {
            memory[start + k] = self.var_regs[k];
            k += 1;
        }
        self.memory = memory;
        assert(self.memory@ =~= crate::machine::store_regs(old(self)@.cpu, x as int).memory);
    }

    /// `FX65`: `V0` to `VX` from memory from `I` on.
    fn load_registers(&mut self, x: usize)
        requires
            x < 16,
            old(self).idx_reg + x < 4096,
        ensures
            final(self)@ == old(self)@.with_cpu(crate::machine::load_regs(old(self)@.cpu, x as int)),
    {
        let start = self.idx_reg as usize;
        let mut regs = self.var_regs;
        let ghost r0 = self.var_regs@;
        let mut k: usize = 0;
        while k <= x
            invariant
                k <= x + 1,
                x < 16,
                start + x < 4096,
                r0.len() == 16,
                self.memory@.len() == 4096,
                forall|j: int| 0 <= j < 16 ==> regs@[j] == (if j < k {
                    self.memory@[start + j]
                } else {
                    r0[j]
                }),
            decreases x + 1 - k,
        {
            regs[k] = self.memory[start + k];
            k += 1;
        }
        self.var_regs = regs;
        assert(self.var_regs@ =~= crate::machine::load_regs(old(self)@.cpu, x as int).regs);
    }
}

/// The error with which the interpreter stops when the program counter runs
/// off the end of memory.
pub open spec fn end_of_program_message() -> Seq<char> {
    "Reached end of file; Terminating"@
}

/// What an instruction cycle did: the opcode it ran and what the host has to
/// do about it.
#[derive(Debug, Clone, Copy, PartialEq, Eq, Structural)]
pub struct Step {
    pub op_code: u16,
    pub effect: Effect,
}

/// `after` and `res` are what an instruction cycle makes of `before`. Where
/// the opcode is `CXNN` the random byte it used is not fixed; where no byte
/// could be had, the opcode was fetched and nothing else happened.
pub open spec fn instruction_cycle(
    before: Chip8View,
    after: Chip8View,
    res: Result<Step, String>,
) -> bool {
    if can_fetch(before.cpu) {
        let op = fetched_op(before.cpu);
        match res {
            Ok(s) => {
                &&& s.op_code == op
                &&& if s.effect == Effect::NoRandom {
                    &&& op_nib1(op) == 0xC
                    &&& after == before.with_cpu(advance_pc(before.cpu))
                } else {
                    &&& s.effect == effect_of(op)
                    &&& exists|r: u8| after == before.with_cpu(#[trigger] step(before.cpu, r))
                    &&& op_nib1(op) != 0xC ==> after == before.with_cpu(step(before.cpu, 0))
                }
            },
            Err(_) => false,
        }
    } else {
        &&& res matches Err(e) && e@ == end_of_program_message()
        &&& after == before
    }
}

impl Chip8 {
    /// Executes one opcode; the byte that `CXNN` masks comes from the
    /// system's random source. The program counter is taken to point past the
    /// opcode already. Where `CXNN` gets no byte, nothing changes and the
    /// effect is `NoRandom`.
    pub fn execute_opcode(&mut self, op_code: u16) -> (effect: Effect)
        requires
            !execute_panics(old(self)@.cpu, op_code),
        ensures
            effect == Effect::NoRandom ==> op_nib1(op_code) == 0xC && final(self)@ == old(self)@,
            effect != Effect::NoRandom ==> effect == effect_of(op_code) && exists|r: u8|
                final(self)@ == old(self)@.with_cpu(#[trigger] execute(old(self)@.cpu, op_code, r)),
            op_nib1(op_code) != 0xC ==> effect == effect_of(op_code) && final(self)@
                == old(self)@.with_cpu(execute(old(self)@.cpu, op_code, 0)),
    {
        proof {
            lemma_nibbles(op_code);
        }
        let random = if (op_code & 0xF000) >> 12 == 0xC {
            match try_random_byte() {
                Some(b) => b,
                None => {
                    return Effect::NoRandom;
                },
            }
        } else {
            0
        };
        let effect = self.execute_with_random(op_code, random);
        assert(self@ == old(self)@.with_cpu(execute(old(self)@.cpu, op_code, random)));
        effect
    }

    /// One instruction cycle: fetches the opcode at the program counter,
    /// executes it, then ticks both timers down. Fails, changing nothing, when
    /// the opcode would lie past the end of memory.
    pub fn run_next_instruction(&mut self) -> (res: Result<Step, String>)
        requires
            !step_panics(old(self)@.cpu),
        ensures
            instruction_cycle(old(self)@, final(self)@, res),
    {
        let op_code = self.fetch_opcode();
        match op_code {
            None => {
                let msg = "Reached end of file; Terminating";
                proof {
                    reveal_strlit("Reached end of file; Terminating");
                }
                Err(msg.to_string())
            },
            Some(op) => {
                let ghost mid = self@;
                let effect = self.execute_opcode(op);
                let ghost exec_done = self@;
                if matches!(effect, Effect::NoRandom) {
                    return Ok(Step { op_code: op, effect });
                }
                if self.delay_timer > 0 {
                    self.delay_timer -= 1;
                }
                if self.sound_timer > 0 {
                    self.sound_timer -= 1;
                }
                proof {
                    let r = choose|r: u8| exec_done == mid.with_cpu(#[trigger] execute(mid.cpu, op, r));
                    assert(self@ == old(self)@.with_cpu(step(old(self)@.cpu, r)));
                }
                Ok(Step { op_code: op, effect })
            },
        }
    }
}

impl Chip8 {
    /// Reacts to one event of the host window: keypad keys are held down and
    /// released, `Space` pauses and resumes, `N` runs one instruction while
    /// paused, `Tab` switches debug mode, `Backspace` requests a reset, and
    /// quitting or `Escape` ends the main loop.
    pub fn handle_event(&mut self, event: HostEvent) -> (r: Reaction)
        requires
            event_allowed(old(self)@, event),
        ensures
            event_outcome(old(self)@, event, final(self)@, r),
    {
        match event {
            HostEvent::Quit => Reaction { quit: true, keypad_changed: false, step: None, repaint: false },
            HostEvent::KeyDown { key, keypad } => {
                if matches!(key, HostKey::Escape) {
                    return Reaction { quit: true, keypad_changed: false, step: None, repaint: false };
                }
                let mut keypad_changed = false;
                if let Some(k) = keypad {
                    self.keypad[k as usize] = true;
                    keypad_changed = true;
                }
                if matches!(key, HostKey::Space) {
                    self.paused = !self.paused;
                }
                if self.paused && matches!(key, HostKey::N) {
                    let res = self.run_next_instruction();
                    let quit = res.is_err();
                    return Reaction { quit, keypad_changed, step: Some(res), repaint: false };
                }
                let mut repaint = false;
                if matches!(key, HostKey::Tab) {
                    self.debug = !self.debug;
                    self.display.debug_lines = !self.display.debug_lines;
                    repaint = true;
                }
                if matches!(key, HostKey::Backspace) {
                    self.reset = true;
                }
                Reaction { quit: false, keypad_changed, step: None, repaint }
            },
            HostEvent::KeyUp { keypad } => {
                let mut keypad_changed = false;
                if let Some(k) = keypad {
                    self.keypad[k as usize] = false;
                    keypad_changed = true;
                }
                Reaction { quit: false, keypad_changed, step: None, repaint: false }
            },
            HostEvent::Other => Reaction { quit: false, keypad_changed: false, step: None, repaint: false },
        }
    }

    /// At the start of a frame: where the program counter is at a breakpoint,
    /// pauses and drops that breakpoint, so that it fires once.
    pub fn check_breakpoint(&mut self)
        ensures
            final(self)@ == breakpoint_check(old(self)@),
    {
        let pc = self.pc;
        if self.breakpoints.contains(&pc) {
            self.paused = true;
            self.breakpoints.remove(&pc);
        }
    }

    /// After the events of a frame: runs one instruction cycle unless paused.
    pub fn advance(&mut self) -> (res: Option<Result<Step, String>>)
        requires
            !old(self)@.paused ==> !step_panics(old(self)@.cpu),
        ensures
            advance_outcome(old(self)@, final(self)@, res),
    {
        if self.paused {
            None
        } else {
            Some(self.run_next_instruction())
        }
    }

    /// Carries out a requested reset: back to the start-up state with the
    /// program loaded again, paused, and the request cleared. Returns how many
    /// bytes of the program were loaded.
    pub fn restart(&mut self, rom: &[u8]) -> (copied: usize)
        ensures
            copied == (if rom@.len() < 0xE00 { rom@.len() } else { 0xE00 }),
            final(self)@ == (Chip8View {
                cpu: CpuState { memory: loaded_memory(initial_memory(), rom@), ..initial_cpu() },
                keypad: released_keypad(),
                paused: true,
                reset: false,
                ..old(self)@
            }),
    {
        self.reset_state();
        let copied = self.load_rom(rom);
        self.paused = true;
        self.reset = false;
        copied
    }

    /// The opcode that the next instruction cycle would run, where it can
    /// fetch one.
    pub fn peek_opcode(&self) -> (op: Option<u16>)
        ensures
            can_fetch(self@.cpu) ==> op == Some(fetched_op(self@.cpu)),
            !can_fetch(self@.cpu) ==> op is None,
    {
        if self.pc as usize + 1 >= 4096 {
            return None;
        }
        let upper = self.memory[self.pc as usize];
        let lower = self.memory[self.pc as usize + 1];
        proof {
            lemma_opcode_bytes(upper, lower);
        }
        Some(((upper as u16) << 8) | (lower as u16))
    }

    /// How long one instruction cycle should take, in milliseconds.
    pub fn instruction_delay_msec(&self) -> (ms: u64)
        requires
            self@.instructions_per_second > 0,
        ensures
            ms == 1000int / (self@.instructions_per_second as int),
    {
        1000 / self.instructions_per_second as u64
    }

    /// Whether the next instruction cycle would fail: a return with an empty
    /// stack, or a memory access past the end of memory.
    pub fn next_step_panics(&self) -> (b: bool)
        ensures
            b == step_panics(self@.cpu),
    {
        if self.pc as usize + 1 >= 4096 {
            return false;
        }
        let upper = self.memory[self.pc as usize];
        let lower = self.memory[self.pc as usize + 1];
        proof {
            lemma_opcode_bytes(upper, lower);
        }
        let op = ((upper as u16) << 8) | (lower as u16);
        proof {
            lemma_nibbles(op);
        }
        let nib1 = (op & 0xF000) >> 12;
        let nib2 = (op & 0x0F00) >> 8;
        let nib3 = (op & 0x00F0) >> 4;
        let nib4 = op & 0x000F;
        let idx = self.idx_reg as usize;
        if nib1 == 0x0 && nib2 == 0x0 && nib3 == 0xE && nib4 == 0xE {
            self.stack.len() == 0
        } else if nib1 == 0xD {
            let sy = self.var_regs[nib3 as usize] as usize;
            let h = nib4 as usize;
            let rows: usize = if sy >= 32 {
                0
            } else if h < 32 - sy {
                h
            } else {
                32 - sy
            };
            let b = rows > 0 && idx + rows - 1 >= 4096;
            proof {
                if b {
                    assert(sprite_row(idx as int, rows - 1) >= 4096);
                } else {
                    assert forall|r: int| 0 <= r < h && sy + r < 32 implies #[trigger] sprite_row(
                        idx as int,
                        r,
                    ) < 4096 by {
                        assert(r < rows);
                    }
                }
            }
            b
        } else if nib1 == 0xF && nib3 == 0x3 && nib4 == 0x3 {
            idx + 2 >= 4096
        } else if nib1 == 0xF && (nib3 == 0x5 || nib3 == 0x6) && nib4 == 0x5 {
            idx + nib2 as usize >= 4096
        } else {
            false
        }
    }
}

impl Chip8 {
    /// The program counter.
    pub fn pc(&self) -> (r: u16)
        ensures
            r == self@.cpu.pc,
    {
        self.pc
    }

    /// The index register `I`.
    pub fn idx_reg(&self) -> (r: u16)
        ensures
            r == self@.cpu.index,
    {
        self.idx_reg
    }

    /// The variable registers `V0` to `VF`.
    pub fn var_regs(&self) -> (r: &[u8; 16])
        ensures
            r@ == self@.cpu.regs,
    {
        &self.var_regs
    }

    /// The memory.
    pub fn memory(&self) -> (r: &[u8; 4096])
        ensures
            r@ == self@.cpu.memory,
    {
        &self.memory
    }

    /// The return addresses on the stack, innermost last.
    pub fn stack(&self) -> (r: &Vec<u16>)
        ensures
            r@ == self@.cpu.stack,
    {
        &self.stack
    }

    pub fn delay_timer(&self) -> (r: u8)
        ensures
            r == self@.cpu.delay_timer,
    {
        self.delay_timer
    }

    pub fn sound_timer(&self) -> (r: u8)
        ensures
            r == self@.cpu.sound_timer,
    {
        self.sound_timer
    }

    /// Which keypad keys are held down.
    pub fn keypad(&self) -> (r: &[bool; 16])
        ensures
            r@ == self@.keypad,
    {
        &self.keypad
    }

    /// The screen and its colours.
    pub fn display(&self) -> (r: &C8Display)
        ensures
            r.buff@ == self@.cpu.screen,
            r.on_color == self@.on_color,
            r.off_color == self@.off_color,
            r.debug_lines == self@.debug_lines,
    {
        &self.display
    }

    pub fn instructions_per_second(&self) -> (r: u32)
        ensures
            r == self@.instructions_per_second,
    {
        self.instructions_per_second
    }

    /// Sets the speed of the interpreter.
    pub fn set_instructions_per_second(&mut self, ips: u32)
        ensures
            final(self)@ == (Chip8View { instructions_per_second: ips, ..old(self)@ }),
    {
        self.instructions_per_second = ips;
    }

    pub fn debug(&self) -> (r: bool)
        ensures
            r == self@.debug,
    {
        self.debug
    }

    pub fn paused(&self) -> (r: bool)
        ensures
            r == self@.paused,
    {
        self.paused
    }

    /// The breakpoints that have not fired yet.
    pub fn breakpoints(&self) -> (r: &HashSet<u16>)
        ensures
            r@ == self@.breakpoints,
    {
        &self.breakpoints
    }

    /// Whether a reset was requested.
    pub fn reset_requested(&self) -> (r: bool)
        ensures
            r == self@.reset,
    {
        self.reset
    }

    /// Requests a reset, carried out at the end of the frame.
    pub fn request_reset(&mut self)
        ensures
            final(self)@ == (Chip8View { reset: true, ..old(self)@ }),
    {
        self.reset = true;
    }
}

/// Memory with a program copied in from `0x200` on, as much as fits.
pub open spec fn loaded_memory(memory: Seq<u8>, rom: Seq<u8>) -> Seq<u8> {
    Seq::new(
        memory.len(),
        |j: int| if 0x200 <= j < 0x200 + rom.len() && j < 0x1000 { rom[j - 0x200] } else { memory[j] },
    )
}

impl Chip8View {
    /// The same view with another keypad.
    pub open spec fn with_keypad(self, k: Seq<bool>) -> Chip8View {
        Chip8View { keypad: k, ..self }
    }
}

} // verus!
