//! What each opcode does, stated over the registers, memory, stack and
//! screen before and after it, with the opcode built from its fields.

use vstd::prelude::*;

use crate::instructions::{op_nib1, op_nib2, op_nib3, op_nib4, op_nn, op_nnn};
use crate::display::pixel_index;
use crate::machine::{cpu_wf, execute, execute_panics, step, CpuState};

verus! {

/// The opcode with first nibble `a`, then `x`, `y` and `n`.
pub open spec fn opcode(a: u16, x: u16, y: u16, n: u16) -> u16 {
    (a * 0x1000 + x * 0x100 + y * 0x10 + n) as u16
}

/// The fields of an opcode built from its nibbles are those nibbles.
pub proof fn lemma_opcode_fields(a: u16, x: u16, y: u16, n: u16)
    requires
        a < 16,
        x < 16,
        y < 16,
        n < 16,
    ensures
        op_nib1(opcode(a, x, y, n)) == a,
        op_nib2(opcode(a, x, y, n)) == x,
        op_nib3(opcode(a, x, y, n)) == y,
        op_nib4(opcode(a, x, y, n)) == n,
        op_nn(opcode(a, x, y, n)) == y * 0x10 + n,
        op_nnn(opcode(a, x, y, n)) == x * 0x100 + y * 0x10 + n,
{
    let v = a * 0x1000 + x * 0x100 + y * 0x10 + n;
    assert(v / 0x1000 == a && (v / 0x100) % 0x10 == x && (v / 0x10) % 0x10 == y && v % 0x10 == n
        && v % 0x100 == y * 0x10 + n && v % 0x1000 == x * 0x100 + y * 0x10 + n)
        by (nonlinear_arith)
        requires
            v == a * 0x1000 + x * 0x100 + y * 0x10 + n,
            a < 16,
            x < 16,
            y < 16,
            n < 16,
    ;
    assert(0 <= v <= 0xFFFF) by (nonlinear_arith)
        requires
            v == a * 0x1000 + x * 0x100 + y * 0x10 + n,
            a < 16,
            x < 16,
            y < 16,
            n < 16,
    ;
}

/// `DXYN` sets `VF` to 1 exactly when drawing turned off a pixel that was on,
/// and to 0 otherwise, whatever `VF` held before; drawing on a blank screen
/// always leaves `VF` at 0.
pub proof fn lemma_draw_flag(c: CpuState, x: u16, y: u16, n: u16, rnd: u8)
    requires
        cpu_wf(c),
        x < 16,
        y < 16,
        n < 16,
        !execute_panics(c, opcode(0xD, x, y, n)),
    ensures
        ({
            let e = execute(c, opcode(0xD, x, y, n), rnd);
            &&& e.regs[15] == 1 <==> exists|p: int| 0 <= p < 2048 && c.screen[p] && !e.screen[p]
            &&& e.regs[15] == 0 || e.regs[15] == 1
            &&& (forall|p: int| 0 <= p < 2048 ==> !c.screen[p]) ==> e.regs[15] == 0
        }),
{
    lemma_opcode_fields(0xD, x, y, n);
    let op = opcode(0xD, x, y, n);
    let e = execute(c, op, rnd);
    let sx = c.regs[x as int] as int;
    let sy = c.regs[y as int] as int;
    let i = c.index as int;
    if e.regs[15] == 1 {
        let p = choose|p: int|
            0 <= p < 2048 && #[trigger] crate::machine::sprite_covers(c.memory, i, sx, sy, n as int, p)
                && c.screen[p];
        assert(c.screen[p] && !e.screen[p]);
    }
    if exists|p: int| 0 <= p < 2048 && c.screen[p] && !e.screen[p] {
        let p = choose|p: int| 0 <= p < 2048 && c.screen[p] && !e.screen[p];
        assert(crate::machine::sprite_covers(c.memory, i, sx, sy, n as int, p));
    }
}

/// `8XY6` (with `X` other than `F`) halves `VX`; `VF` gets the bit shifted
/// out, so that `2 * VX' + VF' == VX`.
pub proof fn lemma_shift_right(c: CpuState, x: u16, y: u16, rnd: u8)
    requires
        cpu_wf(c),
        x < 15,
        y < 16,
    ensures
        ({
            let r = execute(c, opcode(0x8, x, y, 0x6), rnd).regs;
            &&& 2 * r[x as int] + r[15] == c.regs[x as int]
            &&& r[15] <= 1
        }),
{
    lemma_opcode_fields(0x8, x, y, 0x6);
}

/// `8XYE` (with `X` other than `F`) doubles `VX` modulo 256; `VF` gets the
/// bit shifted out, so that `VX' + 256 * VF' == 2 * VX`.
pub proof fn lemma_shift_left(c: CpuState, x: u16, y: u16, rnd: u8)
    requires
        cpu_wf(c),
        x < 15,
        y < 16,
    ensures
        ({
            let r = execute(c, opcode(0x8, x, y, 0xE), rnd).regs;
            &&& r[x as int] + 256 * r[15] == 2 * c.regs[x as int]
            &&& r[15] <= 1
        }),
{
    lemma_opcode_fields(0x8, x, y, 0xE);
}

/// `FX1E` adds `VX` to `I`, modulo `0x10000`, and changes nothing else.
pub proof fn lemma_add_to_index(c: CpuState, x: u16, rnd: u8)
    requires
        x < 16,
    ensures
        ({
            let e = execute(c, opcode(0xF, x, 0x1, 0xE), rnd);
            &&& e.index as int == (c.index + c.regs[x as int]) % 0x10000
            &&& e.regs == c.regs && e.memory == c.memory && e.pc == c.pc
        }),
{
    lemma_opcode_fields(0xF, x, 0x1, 0xE);
}

/// `5XY0` skips the next instruction exactly when `VX == VY`, and `9XY0`
/// exactly when they differ: of the two, exactly one skips.
pub proof fn lemma_register_skips(c: CpuState, x: u16, y: u16, rnd: u8)
    requires
        x < 16,
        y < 16,
    ensures
        ({
            let eq = execute(c, opcode(0x5, x, y, 0x0), rnd);
            let ne = execute(c, opcode(0x9, x, y, 0x0), rnd);
            let next = (c.pc + 2) % 0x10000;
            &&& eq.pc == (if c.regs[x as int] == c.regs[y as int] { next } else { c.pc as int })
            &&& ne.pc == (if c.regs[x as int] != c.regs[y as int] { next } else { c.pc as int })
            &&& eq.regs == c.regs && ne.regs == c.regs
        }),
{
    lemma_opcode_fields(0x5, x, y, 0x0);
    lemma_opcode_fields(0x9, x, y, 0x0);
}

/// `CXNN` sets `VX` to the random byte masked with `NN`; with `NN == 0xFF` it
/// sets `VX` to the byte itself.
pub proof fn lemma_random_mask(c: CpuState, x: u16, y: u16, n: u16, rnd: u8)
    requires
        cpu_wf(c),
        x < 16,
        y < 16,
        n < 16,
    ensures
        ({
            let e = execute(c, opcode(0xC, x, y, n), rnd);
            &&& e.regs[x as int] == rnd & ((y * 0x10 + n) as u8)
            &&& forall|j: int| 0 <= j < 16 && j != x ==> e.regs[j] == c.regs[j]
            &&& y == 0xF && n == 0xF ==> e.regs[x as int] == rnd
        }),
{
    lemma_opcode_fields(0xC, x, y, n);
    if y == 0xF && n == 0xF {
        assert(rnd & 0xFFu8 == rnd) by (bit_vector);
    }
}

/// `00E0` turns every pixel off and changes nothing else.
pub proof fn lemma_clear_screen(c: CpuState, rnd: u8)
    ensures
        ({
            let e = execute(c, 0x00E0, rnd);
            &&& e.screen.len() == 2048
            &&& forall|p: int| 0 <= p < 2048 ==> !e.screen[p]
            &&& e.regs == c.regs && e.memory == c.memory && e.pc == c.pc && e.stack == c.stack
                && e.index == c.index
        }),
{
    lemma_opcode_fields(0x0, 0x0, 0xE, 0x0);
    assert(opcode(0x0, 0x0, 0xE, 0x0) == 0x00E0);
}

/// `1NNN` jumps to `NNN`; `BNNN` jumps to `NNN + V0`.
pub proof fn lemma_jumps(c: CpuState, x: u16, y: u16, n: u16, rnd: u8)
    requires
        cpu_wf(c),
        x < 16,
        y < 16,
        n < 16,
    ensures
        execute(c, opcode(0x1, x, y, n), rnd).pc == x * 0x100 + y * 0x10 + n,
        execute(c, opcode(0xB, x, y, n), rnd).pc == c.regs[0] + x * 0x100 + y * 0x10 + n,
        execute(c, opcode(0x1, x, y, n), rnd).stack == c.stack,
        execute(c, opcode(0xB, x, y, n), rnd).regs == c.regs,
{
    lemma_opcode_fields(0x1, x, y, n);
    lemma_opcode_fields(0xB, x, y, n);
}

/// `2NNN` pushes the address of the next instruction and jumps to `NNN`;
/// `00EE` pops that address back into the program counter.
pub proof fn lemma_call_and_return(c: CpuState, x: u16, y: u16, n: u16, rnd: u8)
    requires
        x < 16,
        y < 16,
        n < 16,
    ensures
        ({
            let called = execute(c, opcode(0x2, x, y, n), rnd);
            &&& called.pc == x * 0x100 + y * 0x10 + n
            &&& called.stack.len() == c.stack.len() + 1
            &&& called.stack.last() == c.pc
            &&& called.stack.drop_last() == c.stack
        }),
        c.stack.len() > 0 ==> ({
            let returned = execute(c, 0x00EE, rnd);
            &&& returned.pc == c.stack[c.stack.len() - 1]
            &&& returned.stack.len() == c.stack.len() - 1
            &&& forall|j: int| 0 <= j < returned.stack.len() ==> returned.stack[j] == c.stack[j]
        }),
{
    lemma_opcode_fields(0x2, x, y, n);
    lemma_opcode_fields(0x0, 0x0, 0xE, 0xE);
    assert(opcode(0x0, 0x0, 0xE, 0xE) == 0x00EE);
    assert(c.stack.push(c.pc).drop_last() =~= c.stack);
}

/// `3XNN` skips exactly when `VX == NN`, `4XNN` exactly when `VX != NN`.
pub proof fn lemma_byte_skips(c: CpuState, x: u16, y: u16, n: u16, rnd: u8)
    requires
        x < 16,
        y < 16,
        n < 16,
    ensures
        ({
            let eq = execute(c, opcode(0x3, x, y, n), rnd);
            let ne = execute(c, opcode(0x4, x, y, n), rnd);
            let next = (c.pc + 2) % 0x10000;
            let nn = y * 0x10 + n;
            &&& eq.pc == (if c.regs[x as int] == nn { next } else { c.pc as int })
            &&& ne.pc == (if c.regs[x as int] != nn { next } else { c.pc as int })
            &&& eq.regs == c.regs && ne.regs == c.regs
        }),
{
    lemma_opcode_fields(0x3, x, y, n);
    lemma_opcode_fields(0x4, x, y, n);
}

/// `6XNN` sets `VX` to `NN`; `7XNN` adds `NN` to `VX` modulo 256 and leaves
/// every other register, `VF` included, alone.
pub proof fn lemma_set_and_add(c: CpuState, x: u16, y: u16, n: u16, rnd: u8)
    requires
        cpu_wf(c),
        x < 16,
        y < 16,
        n < 16,
    ensures
        ({
            let set = execute(c, opcode(0x6, x, y, n), rnd);
            let add = execute(c, opcode(0x7, x, y, n), rnd);
            let nn = y * 0x10 + n;
            &&& set.regs[x as int] == nn
            &&& add.regs[x as int] == (c.regs[x as int] + nn) % 256
            &&& forall|j: int| 0 <= j < 16 && j != x ==> set.regs[j] == c.regs[j] && add.regs[j]
                == c.regs[j]
            &&& set.pc == c.pc && add.pc == c.pc
        }),
{
    lemma_opcode_fields(0x6, x, y, n);
    lemma_opcode_fields(0x7, x, y, n);
}

/// `8XY0` to `8XY3` (with `X` other than `F`): copy, OR, AND and XOR of `VY`
/// into `VX`; `VF` and the other registers stay as they were.
pub proof fn lemma_register_logic(c: CpuState, x: u16, y: u16, rnd: u8)
    requires
        cpu_wf(c),
        x < 15,
        y < 16,
    ensures
        ({
            let vx = c.regs[x as int];
            let vy = c.regs[y as int];
            let mov = execute(c, opcode(0x8, x, y, 0x0), rnd).regs;
            let or = execute(c, opcode(0x8, x, y, 0x1), rnd).regs;
            let and = execute(c, opcode(0x8, x, y, 0x2), rnd).regs;
            let xor = execute(c, opcode(0x8, x, y, 0x3), rnd).regs;
            &&& mov[x as int] == vy
            &&& or[x as int] == vx | vy
            &&& and[x as int] == vx & vy
            &&& xor[x as int] == vx ^ vy
            &&& forall|j: int|
                0 <= j < 16 && j != x ==> mov[j] == c.regs[j] && or[j] == c.regs[j] && and[j]
                    == c.regs[j] && xor[j] == c.regs[j]
        }),
{
    lemma_opcode_fields(0x8, x, y, 0x0);
    lemma_opcode_fields(0x8, x, y, 0x1);
    lemma_opcode_fields(0x8, x, y, 0x2);
    lemma_opcode_fields(0x8, x, y, 0x3);
}

/// `8XY4`, `8XY5` and `8XY7` (with `X` other than `F`): the sum and the two
/// differences modulo 256, with `VF` the carry out of the sum and the
/// absence of a borrow in the differences.
pub proof fn lemma_register_arithmetic(c: CpuState, x: u16, y: u16, rnd: u8)
    requires
        cpu_wf(c),
        x < 15,
        y < 16,
    ensures
        ({
            let vx = c.regs[x as int] as int;
            let vy = c.regs[y as int] as int;
            let add = execute(c, opcode(0x8, x, y, 0x4), rnd).regs;
            let sub = execute(c, opcode(0x8, x, y, 0x5), rnd).regs;
            let subn = execute(c, opcode(0x8, x, y, 0x7), rnd).regs;
            &&& add[x as int] + 256 * add[15] == vx + vy && add[15] <= 1
            &&& sub[x as int] == vx - vy + 256 * (1 - sub[15]) && sub[15] <= 1
            &&& sub[15] == (if vx >= vy { 1int } else { 0 })
            &&& subn[x as int] == vy - vx + 256 * (1 - subn[15]) && subn[15] <= 1
            &&& subn[15] == (if vy >= vx { 1int } else { 0 })
        }),
{
    lemma_opcode_fields(0x8, x, y, 0x4);
    lemma_opcode_fields(0x8, x, y, 0x5);
    lemma_opcode_fields(0x8, x, y, 0x7);
}

/// `ANNN` sets `I` to `NNN` and changes nothing else.
pub proof fn lemma_set_index(c: CpuState, x: u16, y: u16, n: u16, rnd: u8)
    requires
        x < 16,
        y < 16,
        n < 16,
    ensures
        ({
            let e = execute(c, opcode(0xA, x, y, n), rnd);
            &&& e.index == x * 0x100 + y * 0x10 + n
            &&& e.regs == c.regs && e.memory == c.memory && e.pc == c.pc
        }),
{
    lemma_opcode_fields(0xA, x, y, n);
}

/// `FX55` copies `V0` to `VX` into memory from `I` on and touches no other
/// byte; `FX65` copies them back from there and touches no other register.
pub proof fn lemma_store_and_load_registers(c: CpuState, x: u16, rnd: u8)
    requires
        cpu_wf(c),
        x < 16,
        c.index + x < 4096,
    ensures
        ({
            let st = execute(c, opcode(0xF, x, 0x5, 0x5), rnd);
            let ld = execute(c, opcode(0xF, x, 0x6, 0x5), rnd);
            let i = c.index as int;
            &&& forall|j: int| 0 <= j <= x ==> st.memory[i + j] == c.regs[j]
            &&& forall|a: int| 0 <= a < 4096 && !(i <= a <= i + x) ==> st.memory[a] == c.memory[a]
            &&& st.regs == c.regs
            &&& forall|j: int| 0 <= j <= x ==> ld.regs[j] == c.memory[i + j]
            &&& forall|j: int| x < j < 16 ==> ld.regs[j] == c.regs[j]
            &&& ld.memory == c.memory
        }),
{
    lemma_opcode_fields(0xF, x, 0x5, 0x5);
    lemma_opcode_fields(0xF, x, 0x6, 0x5);
}

/// `FX33` writes the hundreds, tens and units digits of `VX` at `I`, `I + 1`
/// and `I + 2`, and touches no other byte.
pub proof fn lemma_decimal_digits(c: CpuState, x: u16, rnd: u8)
    requires
        cpu_wf(c),
        x < 16,
        c.index + 2 < 4096,
    ensures
        ({
            let m = execute(c, opcode(0xF, x, 0x3, 0x3), rnd).memory;
            let i = c.index as int;
            let v = c.regs[x as int] as int;
            &&& m[i] < 10 && m[i + 1] < 10 && m[i + 2] < 10
            &&& 100 * m[i] + 10 * m[i + 1] + m[i + 2] == v
            &&& forall|a: int| 0 <= a < 4096 && !(i <= a <= i + 2) ==> m[a] == c.memory[a]
        }),
{
    lemma_opcode_fields(0xF, x, 0x3, 0x3);
}

/// `DXYN` toggles the screen pixel at column `VX + c`, row `VY + r` exactly
/// when bit `7 - c` of the sprite byte at `I + r` is set, for every row
/// `r < N` and column `c < 8` on the screen; every other pixel keeps its
/// value.
pub proof fn lemma_draw_pixels(c: CpuState, x: u16, y: u16, n: u16, rnd: u8)
    requires
        cpu_wf(c),
        x < 16,
        y < 16,
        n < 16,
        !execute_panics(c, opcode(0xD, x, y, n)),
    ensures
        ({
            let e = execute(c, opcode(0xD, x, y, n), rnd);
            let sx = c.regs[x as int] as int;
            let sy = c.regs[y as int] as int;
            let i = c.index as int;
            &&& e.screen.len() == 2048
            &&& forall|r: int, col: int|
                0 <= r < n && 0 <= col < 8 && sy + r < 32 && sx + col < 64 ==> #[trigger] e.screen[pixel_index(
                    sx + col,
                    sy + r,
                )] == (c.screen[pixel_index(sx + col, sy + r)] != ((c.memory[i + r] >> ((7
                    - col) as u8)) & 1u8 == 1u8))
            &&& forall|p: int|
                0 <= p < 2048 && !(sx <= p % 64 < sx + 8 && sy <= p / 64 < sy + n) ==> e.screen[p]
                    == c.screen[p]
            &&& e.memory == c.memory && e.index == c.index && e.pc == c.pc
        }),
{
    lemma_opcode_fields(0xD, x, y, n);
    let sx = c.regs[x as int] as int;
    let sy = c.regs[y as int] as int;
    assert forall|r: int, col: int|
        0 <= r < n && 0 <= col < 8 && sy + r < 32 && sx + col < 64 implies (#[trigger] pixel_index(
        sx + col,
        sy + r,
    ) % 64 == sx + col && pixel_index(sx + col, sy + r) / 64 == sy + r && 0 <= pixel_index(
        sx + col,
        sy + r,
    ) < 2048) by {
        let p = pixel_index(sx + col, sy + r);
        assert(p % 64 == sx + col && p / 64 == sy + r && 0 <= p < 2048) by (nonlinear_arith)
            requires
                p == (sy + r) * 64 + sx + col,
                0 <= sx + col < 64,
                0 <= sy + r < 32,
        ;
    }
}

/// An instruction cycle runs the opcode whose high byte is at the program
/// counter and whose low byte follows it, with the program counter already
/// past it: a `6XNN` there sets `VX` to `NN` and moves on by two bytes.
pub proof fn lemma_step_fetches_big_endian(c: CpuState, rnd: u8)
    requires
        cpu_wf(c),
        c.pc + 1 < 4096,
        c.memory[c.pc as int] / 16 == 0x6,
    ensures
        step(c, rnd).regs[(c.memory[c.pc as int] % 16) as int] == c.memory[c.pc + 1],
        step(c, rnd).pc == c.pc + 2,
{
    let hi = c.memory[c.pc as int] as int;
    let lo = c.memory[c.pc + 1] as int;
    let op = (hi * 256 + lo) as u16;
    assert(op as int / 0x1000 == 6 && (op as int / 0x100) % 0x10 == hi % 16 && op as int % 0x100
        == lo) by (nonlinear_arith)
        requires
            op == hi * 256 + lo,
            0 <= lo < 256,
            hi / 16 == 6,
            0 <= hi < 256,
    ;
}

} // verus!
