//! Instruction semantics, stated over `MachineView`.
//!
//! `step` is the complete meaning of one invocation of `cycle`: it maps
//! the machine state before the cycle to the state after it, given the
//! byte the random source produced (which only the `Cxkk` instruction
//! reads).  `step_status` is what the cycle reports.  The executable
//! machine is verified against exactly these functions.
//!
//! Documented policy choices, each deterministic:
//! - Jump, call, return and skip instructions set the program counter to
//!   the architectural target directly; every other instruction advances
//!   it by two.
//! - An instruction whose pattern is undefined advances the program
//!   counter by two and changes nothing else.
//! - A return on an empty call stack, or an instruction that would touch
//!   memory outside the 4096-byte bank, leaves the machine unchanged and
//!   is reported through the cycle's status.
//! - Register arithmetic that defines a flag writes the data result
//!   first and the flag to `VF` last, so the flag wins when `x = 0xF`.
//! - The sprite anchor is reduced modulo the screen size; pixels that
//!   would fall past the right or bottom edge are clipped, not wrapped.
//! - A key-test instruction whose register holds a value above 0xF
//!   treats the key as not pressed.
//! - `Fx1E` wraps the address register at 16 bits.

use vstd::prelude::*;

use crate::decoder::{op_x, op_y, op_kk, op_nnn, op_n, op_top};
use crate::state::{MachineView, CycleStatus, MEM_SIZE};

verus! {

/// The instruction word fetched big-endian at the program counter.
pub open spec fn fetched_op(m: MachineView) -> u16 {
    (m.mem[m.pc as int] * 0x100 + m.mem[m.pc as int + 1]) as u16
}

/// Whether the word matches a defined instruction pattern.
pub open spec fn is_valid_op(op: u16) -> bool {
    let t = op_top(op);
    ||| op == 0x00E0
    ||| op == 0x00EE
    ||| t == 0x1
    ||| t == 0x2
    ||| t == 0x3
    ||| t == 0x4
    ||| (t == 0x5 && op_n(op) == 0)
    ||| t == 0x6
    ||| t == 0x7
    ||| (t == 0x8 && (op_n(op) <= 7 || op_n(op) == 0xE))
    ||| (t == 0x9 && op_n(op) == 0)
    ||| t == 0xA
    ||| t == 0xB
    ||| t == 0xC
    ||| t == 0xD
    ||| (t == 0xE && (op_kk(op) == 0x9E || op_kk(op) == 0xA1))
    ||| (t == 0xF && (op_kk(op) == 0x07 || op_kk(op) == 0x0A || op_kk(op) == 0x15
            || op_kk(op) == 0x18 || op_kk(op) == 0x1E || op_kk(op) == 0x29
            || op_kk(op) == 0x33 || op_kk(op) == 0x55 || op_kk(op) == 0x65))
}

/// A frame-buffer cell after an XOR with a set sprite bit.
pub open spec fn flip(c: u8) -> u8 {
    if c == 0 { 1 } else { 0 }
}

/// Whether bit `dx` (most significant first) of a sprite row byte is set.
pub open spec fn sprite_bit_set(row: u8, dx: u8) -> bool {
    row & (0x80u8 >> dx) != 0
}

/// Whether cell `p` of the frame buffer is toggled by the part of the
/// sprite blit processed so far: all rows before `dyb`, and the first
/// `dxb` columns of row `dyb`.  The sprite sits at anchor `(x0, y0)` and
/// its rows are read from memory at `base`; columns past the right edge
/// and rows past the bottom edge do not reach any cell.
pub open spec fn hits_upto(
    mem: Seq<u8>,
    base: nat,
    x0: nat,
    y0: nat,
    dyb: nat,
    dxb: nat,
    p: int,
) -> bool {
    let cx = p % 64;
    let cy = p / 64;
    &&& x0 <= cx < x0 + 8
    &&& y0 <= cy
    &&& (cy - y0 < dyb || (cy - y0 == dyb && cx - x0 < dxb))
    &&& sprite_bit_set(mem[base + (cy - y0)], (cx - x0) as u8)
}

/// Whether cell `p` is toggled by the whole `rows`-row sprite blit.
pub open spec fn sprite_hits(
    mem: Seq<u8>,
    base: nat,
    x0: nat,
    y0: nat,
    rows: nat,
    p: int,
) -> bool {
    hits_upto(mem, base, x0, y0, rows, 0, p)
}

/// The frame buffer after the part of the blit processed so far.
pub open spec fn draw_upto(
    gfx: Seq<u8>,
    mem: Seq<u8>,
    base: nat,
    x0: nat,
    y0: nat,
    dyb: nat,
    dxb: nat,
) -> Seq<u8> {
    Seq::new(
        gfx.len(),
        |p: int| if hits_upto(mem, base, x0, y0, dyb, dxb, p) { flip(gfx[p]) } else { gfx[p] },
    )
}

/// Whether the part of the blit processed so far has toggled a cell that
/// was set before the blit began.
pub open spec fn coll_upto(
    gfx: Seq<u8>,
    mem: Seq<u8>,
    base: nat,
    x0: nat,
    y0: nat,
    dyb: nat,
    dxb: nat,
) -> bool {
    exists|p: int|
        0 <= p < gfx.len() && hits_upto(mem, base, x0, y0, dyb, dxb, p) && gfx[p] != 0
}

/// The frame buffer after the whole `rows`-row sprite blit.
pub open spec fn draw_sprite(
    gfx: Seq<u8>,
    mem: Seq<u8>,
    base: nat,
    x0: nat,
    y0: nat,
    rows: nat,
) -> Seq<u8> {
    draw_upto(gfx, mem, base, x0, y0, rows, 0)
}

/// Whether the whole blit toggled a cell that was already set.
pub open spec fn draw_collision(
    gfx: Seq<u8>,
    mem: Seq<u8>,
    base: nat,
    x0: nat,
    y0: nat,
    rows: nat,
) -> bool {
    coll_upto(gfx, mem, base, x0, y0, rows, 0)
}

/// Memory after registers `V0..Vcnt-1` are copied to `base, base+1, ...`.
pub open spec fn store_regs(mem: Seq<u8>, v: Seq<u8>, base: nat, cnt: nat) -> Seq<u8> {
    Seq::new(
        mem.len(),
        |a: int| if base <= a < base + cnt { v[a - base] } else { mem[a] },
    )
}

/// Registers after `V0..Vcnt-1` are filled from `base, base+1, ...`.
pub open spec fn load_regs(v: Seq<u8>, mem: Seq<u8>, base: nat, cnt: nat) -> Seq<u8> {
    Seq::new(
        v.len(),
        |r: int| if r < cnt { mem[base + r] } else { v[r] },
    )
}

/// The machine after executing instruction word `op` fetched at the
/// current program counter.  `rnd` is the byte the random source
/// produced; only the `Cxkk` branch reads it.
pub open spec fn exec_op(m: MachineView, op: u16, rnd: u8) -> MachineView {
    let t = op_top(op);
    let x = op_x(op) as int;
    let y = op_y(op) as int;
    let kk = op_kk(op) as u8;
    let nnn = op_nnn(op);
    let n = op_n(op);
    let vx = m.v[x];
    let vy = m.v[y];
    let next = m.pc + 2;
    if op == 0x00E0 {
        MachineView {
            gfx: Seq::new(m.gfx.len(), |p: int| 0u8),
            draw_flag: true,
            pc: next,
            ..m
        }
    } else if op == 0x00EE {
        if m.stack.len() == 0 {
            m
        } else {
            MachineView {
                pc: (m.stack.last() + 2) as nat,
                stack: m.stack.drop_last(),
                ..m
            }
        }
    } else if t == 0x1 {
        MachineView { pc: nnn, ..m }
    } else if t == 0x2 {
        MachineView { stack: m.stack.push(m.pc as u16), pc: nnn, ..m }
    } else if t == 0x3 {
        MachineView { pc: if vx == kk { m.pc + 4 } else { next }, ..m }
    } else if t == 0x4 {
        MachineView { pc: if vx != kk { m.pc + 4 } else { next }, ..m }
    } else if t == 0x5 && n == 0 {
        MachineView { pc: if vx == vy { m.pc + 4 } else { next }, ..m }
    } else if t == 0x6 {
        MachineView { v: m.v.update(x, kk), pc: next, ..m }
    } else if t == 0x7 {
        MachineView { v: m.v.update(x, ((vx + kk) % 256) as u8), pc: next, ..m }
    } else if t == 0x8 && n == 0x0 {
        MachineView { v: m.v.update(x, vy), pc: next, ..m }
    } else if t == 0x8 && n == 0x1 {
        MachineView { v: m.v.update(x, vx | vy), pc: next, ..m }
    } else if t == 0x8 && n == 0x2 {
        MachineView { v: m.v.update(x, vx & vy), pc: next, ..m }
    } else if t == 0x8 && n == 0x3 {
        MachineView { v: m.v.update(x, vx ^ vy), pc: next, ..m }
    } else if t == 0x8 && n == 0x4 {
        MachineView {
            v: m.v.update(x, ((vx + vy) % 256) as u8)
                .update(0xF, if vx + vy > 255 { 1u8 } else { 0u8 }),
            pc: next,
            ..m
        }
    } else if t == 0x8 && n == 0x5 {
        MachineView {
            v: m.v.update(x, ((vx + 256 - vy) % 256) as u8)
                .update(0xF, if vx >= vy { 1u8 } else { 0u8 }),
            pc: next,
            ..m
        }
    } else if t == 0x8 && n == 0x6 {
        MachineView {
            v: m.v.update(x, (vx / 2) as u8).update(0xF, (vx % 2) as u8),
            pc: next,
            ..m
        }
    } else if t == 0x8 && n == 0x7 {
        MachineView {
            v: m.v.update(x, ((vy + 256 - vx) % 256) as u8)
                .update(0xF, if vy >= vx { 1u8 } else { 0u8 }),
            pc: next,
            ..m
        }
    } else if t == 0x8 && n == 0xE {
        MachineView {
            v: m.v.update(x, ((vx * 2) % 256) as u8).update(0xF, (vx / 128) as u8),
            pc: next,
            ..m
        }
    } else if t == 0x9 && n == 0 {
        MachineView { pc: if vx != vy { m.pc + 4 } else { next }, ..m }
    } else if t == 0xA {
        MachineView { i: nnn as nat, pc: next, ..m }
    } else if t == 0xB {
        MachineView { pc: (m.v[0] + nnn) as nat, ..m }
    } else if t == 0xC {
        MachineView { v: m.v.update(x, rnd & kk), pc: next, ..m }
    } else if t == 0xD {
        if n > 0 && m.i + n > MEM_SIZE {
            m
        } else {
            let x0 = (vx as nat) % 64;
            let y0 = (vy as nat) % 32;
            MachineView {
                gfx: draw_sprite(m.gfx, m.mem, m.i, x0, y0, n as nat),
                v: m.v.update(
                    0xF,
                    if draw_collision(m.gfx, m.mem, m.i, x0, y0, n as nat) { 1u8 } else { 0u8 },
                ),
                draw_flag: true,
                pc: next,
                ..m
            }
        }
    } else if t == 0xE && kk == 0x9E {
        let pressed = vx < 16 && m.keys[vx as int];
        MachineView { pc: if pressed { m.pc + 4 } else { next }, ..m }
    } else if t == 0xE && kk == 0xA1 {
        let pressed = vx < 16 && m.keys[vx as int];
        MachineView { pc: if !pressed { m.pc + 4 } else { next }, ..m }
    } else if t == 0xF && kk == 0x07 {
        MachineView { v: m.v.update(x, m.dt), pc: next, ..m }
    } else if t == 0xF && kk == 0x0A {
        MachineView { waiting: true, wait_reg: op_x(op), pc: next, ..m }
    } else if t == 0xF && kk == 0x15 {
        MachineView { dt: vx, pc: next, ..m }
    } else if t == 0xF && kk == 0x18 {
        MachineView { st: vx, pc: next, ..m }
    } else if t == 0xF && kk == 0x1E {
        MachineView { i: ((m.i + vx) % 0x10000) as nat, pc: next, ..m }
    } else if t == 0xF && kk == 0x29 {
        MachineView { i: (vx * 5) as nat, pc: next, ..m }
    } else if t == 0xF && kk == 0x33 {
        if m.i + 3 > MEM_SIZE {
            m
        } else {
            MachineView {
                mem: m.mem.update(m.i as int, (vx / 100) as u8)
                    .update(m.i as int + 1, ((vx / 10) % 10) as u8)
                    .update(m.i as int + 2, (vx % 10) as u8),
                pc: next,
                ..m
            }
        }
    } else if t == 0xF && kk == 0x55 {
        if m.i + op_x(op) + 1 > MEM_SIZE {
            m
        } else {
            MachineView { mem: store_regs(m.mem, m.v, m.i, op_x(op) + 1), pc: next, ..m }
        }
    } else if t == 0xF && kk == 0x65 {
        if m.i + op_x(op) + 1 > MEM_SIZE {
            m
        } else {
            MachineView { v: load_regs(m.v, m.mem, m.i, op_x(op) + 1), pc: next, ..m }
        }
    } else {
        MachineView { pc: next, ..m }
    }
}

/// What executing instruction word `op` reports.
pub open spec fn exec_status(m: MachineView, op: u16) -> CycleStatus {
    let t = op_top(op);
    let kk = op_kk(op);
    if !is_valid_op(op) {
        CycleStatus::InvalidOpcode
    } else if op == 0x00EE && m.stack.len() == 0 {
        CycleStatus::StackUnderflow
    } else if t == 0xD && op_n(op) > 0 && m.i + op_n(op) > MEM_SIZE {
        CycleStatus::MemoryFault
    } else if t == 0xF && kk == 0x33 && m.i + 3 > MEM_SIZE {
        CycleStatus::MemoryFault
    } else if t == 0xF && (kk == 0x55 || kk == 0x65) && m.i + op_x(op) + 1 > MEM_SIZE {
        CycleStatus::MemoryFault
    } else if t == 0xF && kk == 0x0A {
        CycleStatus::Waiting
    } else {
        CycleStatus::Ran
    }
}

/// The complete meaning of one cycle: a suspended machine does nothing;
/// a fetch that would reach past the bank does nothing; otherwise the
/// fetched instruction executes.
pub open spec fn step(m: MachineView, rnd: u8) -> MachineView {
    if m.waiting {
        m
    } else if m.pc + 1 >= MEM_SIZE {
        m
    } else {
        exec_op(m, fetched_op(m), rnd)
    }
}

/// Advancing the blit over a visible, set sprite bit toggles exactly the
/// cell under it, and collides exactly if that cell was set.
pub proof fn lemma_blit_hit(
    g0: Seq<u8>,
    mem: Seq<u8>,
    base: nat,
    x0: nat,
    y0: nat,
    dy: nat,
    dx: nat,
)
    requires
        g0.len() == 2048,
        x0 < 64,
        y0 < 32,
        dx < 8,
        x0 + dx < 64,
        y0 + dy < 32,
        sprite_bit_set(mem[(base + dy) as int], dx as u8),
    ensures
        ({
            let idx = ((y0 + dy) * 64 + (x0 + dx)) as int;
            &&& 0 <= idx < 2048
            &&& !hits_upto(mem, base, x0, y0, dy, dx, idx)
            &&& draw_upto(g0, mem, base, x0, y0, dy, dx)[idx] == g0[idx]
            &&& draw_upto(g0, mem, base, x0, y0, dy, dx).update(idx, flip(g0[idx]))
                == draw_upto(g0, mem, base, x0, y0, dy, (dx + 1) as nat)
            &&& coll_upto(g0, mem, base, x0, y0, dy, (dx + 1) as nat)
                == (coll_upto(g0, mem, base, x0, y0, dy, dx) || g0[idx] != 0)
        }),
{
    let idx = ((y0 + dy) * 64 + (x0 + dx)) as int;
    let cy = (y0 + dy) as int;
    let cx = (x0 + dx) as int;
    assert(idx == cy * 64 + cx);
    assert(idx < 2048) by (nonlinear_arith)
        requires
            cy < 32,
            cx < 64,
            idx == cy * 64 + cx,
    ;
    vstd::arithmetic::div_mod::lemma_fundamental_div_mod_converse(idx, 64, cy, cx);
    assert(idx % 64 == cx && idx / 64 == cy);
    assert(!hits_upto(mem, base, x0, y0, dy, dx, idx));
    assert(hits_upto(mem, base, x0, y0, dy, (dx + 1) as nat, idx));
    assert forall|p: int| 0 <= p < 2048 && p != idx implies
        hits_upto(mem, base, x0, y0, dy, (dx + 1) as nat, p)
            == hits_upto(mem, base, x0, y0, dy, dx, p) by {
        vstd::arithmetic::div_mod::lemma_fundamental_div_mod(p, 64);
    }
    assert(draw_upto(g0, mem, base, x0, y0, dy, dx).update(idx, flip(g0[idx]))
        =~= draw_upto(g0, mem, base, x0, y0, dy, (dx + 1) as nat));
    if coll_upto(g0, mem, base, x0, y0, dy, dx) {
        let p = choose|p: int|
            0 <= p < g0.len() && hits_upto(mem, base, x0, y0, dy, dx, p) && g0[p] != 0;
        assert(hits_upto(mem, base, x0, y0, dy, (dx + 1) as nat, p));
        assert(coll_upto(g0, mem, base, x0, y0, dy, (dx + 1) as nat));
    }
    if g0[idx] != 0 {
        assert(coll_upto(g0, mem, base, x0, y0, dy, (dx + 1) as nat));
    }
    if coll_upto(g0, mem, base, x0, y0, dy, (dx + 1) as nat) {
        let p = choose|p: int|
            0 <= p < g0.len() && hits_upto(mem, base, x0, y0, dy, (dx + 1) as nat, p)
                && g0[p] != 0;
        if p != idx {
            assert(hits_upto(mem, base, x0, y0, dy, dx, p));
            assert(coll_upto(g0, mem, base, x0, y0, dy, dx));
        }
    }
}

/// Advancing the blit over a clipped or unset sprite bit changes nothing.
pub proof fn lemma_blit_skip(
    g0: Seq<u8>,
    mem: Seq<u8>,
    base: nat,
    x0: nat,
    y0: nat,
    dy: nat,
    dx: nat,
)
    requires
        g0.len() == 2048,
        x0 < 64,
        y0 < 32,
        dx < 8,
        y0 + dy < 32,
        x0 + dx >= 64 || !sprite_bit_set(mem[(base + dy) as int], dx as u8),
    ensures
        draw_upto(g0, mem, base, x0, y0, dy, dx)
            == draw_upto(g0, mem, base, x0, y0, dy, (dx + 1) as nat),
        coll_upto(g0, mem, base, x0, y0, dy, (dx + 1) as nat)
            == coll_upto(g0, mem, base, x0, y0, dy, dx),
{
    assert forall|p: int| 0 <= p < 2048 implies
        hits_upto(mem, base, x0, y0, dy, (dx + 1) as nat, p)
            == hits_upto(mem, base, x0, y0, dy, dx, p) by {
        vstd::arithmetic::div_mod::lemma_fundamental_div_mod(p, 64);
    }
    assert(draw_upto(g0, mem, base, x0, y0, dy, dx)
        =~= draw_upto(g0, mem, base, x0, y0, dy, (dx + 1) as nat));
    if coll_upto(g0, mem, base, x0, y0, dy, dx) {
        let p = choose|p: int|
            0 <= p < g0.len() && hits_upto(mem, base, x0, y0, dy, dx, p) && g0[p] != 0;
        assert(coll_upto(g0, mem, base, x0, y0, dy, (dx + 1) as nat));
    }
    if coll_upto(g0, mem, base, x0, y0, dy, (dx + 1) as nat) {
        let p = choose|p: int|
            0 <= p < g0.len() && hits_upto(mem, base, x0, y0, dy, (dx + 1) as nat, p)
                && g0[p] != 0;
        assert(hits_upto(mem, base, x0, y0, dy, dx, p));
    }
}

/// Finishing the eight columns of a row is the same as standing at the
/// start of the next row.
pub proof fn lemma_blit_row_done(
    g0: Seq<u8>,
    mem: Seq<u8>,
    base: nat,
    x0: nat,
    y0: nat,
    dy: nat,
)
    ensures
        draw_upto(g0, mem, base, x0, y0, dy, 8)
            == draw_upto(g0, mem, base, x0, y0, (dy + 1) as nat, 0),
        coll_upto(g0, mem, base, x0, y0, dy, 8)
            == coll_upto(g0, mem, base, x0, y0, (dy + 1) as nat, 0),
{
    assert forall|p: int| #![all_triggers] true implies
        hits_upto(mem, base, x0, y0, dy, 8, p)
            == hits_upto(mem, base, x0, y0, (dy + 1) as nat, 0, p) by {}
    assert(draw_upto(g0, mem, base, x0, y0, dy, 8)
        =~= draw_upto(g0, mem, base, x0, y0, (dy + 1) as nat, 0));
    if coll_upto(g0, mem, base, x0, y0, dy, 8) {
        let p = choose|p: int|
            0 <= p < g0.len() && hits_upto(mem, base, x0, y0, dy, 8, p) && g0[p] != 0;
        assert(hits_upto(mem, base, x0, y0, (dy + 1) as nat, 0, p));
    }
    if coll_upto(g0, mem, base, x0, y0, (dy + 1) as nat, 0) {
        let p = choose|p: int|
            0 <= p < g0.len() && hits_upto(mem, base, x0, y0, (dy + 1) as nat, 0, p)
                && g0[p] != 0;
        assert(hits_upto(mem, base, x0, y0, dy, 8, p));
    }
}

/// A row that would land entirely below the bottom edge is clipped: the
/// blit is unchanged by skipping it.
pub proof fn lemma_blit_row_clipped(
    g0: Seq<u8>,
    mem: Seq<u8>,
    base: nat,
    x0: nat,
    y0: nat,
    dy: nat,
)
    requires
        g0.len() == 2048,
        y0 + dy >= 32,
    ensures
        draw_upto(g0, mem, base, x0, y0, dy, 0)
            == draw_upto(g0, mem, base, x0, y0, (dy + 1) as nat, 0),
        coll_upto(g0, mem, base, x0, y0, dy, 0)
            == coll_upto(g0, mem, base, x0, y0, (dy + 1) as nat, 0),
{
    assert forall|p: int| 0 <= p < 2048 implies
        hits_upto(mem, base, x0, y0, dy, 0, p)
            == hits_upto(mem, base, x0, y0, (dy + 1) as nat, 0, p) by {
        vstd::arithmetic::div_mod::lemma_fundamental_div_mod(p, 64);
        assert(p / 64 < 32);
    }
    assert(draw_upto(g0, mem, base, x0, y0, dy, 0)
        =~= draw_upto(g0, mem, base, x0, y0, (dy + 1) as nat, 0));
    if coll_upto(g0, mem, base, x0, y0, dy, 0) {
        let p = choose|p: int|
            0 <= p < g0.len() && hits_upto(mem, base, x0, y0, dy, 0, p) && g0[p] != 0;
        assert(hits_upto(mem, base, x0, y0, (dy + 1) as nat, 0, p));
    }
    if coll_upto(g0, mem, base, x0, y0, (dy + 1) as nat, 0) {
        let p = choose|p: int|
            0 <= p < g0.len() && hits_upto(mem, base, x0, y0, (dy + 1) as nat, 0, p)
                && g0[p] != 0;
        assert(hits_upto(mem, base, x0, y0, dy, 0, p));
    }
}

/// What one cycle reports.
pub open spec fn step_status(m: MachineView) -> CycleStatus {
    if m.waiting {
        CycleStatus::Waiting
    } else if m.pc + 1 >= MEM_SIZE {
        CycleStatus::MemoryFault
    } else {
        exec_status(m, fetched_op(m))
    }
}

} // verus!
