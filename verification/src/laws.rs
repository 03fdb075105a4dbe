//! Architectural laws of the instruction set, each proved once and for
//! all over the semantics: they hold for every well-formed machine
//! state and every instruction of the class they speak about.

use vstd::prelude::*;

use crate::decoder::{op_x, op_y, op_kk, op_n, op_nnn, op_top};
use crate::semantics::{
    exec_op, sprite_hits, draw_sprite, draw_collision, coll_upto, store_regs,
};
use crate::state::MachineView;

verus! {

/// `7xkk` leaves `(Vx + kk) mod 256` in `Vx` and advances the program
/// counter by two.
pub proof fn lemma_add_immediate_wraps(m: MachineView, op: u16, rnd: u8)
    requires
        m.wf(),
        op_top(op) == 0x7,
    ensures
        exec_op(m, op, rnd).v[op_x(op) as int] == (m.v[op_x(op) as int] + op_kk(op)) % 256,
        exec_op(m, op, rnd).pc == m.pc + 2,
{
}

/// `8xy4` sets `VF` to 1 exactly when the unwrapped sum exceeds 255,
/// and (unless `Vx` is the flag register itself) leaves the wrapped sum
/// in `Vx`.
pub proof fn lemma_add_carry_flag(m: MachineView, op: u16, rnd: u8)
    requires
        m.wf(),
        op_top(op) == 0x8,
        op_n(op) == 0x4,
    ensures
        exec_op(m, op, rnd).v[0xF]
            == (if m.v[op_x(op) as int] + m.v[op_y(op) as int] > 255 { 1u8 } else { 0u8 }),
        op_x(op) != 0xF ==> exec_op(m, op, rnd).v[op_x(op) as int]
            == (m.v[op_x(op) as int] + m.v[op_y(op) as int]) % 256,
        exec_op(m, op, rnd).pc == m.pc + 2,
{
}

/// `8xy5` sets `VF` to 1 exactly when no borrow occurs, that is when
/// the minuend `Vx` is at least the subtrahend `Vy` before the
/// wraparound.
pub proof fn lemma_sub_borrow_flag(m: MachineView, op: u16, rnd: u8)
    requires
        m.wf(),
        op_top(op) == 0x8,
        op_n(op) == 0x5,
    ensures
        exec_op(m, op, rnd).v[0xF]
            == (if m.v[op_x(op) as int] >= m.v[op_y(op) as int] { 1u8 } else { 0u8 }),
        op_x(op) != 0xF ==> exec_op(m, op, rnd).v[op_x(op) as int]
            == (m.v[op_x(op) as int] + 256 - m.v[op_y(op) as int]) % 256,
        exec_op(m, op, rnd).pc == m.pc + 2,
{
}

/// `8xy7` sets `VF` by the same borrow convention with the operands
/// reversed: 1 exactly when the minuend `Vy` is at least `Vx`.
pub proof fn lemma_subn_borrow_flag(m: MachineView, op: u16, rnd: u8)
    requires
        m.wf(),
        op_top(op) == 0x8,
        op_n(op) == 0x7,
    ensures
        exec_op(m, op, rnd).v[0xF]
            == (if m.v[op_y(op) as int] >= m.v[op_x(op) as int] { 1u8 } else { 0u8 }),
        op_x(op) != 0xF ==> exec_op(m, op, rnd).v[op_x(op) as int]
            == (m.v[op_y(op) as int] + 256 - m.v[op_x(op) as int]) % 256,
        exec_op(m, op, rnd).pc == m.pc + 2,
{
}

/// `8xy6` preserves the pre-shift least significant bit of `Vx` in
/// `VF`, and (unless `Vx` is the flag register itself) halves `Vx`.
pub proof fn lemma_shift_right_flag(m: MachineView, op: u16, rnd: u8)
    requires
        m.wf(),
        op_top(op) == 0x8,
        op_n(op) == 0x6,
    ensures
        exec_op(m, op, rnd).v[0xF] == m.v[op_x(op) as int] % 2,
        op_x(op) != 0xF ==> exec_op(m, op, rnd).v[op_x(op) as int]
            == m.v[op_x(op) as int] / 2,
        exec_op(m, op, rnd).pc == m.pc + 2,
{
}

/// `8xyE` preserves the pre-shift most significant bit of `Vx` in
/// `VF`, and (unless `Vx` is the flag register itself) doubles `Vx`
/// truncated to 8 bits.
pub proof fn lemma_shift_left_flag(m: MachineView, op: u16, rnd: u8)
    requires
        m.wf(),
        op_top(op) == 0x8,
        op_n(op) == 0xE,
    ensures
        exec_op(m, op, rnd).v[0xF] == m.v[op_x(op) as int] / 128,
        op_x(op) != 0xF ==> exec_op(m, op, rnd).v[op_x(op) as int]
            == (m.v[op_x(op) as int] * 2) % 256,
        exec_op(m, op, rnd).pc == m.pc + 2,
{
}

/// `Fx55` followed by `Fx65` with the same `x` and the same address
/// register restores every register, whether or not the transfers fit
/// in the memory bank (when they do not, both instructions leave the
/// machine untouched).
pub proof fn lemma_store_load_roundtrip(
    m: MachineView,
    op_store: u16,
    op_load: u16,
    r1: u8,
    r2: u8,
)
    requires
        m.wf(),
        op_top(op_store) == 0xF,
        op_kk(op_store) == 0x55,
        op_top(op_load) == 0xF,
        op_kk(op_load) == 0x65,
        op_x(op_load) == op_x(op_store),
    ensures
        exec_op(exec_op(m, op_store, r1), op_load, r2).v == m.v,
{
    let x = op_x(op_store);
    let m1 = exec_op(m, op_store, r1);
    let m2 = exec_op(m1, op_load, r2);
    if m.i + x + 1 > m.mem.len() {
        assert(m2.v =~= m.v);
    } else {
        assert(m1.mem == store_regs(m.mem, m.v, m.i, (x + 1) as nat));
        assert(m2.v =~= m.v);
    }
}

/// `00E0` leaves every frame-buffer cell zero and raises the draw
/// flag.
pub proof fn lemma_clear_screen(m: MachineView, rnd: u8)
    requires
        m.wf(),
    ensures
        exec_op(m, 0x00E0, rnd).gfx.len() == m.gfx.len(),
        forall|p: int| 0 <= p < m.gfx.len() ==> exec_op(m, 0x00E0, rnd).gfx[p] == 0,
        exec_op(m, 0x00E0, rnd).draw_flag,
        exec_op(m, 0x00E0, rnd).pc == m.pc + 2,
{
}

/// Blitting the same sprite twice onto an all-zero frame buffer
/// restores the all-zero buffer, and the second blit collides provided
/// some sprite bit lands visibly on the screen.
pub proof fn lemma_double_draw(
    gfx: Seq<u8>,
    mem: Seq<u8>,
    base: nat,
    x0: nat,
    y0: nat,
    rows: nat,
)
    requires
        forall|p: int| 0 <= p < gfx.len() ==> gfx[p] == 0,
    ensures
        draw_sprite(draw_sprite(gfx, mem, base, x0, y0, rows), mem, base, x0, y0, rows) == gfx,
        (exists|p: int| 0 <= p < gfx.len() && sprite_hits(mem, base, x0, y0, rows, p))
            ==> draw_collision(draw_sprite(gfx, mem, base, x0, y0, rows), mem, base, x0, y0, rows),
{
    let g1 = draw_sprite(gfx, mem, base, x0, y0, rows);
    assert(draw_sprite(g1, mem, base, x0, y0, rows) =~= gfx);
    if exists|p: int| 0 <= p < gfx.len() && sprite_hits(mem, base, x0, y0, rows, p) {
        let p = choose|p: int| 0 <= p < gfx.len() && sprite_hits(mem, base, x0, y0, rows, p);
        assert(g1[p] != 0);
        assert(coll_upto(g1, mem, base, x0, y0, rows, 0));
    }
}

/// `Dxyn` executed twice from the same state — all-zero screen, anchor
/// registers distinct from the flag register, sprite rows inside the
/// bank, at least one sprite bit landing visibly — XORs the screen back
/// to all-zero and reports the collision in `VF`.
pub proof fn lemma_sprite_double_draw(m: MachineView, op: u16, r1: u8, r2: u8)
    requires
        m.wf(),
        op_top(op) == 0xD,
        op_x(op) != 0xF,
        op_y(op) != 0xF,
        m.i + op_n(op) <= m.mem.len(),
        forall|p: int| 0 <= p < m.gfx.len() ==> m.gfx[p] == 0,
        exists|p: int|
            0 <= p < m.gfx.len() && #[trigger] sprite_hits(
                m.mem,
                m.i,
                (m.v[op_x(op) as int] as nat) % 64,
                (m.v[op_y(op) as int] as nat) % 32,
                op_n(op),
                p,
            ),
    ensures
        ({
            let m2 = exec_op(exec_op(m, op, r1), op, r2);
            &&& forall|p: int| 0 <= p < m2.gfx.len() ==> m2.gfx[p] == 0
            &&& m2.v[0xF] == 1
        }),
{
    let x0 = (m.v[op_x(op) as int] as nat) % 64;
    let y0 = (m.v[op_y(op) as int] as nat) % 32;
    let rows = op_n(op);
    let m1 = exec_op(m, op, r1);
    lemma_double_draw(m.gfx, m.mem, m.i, x0, y0, rows);
    assert(m1.gfx == draw_sprite(m.gfx, m.mem, m.i, x0, y0, rows));
    assert(m1.v[op_x(op) as int] == m.v[op_x(op) as int]);
    assert(m1.v[op_y(op) as int] == m.v[op_y(op) as int]);
    let m2 = exec_op(m1, op, r2);
    assert(m2.gfx == draw_sprite(m1.gfx, m1.mem, m1.i, x0, y0, rows));
    assert(forall|p: int| 0 <= p < m2.gfx.len() ==> m2.gfx[p] == 0);
    assert(draw_collision(m1.gfx, m1.mem, m1.i, x0, y0, rows));
    assert(m2.v[0xF] == 1);
}

/// `2nnn` jumps to its target, and the matching `00EE` brings the
/// program counter back to the instruction immediately after the call
/// and restores the call stack.
pub proof fn lemma_call_return(m: MachineView, op: u16, r1: u8, r2: u8)
    requires
        m.wf(),
        op_top(op) == 0x2,
    ensures
        exec_op(m, op, r1).pc == op_nnn(op),
        exec_op(exec_op(m, op, r1), 0x00EE, r2).pc == m.pc + 2,
        exec_op(exec_op(m, op, r1), 0x00EE, r2).stack == m.stack,
{
    let m1 = exec_op(m, op, r1);
    assert(m1.stack == m.stack.push(m.pc as u16));
    assert(m1.stack.last() == m.pc as u16);
    assert(m1.stack.drop_last() =~= m.stack);
}

/// `3xkk` advances the program counter by 4 exactly when `Vx == kk`,
/// and by 2 otherwise — never more, never less.
pub proof fn lemma_skip_eq_immediate(m: MachineView, op: u16, rnd: u8)
    requires
        m.wf(),
        op_top(op) == 0x3,
    ensures
        exec_op(m, op, rnd).pc
            == if m.v[op_x(op) as int] == op_kk(op) { m.pc + 4 } else { m.pc + 2 },
{
}

/// `4xkk` advances the program counter by 4 exactly when `Vx != kk`,
/// and by 2 otherwise.
pub proof fn lemma_skip_ne_immediate(m: MachineView, op: u16, rnd: u8)
    requires
        m.wf(),
        op_top(op) == 0x4,
    ensures
        exec_op(m, op, rnd).pc
            == if m.v[op_x(op) as int] != op_kk(op) { m.pc + 4 } else { m.pc + 2 },
{
}

/// `5xy0` advances the program counter by 4 exactly when `Vx == Vy`,
/// and by 2 otherwise.
pub proof fn lemma_skip_eq_register(m: MachineView, op: u16, rnd: u8)
    requires
        m.wf(),
        op_top(op) == 0x5,
        op_n(op) == 0,
    ensures
        exec_op(m, op, rnd).pc
            == if m.v[op_x(op) as int] == m.v[op_y(op) as int] { m.pc + 4 } else { m.pc + 2 },
{
}

/// `9xy0` advances the program counter by 4 exactly when `Vx != Vy`,
/// and by 2 otherwise.
pub proof fn lemma_skip_ne_register(m: MachineView, op: u16, rnd: u8)
    requires
        m.wf(),
        op_top(op) == 0x9,
        op_n(op) == 0,
    ensures
        exec_op(m, op, rnd).pc
            == if m.v[op_x(op) as int] != m.v[op_y(op) as int] { m.pc + 4 } else { m.pc + 2 },
{
}

} // verus!
