//! The interpreter itself.
//!
//! `Chip8` owns the memory bank, the register file, the call stack, the
//! frame buffer and the keypad state.  `cycle` performs one fetch,
//! decode and execute round and is verified to behave exactly as the
//! `step` function of the semantics module says.  The key-wait
//! instruction does not block: it suspends the machine, and the host
//! resumes it with `supply_key`.

use vstd::prelude::*;

use rand::Rng;

use crate::decoder::{Decoder, op_x, op_y, op_top};
use crate::semantics::{
    fetched_op, exec_op, exec_status, step, step_status, draw_upto, coll_upto, store_regs,
    load_regs, lemma_blit_hit, lemma_blit_skip, lemma_blit_row_done, lemma_blit_row_clipped,
};
use crate::state::{
    MachineView, CycleStatus, init_view, with_font, with_rom, ticked, key_supplied, font_table,
    MEM_SIZE, DISP_X, DISP_Y, GFX_SIZE, NUM_VREGS, NUM_KEYS, PROG_START, ROM_CAPACITY, FONT_LEN,
};

verus! {

/// A vector of `n` copies of `value`.
fn filled<T: Copy>(value: T, n: usize) -> (r: Vec<T>)
    ensures
        r@ == Seq::new(n as nat, |p: int| value),
{
    let mut r: Vec<T> = Vec::new();
    while r.len() < n
        invariant
            r@.len() <= n,
            r@ == Seq::new(r@.len(), |p: int| value),
        decreases n - r.len(),
    {
        r.push(value);
        proof {
            assert(r@ =~= Seq::new(r@.len(), |p: int| value));
        }
    }
    proof {
        assert(r@ =~= Seq::new(n as nat, |p: int| value));
    }
    r
}

/// Relies on `rand::thread_rng` and `rand::Rng::gen_range` over the
/// half-open range `0..0xFF`: a byte drawn uniformly below 0xFF.
#[verifier::external_body]
fn random_byte() -> (r: u8)
    ensures
        r < 0xFF,
{
    rand::thread_rng().gen_range(0..0xFF)
}

/// The CHIP-8 machine: memory, registers, call stack, frame buffer and
/// keypad state, driven one instruction at a time by `cycle`.
pub struct Chip8 {
    mem: Vec<u8>,
    /// The frame buffer, row-major, one byte per cell, each 0 or 1.
    pub gfx: Vec<u8>,
    stack: Vec<u16>,
    /// Pressed state of the sixteen keypad keys, written by the host's
    /// input layer.
    pub keys: Vec<bool>,
    /// Set by every drawing or clearing instruction; the rendering
    /// consumer clears it after it repaints.
    pub draw_flag: bool,
    v: Vec<u8>,
    i: u16,
    pc: u16,
    dt: u8,
    st: u8,
    /// Set by the host to stop the driving loop; the machine never reads
    /// it.
    pub exit_flag: bool,
    waiting: bool,
    wait_reg: u8,
}

impl View for Chip8 {
    type V = MachineView;

    closed spec fn view(&self) -> MachineView {
        MachineView {
            mem: self.mem@,
            gfx: self.gfx@,
            stack: self.stack@,
            keys: self.keys@,
            v: self.v@,
            i: self.i as nat,
            pc: self.pc as nat,
            dt: self.dt,
            st: self.st,
            draw_flag: self.draw_flag,
            exit_flag: self.exit_flag,
            waiting: self.waiting,
            wait_reg: self.wait_reg as nat,
        }
    }
}

impl Chip8 {
    /// Structural invariants, established by `new` and preserved by
    /// every operation.
    pub open spec fn wf(&self) -> bool {
        self@.wf()
    }

    /// A machine with zeroed memory, registers, frame buffer and keypad,
    /// an empty call stack, and the program counter at the program start
    /// address.
    pub fn new() -> (r: Self)
        ensures
            r@ == init_view(),
            r.wf(),
    {
        let r = Chip8 {
            mem: filled(0u8, MEM_SIZE),
            gfx: filled(0u8, GFX_SIZE),
            stack: Vec::new(),
            keys: filled(false, NUM_KEYS),
            draw_flag: false,
            v: filled(0u8, NUM_VREGS),
            i: 0,
            pc: PROG_START as u16,
            dt: 0,
            st: 0,
            exit_flag: false,
            waiting: false,
            wait_reg: 0,
        };
        proof {
            assert(r@ =~= init_view());
        }
        r
    }

    /// Writes the fixed font glyph table over the first 80 bytes of
    /// memory.
    pub fn load_font(&mut self)
        requires
            old(self).wf(),
        ensures
            final(self).wf(),
            final(self)@ == with_font(old(self)@),
    {
        let table: Vec<u8> = vec![
            0xF0, 0x90, 0x90, 0x90, 0xF0,
            0x20, 0x60, 0x20, 0x20, 0x70,
            0xF0, 0x10, 0xF0, 0x80, 0xF0,
            0xF0, 0x10, 0xF0, 0x10, 0xF0,
            0x90, 0x90, 0xF0, 0x10, 0x10,
            0xF0, 0x80, 0xF0, 0x10, 0xF0,
            0xF0, 0x80, 0xF0, 0x90, 0xF0,
            0xF0, 0x10, 0x20, 0x40, 0x40,
            0xF0, 0x90, 0xF0, 0x90, 0xF0,
            0xF0, 0x90, 0xF0, 0x10, 0xF0,
            0xF0, 0x90, 0xF0, 0x90, 0x90,
            0xE0, 0x90, 0xE0, 0x90, 0xE0,
            0xF0, 0x80, 0x80, 0x80, 0xF0,
            0xE0, 0x90, 0x90, 0x90, 0xE0,
            0xF0, 0x80, 0xF0, 0x80, 0xF0,
            0xF0, 0x80, 0xF0, 0x80, 0x80,
        ];
        proof {
            assert(table@ =~= font_table());
        }
        let mut j: usize = 0;
        while j < FONT_LEN
            invariant
                old(self).wf(),
                table@ == font_table(),
                j <= FONT_LEN,
                self@.mem.len() == MEM_SIZE,
                self@ == (MachineView { mem: self@.mem, ..old(self)@ }),
                self@.mem == Seq::new(
                    MEM_SIZE as nat,
                    |a: int| if a < j { font_table()[a] } else { old(self)@.mem[a] },
                ),
            decreases FONT_LEN - j,
        {
            self.mem[j] = table[j];
            j = j + 1;
            proof {
                assert(self@.mem =~= Seq::new(
                    MEM_SIZE as nat,
                    |a: int| if a < j { font_table()[a] } else { old(self)@.mem[a] },
                ));
            }
        }
        proof {
            assert(self@ =~= with_font(old(self)@));
        }
    }

    /// Writes `rom` verbatim into memory at the program start address
    /// and reports success; a program longer than the space above that
    /// address is rejected and the machine is unchanged.
    pub fn load_rom(&mut self, rom: &Vec<u8>) -> (r: bool)
        requires
            old(self).wf(),
        ensures
            final(self).wf(),
            r == (rom@.len() <= ROM_CAPACITY),
            r ==> final(self)@ == with_rom(old(self)@, rom@),
            !r ==> final(self)@ == old(self)@,
    {
        if rom.len() > ROM_CAPACITY {
            return false;
        }
        let mut j: usize = 0;
        while j < rom.len()
            invariant
                old(self).wf(),
                rom@.len() <= ROM_CAPACITY,
                j <= rom@.len(),
                self@.mem.len() == MEM_SIZE,
                self@ == (MachineView { mem: self@.mem, ..old(self)@ }),
                self@.mem == Seq::new(
                    MEM_SIZE as nat,
                    |a: int| if PROG_START <= a < PROG_START + j {
                        rom@[a - PROG_START]
                    } else {
                        old(self)@.mem[a]
                    },
                ),
            decreases rom@.len() - j,
        {
            self.mem[PROG_START + j] = rom[j];
            j = j + 1;
            proof {
                assert(self@.mem =~= Seq::new(
                    MEM_SIZE as nat,
                    |a: int| if PROG_START <= a < PROG_START + j {
                        rom@[a - PROG_START]
                    } else {
                        old(self)@.mem[a]
                    },
                ));
            }
        }
        proof {
            assert(self@ =~= with_rom(old(self)@, rom@));
        }
        true
    }

    /// One tick of the external 60 Hz cadence: both timers decrement by
    /// one, floored at zero.
    pub fn count_dt(&mut self)
        ensures
            final(self)@ == ticked(old(self)@),
    {
        if self.dt > 0 {
            self.dt = self.dt - 1;
        }
        if self.st > 0 {
            self.st = self.st - 1;
        }
        proof {
            assert(self@ =~= ticked(old(self)@));
        }
    }

    /// Resumes a machine suspended on the key-wait instruction: the key
    /// index lands in the recorded destination register.  Reports
    /// whether the key was consumed; a machine that is not waiting, or a
    /// key index above 0xF, changes nothing.
    pub fn supply_key(&mut self, key: u8) -> (r: bool)
        requires
            old(self).wf(),
        ensures
            final(self).wf(),
            r == (old(self)@.waiting && key < 16),
            r ==> final(self)@ == key_supplied(old(self)@, key),
            !r ==> final(self)@ == old(self)@,
    {
        if self.waiting && key < 16 {
            let idx = self.wait_reg as usize;
            self.v[idx] = key;
            self.waiting = false;
            proof {
                assert(self@ =~= key_supplied(old(self)@, key));
            }
            true
        } else {
            false
        }
    }

    /// One fetch-decode-execute round: reads the two bytes at the
    /// program counter big-endian and executes the instruction they
    /// form, exactly as the `step` function of the semantics module
    /// says.  A machine suspended on the key-wait instruction does
    /// nothing; a fetch that would reach past the memory bank does
    /// nothing and reports the fault.
    pub fn cycle(&mut self) -> (r: CycleStatus)
        requires
            old(self).wf(),
        ensures
            final(self).wf(),
            r == step_status(old(self)@),
            exists|rnd: u8| rnd < 0xFF && final(self)@ == #[trigger] step(old(self)@, rnd),
    {
        if self.waiting {
            proof {
                assert(self@ == step(old(self)@, 0u8));
            }
            return CycleStatus::Waiting;
        }
        let pc = self.pc as usize;
        if pc + 1 >= MEM_SIZE {
            proof {
                assert(self@ == step(old(self)@, 0u8));
            }
            return CycleStatus::MemoryFault;
        }
        let hi = self.mem[pc];
        let lo = self.mem[pc + 1];
        let op: u16 = (hi as u16) * 256 + (lo as u16);
        proof {
            assert(op == fetched_op(old(self)@));
        }
        let r = self.execute(op);
        proof {
            let rnd = choose|rnd: u8| rnd < 0xFF && self@ == exec_op(old(self)@, op, rnd);
            assert(self@ == step(old(self)@, rnd));
        }
        r
    }

    /// Executes one already-fetched instruction word.
    #[verifier::rlimit(50)]
    fn execute(&mut self, op: u16) -> (r: CycleStatus)
        requires
            old(self).wf(),
            !old(self)@.waiting,
            old(self)@.pc + 2 <= MEM_SIZE,
        ensures
            final(self).wf(),
            r == exec_status(old(self)@, op),
            exists|rnd: u8| rnd < 0xFF && final(self)@ == #[trigger] exec_op(old(self)@, op, rnd),
    {
        let x = Decoder::x(op);
        let kk = Decoder::kk(op);
        let nnn = Decoder::nnn(op);
        let n = Decoder::n(op);
        match op / 0x1000 {
            0x0 => {
                if op == 0x00E0 {
                    self.gfx = filled(0u8, GFX_SIZE);
                    self.draw_flag = true;
                    self.pc = self.pc + 2;
                    proof {
                        assert(self@ =~= exec_op(old(self)@, op, 0u8));
                    }
                    CycleStatus::Ran
                } else if op == 0x00EE {
                    if self.stack.len() == 0 {
                        proof {
                            assert(self@ == exec_op(old(self)@, op, 0u8));
                        }
                        return CycleStatus::StackUnderflow;
                    }
                    let ret = self.stack.pop().unwrap();
                    self.pc = ret + 2;
                    proof {
                        assert(old(self)@.stack.drop_last()
                            =~= old(self)@.stack.subrange(0, old(self)@.stack.len() - 1));
                        assert(self@ =~= exec_op(old(self)@, op, 0u8));
                    }
                    CycleStatus::Ran
                } else {
                    self.pc = self.pc + 2;
                    proof {
                        assert(self@ =~= exec_op(old(self)@, op, 0u8));
                    }
                    CycleStatus::InvalidOpcode
                }
            },
            0x1 => {
                self.pc = nnn;
                proof {
                    assert(self@ =~= exec_op(old(self)@, op, 0u8));
                }
                CycleStatus::Ran
            },
            0x2 => {
                self.stack.push(self.pc);
                self.pc = nnn;
                proof {
                    assert(self@ =~= exec_op(old(self)@, op, 0u8));
                }
                CycleStatus::Ran
            },
            0x3 => {
                if self.v[x] == kk {
                    self.pc = self.pc + 4;
                } else {
                    self.pc = self.pc + 2;
                }
                proof {
                    assert(self@ =~= exec_op(old(self)@, op, 0u8));
                }
                CycleStatus::Ran
            },
            0x4 => {
                if self.v[x] != kk {
                    self.pc = self.pc + 4;
                } else {
                    self.pc = self.pc + 2;
                }
                proof {
                    assert(self@ =~= exec_op(old(self)@, op, 0u8));
                }
                CycleStatus::Ran
            },
            0x5 => {
                if n == 0 {
                    let y = Decoder::y(op);
                    if self.v[x] == self.v[y] {
                        self.pc = self.pc + 4;
                    } else {
                        self.pc = self.pc + 2;
                    }
                    proof {
                        assert(self@ =~= exec_op(old(self)@, op, 0u8));
                    }
                    CycleStatus::Ran
                } else {
                    self.pc = self.pc + 2;
                    proof {
                        assert(self@ =~= exec_op(old(self)@, op, 0u8));
                    }
                    CycleStatus::InvalidOpcode
                }
            },
            0x6 => {
                self.v[x] = kk;
                self.pc = self.pc + 2;
                proof {
                    assert(self@ =~= exec_op(old(self)@, op, 0u8));
                }
                CycleStatus::Ran
            },
            0x7 => {
                let sum = self.v[x] as u16 + kk as u16;
                self.v[x] = (sum % 256) as u8;
                self.pc = self.pc + 2;
                proof {
                    assert(self@ =~= exec_op(old(self)@, op, 0u8));
                }
                CycleStatus::Ran
            },
            0x8 => {
                let r = self.exec_alu(op);
                proof {
                    assert(self@ == exec_op(old(self)@, op, 0u8));
                }
                r
            },
            0x9 => {
                if n == 0 {
                    let y = Decoder::y(op);
                    if self.v[x] != self.v[y] {
                        self.pc = self.pc + 4;
                    } else {
                        self.pc = self.pc + 2;
                    }
                    proof {
                        assert(self@ =~= exec_op(old(self)@, op, 0u8));
                    }
                    CycleStatus::Ran
                } else {
                    self.pc = self.pc + 2;
                    proof {
                        assert(self@ =~= exec_op(old(self)@, op, 0u8));
                    }
                    CycleStatus::InvalidOpcode
                }
            },
            0xA => {
                self.i = nnn;
                self.pc = self.pc + 2;
                proof {
                    assert(self@ =~= exec_op(old(self)@, op, 0u8));
                }
                CycleStatus::Ran
            },
            0xB => {
                self.pc = self.v[0] as u16 + nnn;
                proof {
                    assert(self@ =~= exec_op(old(self)@, op, 0u8));
                }
                CycleStatus::Ran
            },
            0xC => {
                let b = random_byte();
                self.v[x] = b & kk;
                self.pc = self.pc + 2;
                proof {
                    assert(self@ =~= exec_op(old(self)@, op, b));
                }
                CycleStatus::Ran
            },
            0xD => {
                let r = self.exec_draw(op);
                proof {
                    assert(self@ == exec_op(old(self)@, op, 0u8));
                }
                r
            },
            0xE => {
                if kk == 0x9E {
                    let vx = self.v[x];
                    let pressed = vx < 16 && self.keys[vx as usize];
                    if pressed {
                        self.pc = self.pc + 4;
                    } else {
                        self.pc = self.pc + 2;
                    }
                    proof {
                        assert(self@ =~= exec_op(old(self)@, op, 0u8));
                    }
                    CycleStatus::Ran
                } else if kk == 0xA1 {
                    let vx = self.v[x];
                    let pressed = vx < 16 && self.keys[vx as usize];
                    if !pressed {
                        self.pc = self.pc + 4;
                    } else {
                        self.pc = self.pc + 2;
                    }
                    proof {
                        assert(self@ =~= exec_op(old(self)@, op, 0u8));
                    }
                    CycleStatus::Ran
                } else {
                    self.pc = self.pc + 2;
                    proof {
                        assert(self@ =~= exec_op(old(self)@, op, 0u8));
                    }
                    CycleStatus::InvalidOpcode
                }
            },
            0xF => {
                let r = self.exec_fx(op);
                proof {
                    assert(self@ == exec_op(old(self)@, op, 0u8));
                }
                r
            },
            _ => {
                proof {
                    assert(false);
                }
                unreached()
            },
        }
    }

    /// The `8xyn` register-arithmetic family.
    fn exec_alu(&mut self, op: u16) -> (r: CycleStatus)
        requires
            old(self).wf(),
            !old(self)@.waiting,
            old(self)@.pc + 2 <= MEM_SIZE,
            op_top(op) == 0x8,
        ensures
            final(self).wf(),
            r == exec_status(old(self)@, op),
            final(self)@ == exec_op(old(self)@, op, 0u8),
    {
        let x = Decoder::x(op);
        let y = Decoder::y(op);
        let n = Decoder::n(op);
        let vx = self.v[x];
        let vy = self.v[y];
        match n {
            0x0 => {
                self.v[x] = vy;
            },
            0x1 => {
                self.v[x] = vx | vy;
            },
            0x2 => {
                self.v[x] = vx & vy;
            },
            0x3 => {
                self.v[x] = vx ^ vy;
            },
            0x4 => {
                let sum = vx as u16 + vy as u16;
                self.v[x] = (sum % 256) as u8;
                self.v[0xF] = if sum > 255 { 1 } else { 0 };
            },
            0x5 => {
                let diff = vx as u16 + 256 - vy as u16;
                self.v[x] = (diff % 256) as u8;
                self.v[0xF] = if vx >= vy { 1 } else { 0 };
            },
            0x6 => {
                self.v[x] = vx / 2;
                self.v[0xF] = vx % 2;
            },
            0x7 => {
                let diff = vy as u16 + 256 - vx as u16;
                self.v[x] = (diff % 256) as u8;
                self.v[0xF] = if vy >= vx { 1 } else { 0 };
            },
            0xE => {
                self.v[x] = ((vx as u16 * 2) % 256) as u8;
                self.v[0xF] = vx / 128;
            },
            _ => {
                self.pc = self.pc + 2;
                proof {
                    assert(self@ =~= exec_op(old(self)@, op, 0u8));
                }
                return CycleStatus::InvalidOpcode;
            },
        }
        self.pc = self.pc + 2;
        proof {
            assert(self@ =~= exec_op(old(self)@, op, 0u8));
        }
        CycleStatus::Ran
    }

    /// The `Fxkk` family: timers, key-wait, address-register updates,
    /// binary-coded decimal, and the register block transfers.
    fn exec_fx(&mut self, op: u16) -> (r: CycleStatus)
        requires
            old(self).wf(),
            !old(self)@.waiting,
            old(self)@.pc + 2 <= MEM_SIZE,
            op_top(op) == 0xF,
        ensures
            final(self).wf(),
            r == exec_status(old(self)@, op),
            final(self)@ == exec_op(old(self)@, op, 0u8),
    {
        let x = Decoder::x(op);
        let kk = Decoder::kk(op);
        match kk {
            0x07 => {
                self.v[x] = self.dt;
            },
            0x0A => {
                self.waiting = true;
                self.wait_reg = x as u8;
                self.pc = self.pc + 2;
                proof {
                    assert(self@ =~= exec_op(old(self)@, op, 0u8));
                }
                return CycleStatus::Waiting;
            },
            0x15 => {
                self.dt = self.v[x];
            },
            0x18 => {
                self.st = self.v[x];
            },
            0x1E => {
                let wide = self.i as u32 + self.v[x] as u32;
                self.i = (wide % 0x10000) as u16;
            },
            0x29 => {
                self.i = self.v[x] as u16 * 5;
            },
            0x33 => {
                let base = self.i as usize;
                if base + 3 > MEM_SIZE {
                    proof {
                        assert(self@ == exec_op(old(self)@, op, 0u8));
                    }
                    return CycleStatus::MemoryFault;
                }
                let vx = self.v[x];
                self.mem[base] = vx / 100;
                self.mem[base + 1] = (vx / 10) % 10;
                self.mem[base + 2] = vx % 10;
            },
            0x55 => {
                let base = self.i as usize;
                if base + x + 1 > MEM_SIZE {
                    proof {
                        assert(self@ == exec_op(old(self)@, op, 0u8));
                    }
                    return CycleStatus::MemoryFault;
                }
                let mut j: usize = 0;
                proof {
                    assert(self@.mem =~= store_regs(
                        old(self)@.mem, old(self)@.v, base as nat, 0));
                }
                while j <= x
                    invariant
                        old(self).wf(),
                        x < 16,
                        j <= x + 1,
                        base == old(self)@.i,
                        base + x + 1 <= MEM_SIZE,
                        self@ == (MachineView { mem: self@.mem, ..old(self)@ }),
                        self@.mem == store_regs(
                            old(self)@.mem, old(self)@.v, base as nat, j as nat),
                    decreases x + 1 - j,
                {
                    self.mem[base + j] = self.v[j];
                    j = j + 1;
                    proof {
                        assert(self@.mem =~= store_regs(
                            old(self)@.mem, old(self)@.v, base as nat, j as nat));
                    }
                }
            },
            0x65 => {
                let base = self.i as usize;
                if base + x + 1 > MEM_SIZE {
                    proof {
                        assert(self@ == exec_op(old(self)@, op, 0u8));
                    }
                    return CycleStatus::MemoryFault;
                }
                let mut j: usize = 0;
                proof {
                    assert(self@.v =~= load_regs(
                        old(self)@.v, old(self)@.mem, base as nat, 0));
                }
                while j <= x
                    invariant
                        old(self).wf(),
                        x < 16,
                        j <= x + 1,
                        base == old(self)@.i,
                        base + x + 1 <= MEM_SIZE,
                        self@ == (MachineView { v: self@.v, ..old(self)@ }),
                        self@.v == load_regs(
                            old(self)@.v, old(self)@.mem, base as nat, j as nat),
                    decreases x + 1 - j,
                {
                    self.v[j] = self.mem[base + j];
                    j = j + 1;
                    proof {
                        assert(self@.v =~= load_regs(
                            old(self)@.v, old(self)@.mem, base as nat, j as nat));
                    }
                }
            },
            _ => {
                self.pc = self.pc + 2;
                proof {
                    assert(self@ =~= exec_op(old(self)@, op, 0u8));
                }
                return CycleStatus::InvalidOpcode;
            },
        }
        self.pc = self.pc + 2;
        proof {
            assert(self@ =~= exec_op(old(self)@, op, 0u8));
        }
        CycleStatus::Ran
    }

    /// The `Dxyn` sprite blit: `n` rows of eight pixels read from memory
    /// at the address register, XOR-drawn at the anchor held in `Vx`,
    /// `Vy` (reduced modulo the screen size), with pixels past the right
    /// or bottom edge clipped.  `VF` reports whether any set cell was
    /// toggled off.
    fn exec_draw(&mut self, op: u16) -> (r: CycleStatus)
        requires
            old(self).wf(),
            !old(self)@.waiting,
            old(self)@.pc + 2 <= MEM_SIZE,
            op_top(op) == 0xD,
        ensures
            final(self).wf(),
            r == exec_status(old(self)@, op),
            final(self)@ == exec_op(old(self)@, op, 0u8),
    {
        let x = Decoder::x(op);
        let y = Decoder::y(op);
        let n = Decoder::n(op) as usize;
        let base = self.i as usize;
        if n > 0 && base + n > MEM_SIZE {
            proof {
                assert(self@ == exec_op(old(self)@, op, 0u8));
            }
            return CycleStatus::MemoryFault;
        }
        let x0 = (self.v[x] as usize) % 64;
        let y0 = (self.v[y] as usize) % 32;
        let ghost g0 = self.gfx@;
        let ghost m0 = old(self)@.mem;
        let mut collision = false;
        let mut dy: usize = 0;
        while dy < n
            invariant
                old(self).wf(),
                n < 16,
                x0 < 64,
                y0 < 32,
                dy <= n,
                n > 0 ==> base + n <= MEM_SIZE,
                base == old(self)@.i,
                x0 == (old(self)@.v[op_x(op) as int] as nat) % 64,
                y0 == (old(self)@.v[op_y(op) as int] as nat) % 32,
                g0 == old(self)@.gfx,
                m0 == old(self)@.mem,
                self@ == (MachineView { gfx: self@.gfx, ..old(self)@ }),
                self@.gfx == draw_upto(g0, m0, base as nat, x0 as nat, y0 as nat, dy as nat, 0),
                collision == coll_upto(
                    g0, m0, base as nat, x0 as nat, y0 as nat, dy as nat, 0),
            decreases n - dy,
        {
            let row = self.mem[base + dy];
            if y0 + dy < DISP_Y {
                let cy = y0 + dy;
                let mut dx: usize = 0;
                while dx < 8
                    invariant
                        old(self).wf(),
                        n < 16,
                        x0 < 64,
                        y0 < 32,
                        dy < n,
                        dx <= 8,
                        base + n <= MEM_SIZE,
                        base == old(self)@.i,
                        x0 == (old(self)@.v[op_x(op) as int] as nat) % 64,
                        y0 == (old(self)@.v[op_y(op) as int] as nat) % 32,
                        cy == y0 + dy,
                        cy < 32,
                        g0 == old(self)@.gfx,
                        m0 == old(self)@.mem,
                        row == m0[base + dy],
                        self@ == (MachineView { gfx: self@.gfx, ..old(self)@ }),
                        self@.gfx == draw_upto(
                            g0, m0, base as nat, x0 as nat, y0 as nat, dy as nat, dx as nat),
                        collision == coll_upto(
                            g0, m0, base as nat, x0 as nat, y0 as nat, dy as nat, dx as nat),
                    decreases 8 - dx,
                {
                    if x0 + dx < DISP_X && row & (0x80u8 >> (dx as u8)) != 0 {
                        let cx = x0 + dx;
                        let idx = cy * DISP_X + cx;
                        proof {
                            lemma_blit_hit(
                                g0, m0, base as nat, x0 as nat, y0 as nat,
                                dy as nat, dx as nat);
                        }
                        let cur = self.gfx[idx];
                        if cur != 0 {
                            collision = true;
                        }
                        self.gfx[idx] = if cur == 0 { 1 } else { 0 };
                        proof {
                            assert(self@.gfx == draw_upto(
                                g0, m0, base as nat, x0 as nat, y0 as nat,
                                dy as nat, (dx + 1) as nat));
                        }
                    } else {
                        proof {
                            lemma_blit_skip(
                                g0, m0, base as nat, x0 as nat, y0 as nat,
                                dy as nat, dx as nat);
                        }
                    }
                    dx = dx + 1;
                }
                proof {
                    lemma_blit_row_done(
                        g0, m0, base as nat, x0 as nat, y0 as nat, dy as nat);
                }
            } else {
                proof {
                    lemma_blit_row_clipped(
                        g0, m0, base as nat, x0 as nat, y0 as nat, dy as nat);
                }
            }
            dy = dy + 1;
        }
        self.v[0xF] = if collision { 1 } else { 0 };
        self.draw_flag = true;
        self.pc = self.pc + 2;
        proof {
            assert(self@ =~= exec_op(old(self)@, op, 0u8));
        }
        CycleStatus::Ran
    }

    /// Whether the machine is suspended on the key-wait instruction.
    pub fn is_waiting(&self) -> (r: bool)
        ensures
            r == self@.waiting,
    {
        self.waiting
    }

    /// General-purpose register `idx`.
    pub fn reg(&self, idx: usize) -> (r: u8)
        requires
            self.wf(),
            idx < NUM_VREGS,
        ensures
            r == self@.v[idx as int],
    {
        self.v[idx]
    }

    /// The address register.
    pub fn index_reg(&self) -> (r: u16)
        ensures
            r as nat == self@.i,
    {
        self.i
    }

    /// The program counter.
    pub fn program_counter(&self) -> (r: u16)
        ensures
            r as nat == self@.pc,
    {
        self.pc
    }

    /// The delay timer.
    pub fn delay_timer(&self) -> (r: u8)
        ensures
            r == self@.dt,
    {
        self.dt
    }

    /// The sound timer.
    pub fn sound_timer(&self) -> (r: u8)
        ensures
            r == self@.st,
    {
        self.st
    }

    /// The byte at memory address `addr`.
    pub fn mem_byte(&self, addr: usize) -> (r: u8)
        requires
            self.wf(),
            addr < MEM_SIZE,
        ensures
            r == self@.mem[addr as int],
    {
        self.mem[addr]
    }

    /// How many subroutine calls are in progress.
    pub fn stack_depth(&self) -> (r: usize)
        ensures
            r == self@.stack.len(),
    {
        self.stack.len()
    }
}

} // verus!
