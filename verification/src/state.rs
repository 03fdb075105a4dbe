//! The mathematical model of the machine.
//!
//! `MachineView` is the ghost image of the interpreter: every executable
//! operation on the machine is specified as a function from one
//! `MachineView` to the next.  `wf` collects the structural invariants
//! that creation establishes and every operation preserves.

use vstd::prelude::*;

verus! {

/// Size of the memory bank in bytes.
pub const MEM_SIZE: usize = 4096;

/// Width of the frame buffer in cells.
pub const DISP_X: usize = 64;

/// Height of the frame buffer in cells.
pub const DISP_Y: usize = 32;

/// Number of cells in the frame buffer.
pub const GFX_SIZE: usize = 64 * 32;

/// Number of general-purpose registers.
pub const NUM_VREGS: usize = 16;

/// Number of keypad keys.
pub const NUM_KEYS: usize = 16;

/// Address at which loaded programs begin.
pub const PROG_START: usize = 0x200;

/// Bytes available for a program: `MEM_SIZE - PROG_START`.
pub const ROM_CAPACITY: usize = 4096 - 0x200;

/// Length in bytes of the font glyph table (16 glyphs of 5 bytes).
pub const FONT_LEN: usize = 80;

/// What one invocation of `cycle` did.
#[derive(Clone, Copy, Debug, PartialEq, Eq, Structural)]
pub enum CycleStatus {
    /// An instruction was fetched and executed.
    Ran,
    /// The machine is waiting for a key: either this cycle executed the
    /// key-wait instruction, or the machine was already suspended and the
    /// cycle changed nothing.
    Waiting,
    /// The fetched word matched no defined instruction pattern; the
    /// program counter advanced past it and nothing else changed.
    InvalidOpcode,
    /// A return instruction found the call stack empty; nothing changed.
    StackUnderflow,
    /// A fetch or a memory-touching instruction would have reached outside
    /// the 4096-byte bank; nothing changed.
    MemoryFault,
}

/// Ghost image of the whole machine state.
#[verifier::ext_equal]
pub ghost struct MachineView {
    /// The 4096-byte memory bank.
    pub mem: Seq<u8>,
    /// The 64 x 32 frame buffer, row-major, one byte per cell, 0 or 1.
    pub gfx: Seq<u8>,
    /// Return addresses of the subroutine calls in progress.
    pub stack: Seq<u16>,
    /// Pressed state of the sixteen keypad keys.
    pub keys: Seq<bool>,
    /// The sixteen general-purpose registers.
    pub v: Seq<u8>,
    /// The 16-bit address register.
    pub i: nat,
    /// The program counter, a byte address.
    pub pc: nat,
    /// The delay timer.
    pub dt: u8,
    /// The sound timer.
    pub st: u8,
    /// Set by every drawing or clearing instruction; cleared by the
    /// rendering consumer.
    pub draw_flag: bool,
    /// Set by the host to ask the driving loop to stop; never read by the
    /// machine itself.
    pub exit_flag: bool,
    /// True while the machine is suspended on the key-wait instruction.
    pub waiting: bool,
    /// Destination register of the pending key-wait.
    pub wait_reg: nat,
}

impl MachineView {
    /// Structural invariants of a machine state.
    pub open spec fn wf(self) -> bool {
        &&& self.mem.len() == MEM_SIZE
        &&& self.gfx.len() == GFX_SIZE
        &&& self.v.len() == NUM_VREGS
        &&& self.keys.len() == NUM_KEYS
        &&& forall|p: int| 0 <= p < self.gfx.len() ==> self.gfx[p] <= 1
        &&& forall|k: int| 0 <= k < self.stack.len() ==> self.stack[k] < 4095
        &&& self.i < 0x10000
        &&& self.pc < 0x10000
        &&& self.wait_reg < NUM_VREGS
    }
}

/// The machine as it is created: everything zeroed, the program counter
/// at the program start address.
pub open spec fn init_view() -> MachineView {
    MachineView {
        mem: Seq::new(MEM_SIZE as nat, |p: int| 0u8),
        gfx: Seq::new(GFX_SIZE as nat, |p: int| 0u8),
        stack: Seq::empty(),
        keys: Seq::new(NUM_KEYS as nat, |k: int| false),
        v: Seq::new(NUM_VREGS as nat, |r: int| 0u8),
        i: 0,
        pc: PROG_START as nat,
        dt: 0,
        st: 0,
        draw_flag: false,
        exit_flag: false,
        waiting: false,
        wait_reg: 0,
    }
}

/// The standard hexadecimal digit sprite set: 16 glyphs of 5 bytes each.
pub open spec fn font_table() -> Seq<u8> {
    seq![
        0xF0, 0x90, 0x90, 0x90, 0xF0,
        0x20, 0x60, 0x20, 0x20, 0x70,
        0xF0, 0x10, 0xF0, 0x80, 0xF0,
        0xF0, 0x10, 0xF0, 0x10, 0xF0,
        0x90, 0x90, 0xF0, 0x10, 0x10,
        0xF0, 0x80, 0xF0, 0x10, 0xF0,
        0xF0, 0x80, 0xF0, 0x90, 0xF0,
        0xF0, 0x10, 0x20, 0x40, 0x40,
        0xF0, 0x90, 0xF0, 0x90, 0xF0,
        0xF0, 0x90, 0xF0, 0x10, 0xF0,
        0xF0, 0x90, 0xF0, 0x90, 0x90,
        0xE0, 0x90, 0xE0, 0x90, 0xE0,
        0xF0, 0x80, 0x80, 0x80, 0xF0,
        0xE0, 0x90, 0x90, 0x90, 0xE0,
        0xF0, 0x80, 0xF0, 0x80, 0xF0,
        0xF0, 0x80, 0xF0, 0x80, 0x80,
    ]
}

/// The machine after the font table is written over the first 80 bytes
/// of memory.
pub open spec fn with_font(m: MachineView) -> MachineView {
    MachineView {
        mem: Seq::new(m.mem.len(), |a: int| if a < FONT_LEN { font_table()[a] } else { m.mem[a] }),
        ..m
    }
}

/// The machine after `rom` is written verbatim at the program start
/// address.
pub open spec fn with_rom(m: MachineView, rom: Seq<u8>) -> MachineView {
    MachineView {
        mem: Seq::new(
            m.mem.len(),
            |a: int| if PROG_START <= a < PROG_START + rom.len() {
                rom[a - PROG_START]
            } else {
                m.mem[a]
            },
        ),
        ..m
    }
}

/// The machine after one tick of the external 60 Hz cadence: both timers
/// decrement by one, floored at zero.
pub open spec fn ticked(m: MachineView) -> MachineView {
    MachineView {
        dt: if m.dt > 0 { (m.dt - 1) as u8 } else { 0 },
        st: if m.st > 0 { (m.st - 1) as u8 } else { 0 },
        ..m
    }
}

/// The machine after the host reports a key press while the machine is
/// suspended on the key-wait instruction: the key index lands in the
/// recorded destination register and execution resumes.
pub open spec fn key_supplied(m: MachineView, key: u8) -> MachineView {
    MachineView { v: m.v.update(m.wait_reg as int, key), waiting: false, ..m }
}

} // verus!
