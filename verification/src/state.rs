//! The mathematical model of the machine.
//!
//! `MachineState` mirrors every architectural component of the interpreter
//! as a ghost value; the executable `Emu` views to it.  The initial state
//! (all zero except the built-in font) is pinned down by `init_state`.

use vstd::prelude::*;

verus! {

/// Size of the machine's memory in bytes.
pub const RAM_SIZE: usize = 4096;
/// Width of the monochrome display in cells.
pub const SCREEN_WIDTH: usize = 64;
/// Height of the monochrome display in cells.
pub const SCREEN_HEIGHT: usize = 32;
/// Number of general-purpose registers `V0`..`VF`.
pub const NUM_REGS: usize = 16;
/// Capacity of the call stack.
pub const STACK_SIZE: usize = 16;
/// Number of keys on the hexadecimal keypad.
pub const NUM_KEYS: usize = 16;
/// Address at which a loaded program image starts.
pub const START_ADDR: u16 = 0x200;
/// Number of bytes of the built-in font: 16 glyphs of 5 rows each.
pub const FONTSET_SIZE: usize = 80;

/// Ghost model of the whole machine: each component as a mathematical value.
pub struct MachineState {
    /// Address of the next instruction to fetch.
    pub pc: u16,
    /// The 4096-byte memory.
    pub ram: Seq<u8>,
    /// The 64x32 display, row-major; `true` means the cell is lit.
    pub screen: Seq<bool>,
    /// The registers `V0`..`VF`.
    pub regs: Seq<u8>,
    /// The memory-index register `I`.
    pub i_reg: u16,
    /// Number of call-stack entries in use.
    pub sp: u16,
    /// The call stack; entries at indices below `sp` are live.
    pub stack: Seq<u16>,
    /// Pressed state of each keypad key.
    pub keys: Seq<bool>,
    /// The delay timer.
    pub dt: u8,
    /// The sound timer.
    pub st: u8,
}

/// Well-formedness: every component has its architectural size and the
/// stack pointer stays within the stack.
pub open spec fn wf(s: MachineState) -> bool {
    &&& s.ram.len() == RAM_SIZE
    &&& s.screen.len() == SCREEN_WIDTH * SCREEN_HEIGHT
    &&& s.regs.len() == NUM_REGS
    &&& s.stack.len() == STACK_SIZE
    &&& s.keys.len() == NUM_KEYS
    &&& s.sp <= STACK_SIZE
}

/// One of five values, selected by `r`.
pub open spec fn pick5(r: int, b0: u8, b1: u8, b2: u8, b3: u8, b4: u8) -> u8 {
    if r == 0 {
        b0
    } else if r == 1 {
        b1
    } else if r == 2 {
        b2
    } else if r == 3 {
        b3
    } else {
        b4
    }
}

/// Row `r` (0..5) of the font glyph for hexadecimal digit `d` (0..16).
pub open spec fn glyph_row(d: int, r: int) -> u8 {
    if d == 0 {
        pick5(r, 0xF0, 0x90, 0x90, 0x90, 0xF0)
    } else if d == 1 {
        pick5(r, 0x20, 0x60, 0x20, 0x20, 0x70)
    } else if d == 2 {
        pick5(r, 0xF0, 0x10, 0xF0, 0x80, 0xF0)
    } else if d == 3 {
        pick5(r, 0xF0, 0x10, 0xF0, 0x10, 0xF0)
    } else if d == 4 {
        pick5(r, 0x90, 0x90, 0xF0, 0x10, 0x10)
    } else if d == 5 {
        pick5(r, 0xF0, 0x80, 0xF0, 0x10, 0xF0)
    } else if d == 6 {
        pick5(r, 0xF0, 0x80, 0xF0, 0x90, 0xF0)
    } else if d == 7 {
        pick5(r, 0xF0, 0x10, 0x20, 0x40, 0x40)
    } else if d == 8 {
        pick5(r, 0xF0, 0x90, 0xF0, 0x90, 0xF0)
    } else if d == 9 {
        pick5(r, 0xF0, 0x90, 0xF0, 0x10, 0xF0)
    } else if d == 10 {
        pick5(r, 0xF0, 0x90, 0xF0, 0x90, 0x90)
    } else if d == 11 {
        pick5(r, 0xE0, 0x90, 0xE0, 0x90, 0xE0)
    } else if d == 12 {
        pick5(r, 0xF0, 0x80, 0x80, 0x80, 0xF0)
    } else if d == 13 {
        pick5(r, 0xE0, 0x90, 0x90, 0x90, 0xE0)
    } else if d == 14 {
        pick5(r, 0xF0, 0x80, 0xF0, 0x80, 0xF0)
    } else {
        pick5(r, 0xF0, 0x80, 0xF0, 0x80, 0x80)
    }
}

/// Byte `i` (0..80) of the built-in font table.
pub open spec fn font_byte(i: int) -> u8 {
    glyph_row(i / 5, i % 5)
}

/// The state after construction or reset: everything zero except the
/// program counter (at `START_ADDR`) and the font table at the bottom of
/// memory.
pub open spec fn init_state() -> MachineState {
    MachineState {
        pc: START_ADDR,
        ram: Seq::new(
            RAM_SIZE as nat,
            |i: int| if i < FONTSET_SIZE { font_byte(i) } else { 0u8 },
        ),
        screen: Seq::new((SCREEN_WIDTH * SCREEN_HEIGHT) as nat, |i: int| false),
        regs: Seq::new(NUM_REGS as nat, |i: int| 0u8),
        i_reg: 0,
        sp: 0,
        stack: Seq::new(STACK_SIZE as nat, |i: int| 0u16),
        keys: Seq::new(NUM_KEYS as nat, |i: int| false),
        dt: 0,
        st: 0,
    }
}

} // verus!
