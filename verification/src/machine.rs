//! The executable machine.
//!
//! `Emu` holds the architectural state in plain Rust values and implements
//! every operation of the interpreter; each method's contract ties it to
//! the model in `state` and the semantics in `step`.

use vstd::prelude::*;

use crate::state::MachineState;
use crate::state::FONTSET_SIZE;
use crate::state::NUM_KEYS;
use crate::state::NUM_REGS;
use crate::state::RAM_SIZE;
use crate::state::SCREEN_HEIGHT;
use crate::state::SCREEN_WIDTH;
use crate::state::STACK_SIZE;
use crate::state::START_ADDR;
use crate::state::font_byte;
use crate::state::glyph_row;
use crate::state::init_state;
use crate::state::pick5;
use crate::state::wf;
use crate::decode::Instr;
use crate::decode::decode;
use crate::decode::instr_wf;
use crate::decode::lemma_decode_wf;
use crate::step::advance;
use crate::step::bit_weight;
use crate::step::cell_of;
use crate::step::collision_prefix;
use crate::step::covers_prefix;
use crate::step::dec_sat;
use crate::step::draw_collision;
use crate::step::draw_screen;
use crate::step::exec_instr;
use crate::step::instr_enabled;
use crate::step::lemma_cell_inj;
use crate::step::lemma_collision_row;
use crate::step::lemma_collision_snoc;
use crate::step::lemma_covers_row;
use crate::step::lemma_covers_snoc;
use crate::step::lemma_exec_instr_rnd;
use crate::step::lemma_first_pressed_is;
use crate::step::lemma_first_pressed_none;
use crate::step::spec_opcode;
use crate::step::spec_tick;
use crate::step::sprite_bit;
use crate::step::tick_enabled;
use crate::step::uses_rand;

verus! {

/// The CHIP-8 virtual machine: CPU, memory and peripherals in one bundle.
pub struct Emu {
    /// Address of the next instruction to fetch.
    pub pc: u16,
    /// The 4096-byte memory.
    pub ram: Vec<u8>,
    /// The 64x32 display, row-major; `true` means the cell is lit.
    pub screen: Vec<bool>,
    /// The registers `V0`..`VF`.
    pub v_reg: Vec<u8>,
    /// The memory-index register `I`.
    pub i_reg: u16,
    /// Number of call-stack entries in use.
    pub sp: u16,
    /// The call stack.
    pub stack: Vec<u16>,
    /// Pressed state of each keypad key.
    pub keys: Vec<bool>,
    /// The delay timer.
    pub dt: u8,
    /// The sound timer.
    pub st: u8,
}

impl View for Emu {
    type V = MachineState;

    open spec fn view(&self) -> MachineState {
        MachineState {
            pc: self.pc,
            ram: self.ram@,
            screen: self.screen@,
            regs: self.v_reg@,
            i_reg: self.i_reg,
            sp: self.sp,
            stack: self.stack@,
            keys: self.keys@,
            dt: self.dt,
            st: self.st,
        }
    }
}

/// A vector of `n` copies of `x`.
fn filled<T: Copy>(n: usize, x: T) -> (v: Vec<T>)
    ensures
        v@ == Seq::new(n as nat, |i: int| x),
{
    let mut v: Vec<T> = Vec::new();
    let mut i: usize = 0;
    while i < n
        invariant
            i <= n,
            v@.len() == i,
            forall|j: int| 0 <= j < i ==> v@[j] == x,
        decreases n - i,
    {
        v.push(x);
        i = i + 1;
    }
    proof {
        assert(v@ =~= Seq::new(n as nat, |i: int| x));
    }
    v
}

/// One of five bytes, selected by `r`; agrees with `pick5`.
fn pick5_exec(r: usize, b0: u8, b1: u8, b2: u8, b3: u8, b4: u8) -> (b: u8)
    requires
        r < 5,
    ensures
        b == pick5(r as int, b0, b1, b2, b3, b4),
{
    if r == 0 {
        b0
    } else if r == 1 {
        b1
    } else if r == 2 {
        b2
    } else if r == 3 {
        b3
    } else {
        b4
    }
}

/// Row `r` of the font glyph for digit `d`; agrees with `glyph_row`.
fn glyph_row_exec(d: usize, r: usize) -> (b: u8)
    requires
        d < 16,
        r < 5,
    ensures
        b == glyph_row(d as int, r as int),
{
    if d == 0 {
        pick5_exec(r, 0xF0, 0x90, 0x90, 0x90, 0xF0)
    } else if d == 1 {
        pick5_exec(r, 0x20, 0x60, 0x20, 0x20, 0x70)
    } else if d == 2 {
        pick5_exec(r, 0xF0, 0x10, 0xF0, 0x80, 0xF0)
    } else if d == 3 {
        pick5_exec(r, 0xF0, 0x10, 0xF0, 0x10, 0xF0)
    } else if d == 4 {
        pick5_exec(r, 0x90, 0x90, 0xF0, 0x10, 0x10)
    } else if d == 5 {
        pick5_exec(r, 0xF0, 0x80, 0xF0, 0x10, 0xF0)
    } else if d == 6 {
        pick5_exec(r, 0xF0, 0x80, 0xF0, 0x90, 0xF0)
    } else if d == 7 {
        pick5_exec(r, 0xF0, 0x10, 0x20, 0x40, 0x40)
    } else if d == 8 {
        pick5_exec(r, 0xF0, 0x90, 0xF0, 0x90, 0xF0)
    } else if d == 9 {
        pick5_exec(r, 0xF0, 0x90, 0xF0, 0x10, 0xF0)
    } else if d == 10 {
        pick5_exec(r, 0xF0, 0x90, 0xF0, 0x90, 0x90)
    } else if d == 11 {
        pick5_exec(r, 0xE0, 0x90, 0xE0, 0x90, 0xE0)
    } else if d == 12 {
        pick5_exec(r, 0xF0, 0x80, 0x80, 0x80, 0xF0)
    } else if d == 13 {
        pick5_exec(r, 0xE0, 0x90, 0x90, 0x90, 0xE0)
    } else if d == 14 {
        pick5_exec(r, 0xF0, 0x80, 0xF0, 0x80, 0xF0)
    } else {
        pick5_exec(r, 0xF0, 0x80, 0xF0, 0x80, 0x80)
    }
}

/// Write the 80-byte font table into the bottom of memory.
fn write_font(ram: &mut Vec<u8>)
    requires
        old(ram)@.len() == RAM_SIZE,
    ensures
        final(ram)@.len() == RAM_SIZE,
        forall|i: int| 0 <= i < FONTSET_SIZE ==> final(ram)@[i] == font_byte(i),
        forall|i: int| FONTSET_SIZE <= i < RAM_SIZE ==> final(ram)@[i] == old(ram)@[i],
{
    let mut i: usize = 0;
    while i < FONTSET_SIZE
        invariant
            i <= FONTSET_SIZE,
            ram@.len() == RAM_SIZE,
            forall|j: int| 0 <= j < i ==> ram@[j] == font_byte(j),
            forall|j: int| i <= j < RAM_SIZE ==> ram@[j] == old(ram)@[j],
        decreases FONTSET_SIZE - i,
    {
        let b = glyph_row_exec(i / 5, i % 5);
        ram.set(i, b);
        i = i + 1;
    }
}

impl Emu {
    /// A fresh machine in the initial state: everything zero except the
    /// program counter and the font table.  `reset` yields exactly the
    /// same state, so construction and reset are interchangeable.
    pub fn new() -> (r: Emu)
        ensures
            r@ == init_state(),
            wf(r@),
    {
        let mut ram = filled(RAM_SIZE, 0u8);
        write_font(&mut ram);
        let e = Emu {
            pc: START_ADDR,
            ram,
            screen: filled(SCREEN_WIDTH * SCREEN_HEIGHT, false),
            v_reg: filled(NUM_REGS, 0u8),
            i_reg: 0,
            sp: 0,
            stack: filled(STACK_SIZE, 0u16),
            keys: filled(NUM_KEYS, false),
            dt: 0,
            st: 0,
        };
        proof {
            assert(e@.ram =~= init_state().ram);
        }
        e
    }

    /// Return the machine to the initial state, discarding all loaded
    /// program state; the result is identical to a freshly constructed
    /// machine.
    pub fn reset(&mut self)
        ensures
            final(self)@ == init_state(),
            wf(final(self)@),
    {
        self.pc = START_ADDR;
        self.ram = filled(RAM_SIZE, 0u8);
        self.screen = filled(SCREEN_WIDTH * SCREEN_HEIGHT, false);
        self.v_reg = filled(NUM_REGS, 0u8);
        self.i_reg = 0;
        self.sp = 0;
        self.stack = filled(STACK_SIZE, 0u16);
        self.keys = filled(NUM_KEYS, false);
        self.dt = 0;
        self.st = 0;
        write_font(&mut self.ram);
        proof {
            assert(self@.ram =~= init_state().ram);
        }
    }

    /// Copy a program image into memory starting at `START_ADDR`.  The
    /// image must fit below the end of memory; nothing outside the target
    /// range changes.
    pub fn load(&mut self, data: &[u8])
        requires
            wf(old(self)@),
            START_ADDR + data@.len() <= RAM_SIZE,
        ensures
            wf(final(self)@),
            final(self)@.ram.len() == RAM_SIZE,
            forall|i: int|
                START_ADDR <= i < START_ADDR + data@.len() ==> final(self)@.ram[i] == data@[i
                    - START_ADDR],
            forall|i: int|
                0 <= i < RAM_SIZE && !(START_ADDR <= i < START_ADDR + data@.len())
                    ==> final(self)@.ram[i] == old(self)@.ram[i],
            final(self)@ == (MachineState { ram: final(self)@.ram, ..old(self)@ }),
    {
        let start = START_ADDR as usize;
        let len = data.len();
        let mut i: usize = 0;
        while i < len
            invariant
                i <= len,
                start == START_ADDR,
                start + len <= RAM_SIZE,
                len == data@.len(),
                self.ram@.len() == RAM_SIZE,
                forall|j: int| 0 <= j < i ==> self.ram@[start + j] == data@[j],
                forall|j: int|
                    0 <= j < RAM_SIZE && !(start <= j < start + i) ==> self.ram@[j] == old(
                        self,
                    ).ram@[j],
                self.pc == old(self).pc,
                self.screen == old(self).screen,
                self.v_reg == old(self).v_reg,
                self.i_reg == old(self).i_reg,
                self.sp == old(self).sp,
                self.stack == old(self).stack,
                self.keys == old(self).keys,
                self.dt == old(self).dt,
                self.st == old(self).st,
            decreases len - i,
        {
            let b = data[i];
            self.ram.set(start + i, b);
            i = i + 1;
        }
    }

    /// Advance both timers by one tick: each decrements by one and
    /// saturates at zero.  Sound is audible while the sound timer is
    /// positive; the beep ends exactly when it reaches zero.
    pub fn tick_timers(&mut self)
        ensures
            final(self)@.dt == dec_sat(old(self)@.dt),
            final(self)@.st == dec_sat(old(self)@.st),
            final(self)@ == (MachineState { dt: final(self)@.dt, st: final(self)@.st, ..old(self)@ }),
    {
        if self.dt > 0 {
            self.dt = self.dt - 1;
        }
        if self.st > 0 {
            self.st = self.st - 1;
        }
    }

    /// Read-only view of the display grid, row-major, 64x32 cells.
    pub fn get_display(&self) -> (r: &Vec<bool>)
        ensures
            r@ == self@.screen,
    {
        &self.screen
    }

    /// Whether the host should be emitting sound: true exactly while the
    /// sound timer is positive.
    pub fn get_sound(&self) -> (r: bool)
        ensures
            r == (self@.st > 0),
    {
        self.st > 0
    }

    /// Save a return address on the call stack.
    fn push(&mut self, val: u16)
        requires
            wf(old(self)@),
            old(self)@.sp < STACK_SIZE,
        ensures
            wf(final(self)@),
            final(self)@ == (MachineState {
                stack: old(self)@.stack.update(old(self)@.sp as int, val),
                sp: (old(self)@.sp + 1) as u16,
                ..old(self)@
            }),
    {
        self.stack.set(self.sp as usize, val);
        self.sp = self.sp + 1;
    }

    /// Take the most recently saved return address off the call stack.
    fn pop(&mut self) -> (val: u16)
        requires
            wf(old(self)@),
            old(self)@.sp > 0,
        ensures
            wf(final(self)@),
            val == old(self)@.stack[old(self)@.sp - 1],
            final(self)@ == (MachineState { sp: (old(self)@.sp - 1) as u16, ..old(self)@ }),
    {
        self.sp = self.sp - 1;
        self.stack[self.sp as usize]
    }

    /// Read the two bytes at the program counter as one big-endian opcode
    /// word and advance the program counter past them.
    fn fetch(&mut self) -> (op: u16)
        requires
            wf(old(self)@),
            old(self)@.pc + 2 <= RAM_SIZE,
        ensures
            wf(final(self)@),
            op == spec_opcode(old(self)@),
            final(self)@ == advance(old(self)@),
    {
        let hi = self.ram[self.pc as usize];
        let lo = self.ram[self.pc as usize + 1];
        self.pc = self.pc + 2;
        (hi as u16) * 256 + (lo as u16)
    }

    /// Record one key's pressed or released state; nothing else changes.
    pub fn keypress(&mut self, idx: usize, pressed: bool)
        requires
            wf(old(self)@),
            idx < NUM_KEYS,
        ensures
            wf(final(self)@),
            final(self)@.keys == old(self)@.keys.update(idx as int, pressed),
            final(self)@ == (MachineState { keys: final(self)@.keys, ..old(self)@ }),
    {
        self.keys.set(idx, pressed);
    }

    /// Draw the `n`-row sprite at memory address `I` anchored at
    /// `(VX, VY)`: every targeted cell is XOR-toggled, coordinates wrap
    /// around the display edges, and `VF` reports whether any lit cell was
    /// turned off.
    fn op_draw(&mut self, x: u8, y: u8, n: u8)
        requires
            wf(old(self)@),
            x < 16,
            y < 16,
            n < 16,
            old(self)@.i_reg + n <= RAM_SIZE,
        ensures
            wf(final(self)@),
            final(self)@ == exec_instr(old(self)@, Instr::Draw(x, y, n), 0),
    {
        let xc = self.v_reg[x as usize];
        let yc = self.v_reg[y as usize];
        let i0 = self.i_reg as usize;
        let ghost g_ram = self.ram@;
        let ghost g_scr = self.screen@;
        let ghost g_i0 = self.i_reg;
        let mut flipped = false;
        let mut row: usize = 0;
        while row < n as usize
            invariant
                wf(old(self)@),
                row <= n as usize,
                n < 16,
                x < 16,
                y < 16,
                xc == old(self)@.regs[x as int],
                yc == old(self)@.regs[y as int],
                i0 == old(self)@.i_reg,
                i0 + n <= RAM_SIZE,
                g_ram == old(self)@.ram,
                g_scr == old(self)@.screen,
                g_i0 == old(self)@.i_reg,
                self.ram@ == g_ram,
                self.screen@.len() == g_scr.len(),
                self.v_reg@ == old(self)@.regs,
                self.pc == old(self).pc,
                self.i_reg == old(self).i_reg,
                self.sp == old(self).sp,
                self.stack@ == old(self)@.stack,
                self.keys@ == old(self)@.keys,
                self.dt == old(self).dt,
                self.st == old(self).st,
                forall|idx: int|
                    0 <= idx < g_scr.len() ==> self.screen@[idx] == (g_scr[idx] != covers_prefix(
                        g_ram,
                        g_i0,
                        xc,
                        yc,
                        row as int,
                        0,
                        idx,
                    )),
                flipped == collision_prefix(g_scr, g_ram, g_i0, xc, yc, row as int, 0),
            decreases n as usize - row,
        {
            let pixels = self.ram[i0 + row];
            let mut b: usize = 0;
            while b < 8
                invariant
                    wf(old(self)@),
                    row < n as usize,
                    b <= 8,
                    n < 16,
                    x < 16,
                    y < 16,
                    xc == old(self)@.regs[x as int],
                    yc == old(self)@.regs[y as int],
                    i0 == old(self)@.i_reg,
                    i0 + n <= RAM_SIZE,
                    g_ram == old(self)@.ram,
                    g_scr == old(self)@.screen,
                    g_i0 == old(self)@.i_reg,
                    self.ram@ == g_ram,
                    self.screen@.len() == g_scr.len(),
                    self.v_reg@ == old(self)@.regs,
                    self.pc == old(self).pc,
                    self.i_reg == old(self).i_reg,
                    self.sp == old(self).sp,
                    self.stack@ == old(self)@.stack,
                    self.keys@ == old(self)@.keys,
                    self.dt == old(self).dt,
                    self.st == old(self).st,
                    pixels == g_ram[i0 + row],
                    forall|idx: int|
                        0 <= idx < g_scr.len() ==> self.screen@[idx] == (g_scr[idx]
                            != covers_prefix(g_ram, g_i0, xc, yc, row as int, b as int, idx)),
                    flipped == collision_prefix(g_scr, g_ram, g_i0, xc, yc, row as int, b as int),
                decreases 8 - b,
            {
                let w = bit_weight_exec(b);
                assert(w >= 1);
                if (pixels / w) % 2 == 1 {
                    assert(sprite_bit(g_ram[i0 + row], b as int));
                    let cx = (xc as usize + b) % SCREEN_WIDTH;
                    let cy = (yc as usize + row) % SCREEN_HEIGHT;
                    let idx = cy * SCREEN_WIDTH + cx;
                    proof {
                        assert(idx == cell_of(xc, yc, b as int, row as int));
                        assert(idx < g_scr.len());
                        assert(!covers_prefix(
                            g_ram,
                            g_i0,
                            xc,
                            yc,
                            row as int,
                            b as int,
                            idx as int,
                        )) by {
                            if covers_prefix(g_ram, g_i0, xc, yc, row as int, b as int, idx as int) {
                                let (ra, ba): (int, int) = choose|ra: int, ba: int|
                                    0 <= ra && 0 <= ba < 8 && (ra < row as int || (ra == row as int
                                        && ba < b as int)) && sprite_bit(g_ram[g_i0 + ra], ba) && (
                                    idx as int) == #[trigger] cell_of(xc, yc, ba, ra);
                                lemma_cell_inj(xc, yc, ba, ra, b as int, row as int);
                            }
                        }
                    }
                    let cur = self.screen[idx];
                    assert(cur == g_scr[idx as int]);
                    flipped = flipped || cur;
                    self.screen.set(idx, !cur);
                    proof {
                        assert forall|k: int| 0 <= k < g_scr.len() implies self.screen@[k] == (
                        g_scr[k] != covers_prefix(
                            g_ram,
                            g_i0,
                            xc,
                            yc,
                            row as int,
                            b as int + 1,
                            k,
                        )) by {
                            lemma_covers_snoc(g_ram, g_i0, xc, yc, row as int, b as int, k);
                        }
                        lemma_collision_snoc(g_scr, g_ram, g_i0, xc, yc, row as int, b as int);
                    }
                } else {
                    proof {
                        assert(!sprite_bit(g_ram[i0 + row], b as int));
                        assert forall|k: int| 0 <= k < g_scr.len() implies self.screen@[k] == (
                        g_scr[k] != covers_prefix(
                            g_ram,
                            g_i0,
                            xc,
                            yc,
                            row as int,
                            b as int + 1,
                            k,
                        )) by {
                            lemma_covers_snoc(g_ram, g_i0, xc, yc, row as int, b as int, k);
                        }
                        lemma_collision_snoc(g_scr, g_ram, g_i0, xc, yc, row as int, b as int);
                    }
                }
                b = b + 1;
            }
            proof {
                assert forall|k: int| 0 <= k < g_scr.len() implies self.screen@[k] == (g_scr[k]
                    != covers_prefix(g_ram, g_i0, xc, yc, row as int + 1, 0, k)) by {
                    lemma_covers_row(g_ram, g_i0, xc, yc, row as int, k);
                }
                lemma_collision_row(g_scr, g_ram, g_i0, xc, yc, row as int);
            }
            row = row + 1;
        }
        let vf: u8 = if flipped {
            1
        } else {
            0
        };
        self.v_reg.set(15, vf);
        proof {
            assert(self.screen@ =~= draw_screen(g_scr, g_ram, g_i0, xc, yc, n));
            assert(flipped == draw_collision(g_scr, g_ram, g_i0, xc, yc, n));
        }
    }

    /// Idle until a key is pressed: with none pressed, rewind the program
    /// counter so the instruction repeats; otherwise store the lowest
    /// pressed key's index in `VX`.
    fn op_wait_key(&mut self, x: u8)
        requires
            wf(old(self)@),
            x < 16,
            old(self)@.pc >= 2,
        ensures
            wf(final(self)@),
            final(self)@ == exec_instr(old(self)@, Instr::WaitKey(x), 0),
    {
        let mut i: usize = 0;
        let mut found = false;
        let mut key: u8 = 0;
        while i < NUM_KEYS
            invariant
                wf(old(self)@),
                i <= NUM_KEYS,
                self@ == old(self)@,
                found ==> (key < 16 && self.keys@[key as int] && (forall|j: int|
                    0 <= j < key ==> !self.keys@[j]) && key < i),
                !found ==> (forall|j: int| 0 <= j < i ==> !self.keys@[j]),
            decreases NUM_KEYS - i,
        {
            if self.keys[i] && !found {
                found = true;
                key = i as u8;
            }
            i = i + 1;
        }
        if found {
            proof {
                lemma_first_pressed_is(self.keys@, key as int);
            }
            self.v_reg.set(x as usize, key);
        } else {
            proof {
                lemma_first_pressed_none(self.keys@);
            }
            self.pc = self.pc - 2;
        }
    }

    /// Store `V0..=VX` into memory starting at `I`.
    fn op_store_regs(&mut self, x: u8)
        requires
            wf(old(self)@),
            x < 16,
            old(self)@.i_reg + x + 1 <= RAM_SIZE,
        ensures
            wf(final(self)@),
            final(self)@ == exec_instr(old(self)@, Instr::StoreRegs(x), 0),
    {
        let i0 = self.i_reg as usize;
        let cnt = x as usize + 1;
        let mut j: usize = 0;
        while j < cnt
            invariant
                wf(old(self)@),
                j <= cnt,
                cnt == x as usize + 1,
                x < 16,
                i0 == old(self)@.i_reg,
                i0 + cnt <= RAM_SIZE,
                self.ram@.len() == RAM_SIZE,
                self.v_reg@ == old(self)@.regs,
                self.screen@ == old(self)@.screen,
                self.stack@ == old(self)@.stack,
                self.keys@ == old(self)@.keys,
                self.pc == old(self).pc,
                self.i_reg == old(self).i_reg,
                self.sp == old(self).sp,
                self.dt == old(self).dt,
                self.st == old(self).st,
                forall|a: int| i0 <= a < i0 + j ==> self.ram@[a] == old(self)@.regs[a - i0],
                forall|a: int|
                    0 <= a < RAM_SIZE && !(i0 <= a < i0 + j) ==> self.ram@[a] == old(self)@.ram[a],
            decreases cnt - j,
        {
            let v = self.v_reg[j];
            self.ram.set(i0 + j, v);
            j = j + 1;
        }
        proof {
            assert(self.ram@ =~= exec_instr(old(self)@, Instr::StoreRegs(x), 0).ram);
        }
    }

    /// Load `V0..=VX` from memory starting at `I`.
    fn op_load_regs(&mut self, x: u8)
        requires
            wf(old(self)@),
            x < 16,
            old(self)@.i_reg + x + 1 <= RAM_SIZE,
        ensures
            wf(final(self)@),
            final(self)@ == exec_instr(old(self)@, Instr::LoadRegs(x), 0),
    {
        let i0 = self.i_reg as usize;
        let cnt = x as usize + 1;
        let mut j: usize = 0;
        while j < cnt
            invariant
                wf(old(self)@),
                j <= cnt,
                cnt == x as usize + 1,
                x < 16,
                i0 == old(self)@.i_reg,
                i0 + cnt <= RAM_SIZE,
                self.v_reg@.len() == NUM_REGS,
                self.ram@ == old(self)@.ram,
                self.screen@ == old(self)@.screen,
                self.stack@ == old(self)@.stack,
                self.keys@ == old(self)@.keys,
                self.pc == old(self).pc,
                self.i_reg == old(self).i_reg,
                self.sp == old(self).sp,
                self.dt == old(self).dt,
                self.st == old(self).st,
                forall|jj: int| 0 <= jj < j ==> self.v_reg@[jj] == old(self)@.ram[i0 + jj],
                forall|jj: int| j <= jj < NUM_REGS ==> self.v_reg@[jj] == old(self)@.regs[jj],
            decreases cnt - j,
        {
            let v = self.ram[i0 + j];
            self.v_reg.set(j, v);
            j = j + 1;
        }
        proof {
            assert(self.v_reg@ =~= exec_instr(old(self)@, Instr::LoadRegs(x), 0).regs);
        }
    }

    /// Execute one decoded instruction over the post-fetch state.  `rnd`
    /// is the byte the random-number instruction consumes; the result is
    /// exactly what the transition function `exec_instr` prescribes.
    fn execute(&mut self, inst: Instr, rnd: u8)
        requires
            wf(old(self)@),
            instr_wf(inst),
            instr_enabled(old(self)@, inst),
            old(self)@.pc + 2 <= 0xFFFF,
        ensures
            wf(final(self)@),
            final(self)@ == exec_instr(old(self)@, inst, rnd),
    {
        match inst {
            Instr::Nop => {},
            Instr::Cls => {
                self.screen = filled(SCREEN_WIDTH * SCREEN_HEIGHT, false);
                proof {
                    assert(self.screen@ =~= exec_instr(old(self)@, inst, rnd).screen);
                }
            },
            Instr::Ret => {
                let a = self.pop();
                self.pc = a;
            },
            Instr::Jump(nnn) => {
                self.pc = nnn;
            },
            Instr::Call(nnn) => {
                let pc = self.pc;
                self.push(pc);
                self.pc = nnn;
            },
            Instr::SkipEqImm(x, nn) => {
                if self.v_reg[x as usize] == nn {
                    self.pc = self.pc + 2;
                }
            },
            Instr::SkipNeImm(x, nn) => {
                if self.v_reg[x as usize] != nn {
                    self.pc = self.pc + 2;
                }
            },
            Instr::SkipEqReg(x, y) => {
                if self.v_reg[x as usize] == self.v_reg[y as usize] {
                    self.pc = self.pc + 2;
                }
            },
            Instr::MovImm(x, nn) => {
                self.v_reg.set(x as usize, nn);
            },
            Instr::AddImm(x, nn) => {
                let v = self.v_reg[x as usize];
                let sum = v as u16 + nn as u16;
                self.v_reg.set(x as usize, (sum % 256) as u8);
            },
            Instr::MovReg(x, y) => {
                let v = self.v_reg[y as usize];
                self.v_reg.set(x as usize, v);
            },
            Instr::OrReg(x, y) => {
                let v = self.v_reg[x as usize] | self.v_reg[y as usize];
                self.v_reg.set(x as usize, v);
            },
            Instr::AndReg(x, y) => {
                let v = self.v_reg[x as usize] & self.v_reg[y as usize];
                self.v_reg.set(x as usize, v);
            },
            Instr::XorReg(x, y) => {
                let v = self.v_reg[x as usize] ^ self.v_reg[y as usize];
                self.v_reg.set(x as usize, v);
            },
            Instr::AddReg(x, y) => {
                let vx = self.v_reg[x as usize];
                let vy = self.v_reg[y as usize];
                let sum = vx as u16 + vy as u16;
                self.v_reg.set(x as usize, (sum % 256) as u8);
                let carry: u8 = if sum > 255 {
                    1
                } else {
                    0
                };
                self.v_reg.set(15, carry);
            },
            Instr::SubReg(x, y) => {
                let vx = self.v_reg[x as usize];
                let vy = self.v_reg[y as usize];
                let d = (vx as u16 + 256) - (vy as u16);
                assert((vx as int - vy as int) % 256 == (vx as int + 256 - vy as int) % 256);
                self.v_reg.set(x as usize, (d % 256) as u8);
                let flag: u8 = if vx >= vy {
                    1
                } else {
                    0
                };
                self.v_reg.set(15, flag);
            },
            Instr::ShrReg(x) => {
                let vx = self.v_reg[x as usize];
                self.v_reg.set(x as usize, vx / 2);
                self.v_reg.set(15, vx % 2);
            },
            Instr::SubFrom(x, y) => {
                let vx = self.v_reg[x as usize];
                let vy = self.v_reg[y as usize];
                let d = (vy as u16 + 256) - (vx as u16);
                assert((vy as int - vx as int) % 256 == (vy as int + 256 - vx as int) % 256);
                self.v_reg.set(x as usize, (d % 256) as u8);
                let flag: u8 = if vy >= vx {
                    1
                } else {
                    0
                };
                self.v_reg.set(15, flag);
            },
            Instr::ShlReg(x) => {
                let vx = self.v_reg[x as usize];
                let d = (vx as u16) * 2;
                self.v_reg.set(x as usize, (d % 256) as u8);
                self.v_reg.set(15, vx / 128);
            },
            Instr::SkipNeReg(x, y) => {
                if self.v_reg[x as usize] != self.v_reg[y as usize] {
                    self.pc = self.pc + 2;
                }
            },
            Instr::MovI(nnn) => {
                self.i_reg = nnn;
            },
            Instr::JumpV0(nnn) => {
                self.pc = self.v_reg[0] as u16 + nnn;
            },
            Instr::Rand(x, nn) => {
                self.v_reg.set(x as usize, rnd & nn);
            },
            Instr::Draw(x, y, n) => {
                self.op_draw(x, y, n);
            },
            Instr::SkipKey(x) => {
                let vx = self.v_reg[x as usize];
                if self.keys[vx as usize] {
                    self.pc = self.pc + 2;
                }
            },
            Instr::SkipNoKey(x) => {
                let vx = self.v_reg[x as usize];
                if !self.keys[vx as usize] {
                    self.pc = self.pc + 2;
                }
            },
            Instr::ReadDelay(x) => {
                let v = self.dt;
                self.v_reg.set(x as usize, v);
            },
            Instr::WaitKey(x) => {
                self.op_wait_key(x);
            },
            Instr::WriteDelay(x) => {
                self.dt = self.v_reg[x as usize];
            },
            Instr::WriteSound(x) => {
                self.st = self.v_reg[x as usize];
            },
            Instr::AddI(x) => {
                let r = (self.i_reg as u32 + self.v_reg[x as usize] as u32) % 0x10000;
                self.i_reg = r as u16;
            },
            Instr::FontAddr(x) => {
                self.i_reg = 5 * (self.v_reg[x as usize] as u16);
            },
            Instr::Bcd(x) => {
                let v = self.v_reg[x as usize];
                let i = self.i_reg as usize;
                self.ram.set(i, v / 100);
                self.ram.set(i + 1, (v / 10) % 10);
                self.ram.set(i + 2, v % 10);
            },
            Instr::StoreRegs(x) => {
                self.op_store_regs(x);
            },
            Instr::LoadRegs(x) => {
                self.op_load_regs(x);
            },
        }
    }

    /// Whether the next `tick` would run without a fatal error: the fetch
    /// stays in memory, the opcode at the program counter is recognized,
    /// and its stack, memory and keypad accesses are in range.
    pub fn can_tick(&self) -> (r: bool)
        requires
            wf(self@),
        ensures
            r == tick_enabled(self@),
    {
        if self.pc as usize + 2 > RAM_SIZE {
            return false;
        }
        let hi = self.ram[self.pc as usize];
        let lo = self.ram[self.pc as usize + 1];
        let op = (hi as u16) * 256 + (lo as u16);
        assert(op == spec_opcode(self@));
        proof {
            lemma_decode_wf(op);
        }
        match decode(op) {
            None => false,
            Some(inst) => match inst {
                Instr::Ret => self.sp > 0,
                Instr::Call(_) => (self.sp as usize) < STACK_SIZE,
                Instr::Draw(_, _, n) => self.i_reg as usize + (n as usize) <= RAM_SIZE,
                Instr::SkipKey(x) => (self.v_reg[x as usize] as usize) < NUM_KEYS,
                Instr::SkipNoKey(x) => (self.v_reg[x as usize] as usize) < NUM_KEYS,
                Instr::Bcd(_) => self.i_reg as usize + 3 <= RAM_SIZE,
                Instr::StoreRegs(x) => self.i_reg as usize + (x as usize) + 1 <= RAM_SIZE,
                Instr::LoadRegs(x) => self.i_reg as usize + (x as usize) + 1 <= RAM_SIZE,
                _ => true,
            },
        }
    }

    /// One fetch-decode-execute cycle.  The new state is the transition
    /// function applied to the old one with some byte for the random
    /// instruction; for every other instruction the byte is irrelevant and
    /// the step is fully determined.
    pub fn tick(&mut self)
        requires
            wf(old(self)@),
            tick_enabled(old(self)@),
        ensures
            wf(final(self)@),
            exists|r: u8| final(self)@ == spec_tick(old(self)@, r),
            !uses_rand(old(self)@) ==> final(self)@ == spec_tick(old(self)@, 0),
    {
        let op = self.fetch();
        let inst = decode(op).unwrap();
        proof {
            lemma_decode_wf(op);
        }
        let rnd = random_byte();
        self.execute(inst, rnd);
        proof {
            assert(self@ == spec_tick(old(self)@, rnd));
            if !uses_rand(old(self)@) {
                lemma_exec_instr_rnd(advance(old(self)@), inst, rnd, 0);
            }
        }
    }
}

/// Value of the single sprite bit `b` (0 = most significant).
fn bit_weight_exec(b: usize) -> (r: u8)
    requires
        b < 8,
    ensures
        r == bit_weight(b as int),
{
    if b == 0 {
        128
    } else if b == 1 {
        64
    } else if b == 2 {
        32
    } else if b == 3 {
        16
    } else if b == 4 {
        8
    } else if b == 5 {
        4
    } else if b == 6 {
        2
    } else {
        1
    }
}

/// Relies on rand::random: a uniformly distributed random byte.  Nothing
/// is promised of the value; callers handle every byte alike.
#[verifier::external_body]
fn random_byte() -> u8 {
    rand::random::<u8>()
}

} // verus!
