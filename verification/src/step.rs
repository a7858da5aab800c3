//! Instruction semantics: the machine's transition function.
//!
//! `exec_instr` gives the meaning of one decoded instruction over a
//! post-fetch state (program counter already advanced by 2); `spec_tick`
//! composes fetch, decode and execute into one machine step.  The `rnd`
//! argument supplies the byte that the random-number instruction consumes,
//! so the transition itself is a function.

use vstd::prelude::*;

use crate::decode::Instr;
use crate::decode::spec_decode;
use crate::state::MachineState;
use crate::state::NUM_KEYS;
use crate::state::RAM_SIZE;
use crate::state::STACK_SIZE;

verus! {

/// `x` reduced to a byte, the wraparound of 8-bit arithmetic.
pub open spec fn wrap8(x: int) -> u8 {
    (x % 256) as u8
}

/// `x` reduced to 16 bits, the wraparound of 16-bit arithmetic.
pub open spec fn wrap16(x: int) -> u16 {
    (x % 0x10000) as u16
}

/// The state with the program counter moved past one skipped instruction.
pub open spec fn skip(s: MachineState) -> MachineState {
    MachineState { pc: (s.pc + 2) as u16, ..s }
}

/// Value of the single bit `b` (0 = most significant) as a power of two.
pub open spec fn bit_weight(b: int) -> u8 {
    if b == 0 {
        128
    } else if b == 1 {
        64
    } else if b == 2 {
        32
    } else if b == 3 {
        16
    } else if b == 4 {
        8
    } else if b == 5 {
        4
    } else if b == 6 {
        2
    } else {
        1
    }
}

/// Whether bit `b` (0 = most significant) of sprite row byte `p` is set.
pub open spec fn sprite_bit(p: u8, b: int) -> bool {
    (p / bit_weight(b)) % 2 == 1
}

/// Display cell targeted by sprite bit `b` of row `r` for a sprite anchored
/// at `(xc, yc)`; coordinates wrap around the display edges.
pub open spec fn cell_of(xc: u8, yc: u8, b: int, r: int) -> int {
    ((yc + r) % 32) * 64 + ((xc + b) % 64)
}

/// Whether some set sprite bit among the pairs `(r, b)` that precede
/// `(r_lim, b_lim)` in row-major order targets cell `idx`.
pub open spec fn covers_prefix(
    ram: Seq<u8>,
    i0: u16,
    xc: u8,
    yc: u8,
    r_lim: int,
    b_lim: int,
    idx: int,
) -> bool {
    exists|r: int, b: int|
        0 <= r && 0 <= b < 8 && (r < r_lim || (r == r_lim && b < b_lim)) && sprite_bit(
            ram[i0 + r],
            b,
        ) && idx == #[trigger] cell_of(xc, yc, b, r)
}

/// Whether the `n`-row sprite at memory address `i0` drawn at `(xc, yc)`
/// targets cell `idx`.
pub open spec fn sprite_covers(ram: Seq<u8>, i0: u16, xc: u8, yc: u8, n: u8, idx: int) -> bool {
    covers_prefix(ram, i0, xc, yc, n as int, 0, idx)
}

/// The display after XOR-drawing the sprite: exactly the targeted cells are
/// toggled.
pub open spec fn draw_screen(
    scr: Seq<bool>,
    ram: Seq<u8>,
    i0: u16,
    xc: u8,
    yc: u8,
    n: u8,
) -> Seq<bool> {
    Seq::new(scr.len(), |idx: int| scr[idx] != sprite_covers(ram, i0, xc, yc, n, idx))
}

/// Whether some set sprite bit among the pairs preceding `(r_lim, b_lim)`
/// targets a cell that is lit in `scr`.
pub open spec fn collision_prefix(
    scr: Seq<bool>,
    ram: Seq<u8>,
    i0: u16,
    xc: u8,
    yc: u8,
    r_lim: int,
    b_lim: int,
) -> bool {
    exists|r: int, b: int|
        0 <= r && 0 <= b < 8 && (r < r_lim || (r == r_lim && b < b_lim)) && sprite_bit(
            ram[i0 + r],
            b,
        ) && scr[#[trigger] cell_of(xc, yc, b, r)]
}

/// Whether drawing the sprite turns some already-lit cell off.
pub open spec fn draw_collision(
    scr: Seq<bool>,
    ram: Seq<u8>,
    i0: u16,
    xc: u8,
    yc: u8,
    n: u8,
) -> bool {
    collision_prefix(scr, ram, i0, xc, yc, n as int, 0)
}

/// Index of the lowest pressed key at or above `i`, if any.
pub open spec fn first_pressed_from(keys: Seq<bool>, i: int) -> Option<u8>
    decreases NUM_KEYS - i,
{
    if i < 0 || i >= NUM_KEYS {
        None
    } else if keys[i] {
        Some(i as u8)
    } else {
        first_pressed_from(keys, i + 1)
    }
}

/// Index of the lowest pressed key, if any.
pub open spec fn first_pressed(keys: Seq<bool>) -> Option<u8> {
    first_pressed_from(keys, 0)
}

/// One timer decrement: down by one, saturating at zero.
pub open spec fn dec_sat(t: u8) -> u8 {
    if t > 0 {
        (t - 1) as u8
    } else {
        0
    }
}

/// `n` timer decrements in a row.
pub open spec fn dec_sat_iter(t: u8, n: nat) -> u8
    decreases n,
{
    if n == 0 {
        t
    } else {
        dec_sat_iter(dec_sat(t), (n - 1) as nat)
    }
}

/// Meaning of one decoded instruction over the post-fetch state `s`.
/// `rnd` is the byte consumed by `Instr::Rand`; no other instruction
/// depends on it.  Where the flag register `VF` is an output it is written
/// last, so an `X` operand of 15 receives the flag value.
pub open spec fn exec_instr(s: MachineState, inst: Instr, rnd: u8) -> MachineState {
    match inst {
        Instr::Nop => s,
        Instr::Cls => MachineState {
            screen: Seq::new(s.screen.len(), |i: int| false),
            ..s
        },
        Instr::Ret => MachineState { sp: (s.sp - 1) as u16, pc: s.stack[s.sp - 1], ..s },
        Instr::Jump(nnn) => MachineState { pc: nnn, ..s },
        Instr::Call(nnn) => MachineState {
            stack: s.stack.update(s.sp as int, s.pc),
            sp: (s.sp + 1) as u16,
            pc: nnn,
            ..s
        },
        Instr::SkipEqImm(x, nn) => if s.regs[x as int] == nn {
            skip(s)
        } else {
            s
        },
        Instr::SkipNeImm(x, nn) => if s.regs[x as int] != nn {
            skip(s)
        } else {
            s
        },
        Instr::SkipEqReg(x, y) => if s.regs[x as int] == s.regs[y as int] {
            skip(s)
        } else {
            s
        },
        Instr::MovImm(x, nn) => MachineState { regs: s.regs.update(x as int, nn), ..s },
        Instr::AddImm(x, nn) => MachineState {
            regs: s.regs.update(x as int, wrap8(s.regs[x as int] + nn)),
            ..s
        },
        Instr::MovReg(x, y) => MachineState {
            regs: s.regs.update(x as int, s.regs[y as int]),
            ..s
        },
        Instr::OrReg(x, y) => MachineState {
            regs: s.regs.update(x as int, s.regs[x as int] | s.regs[y as int]),
            ..s
        },
        Instr::AndReg(x, y) => MachineState {
            regs: s.regs.update(x as int, s.regs[x as int] & s.regs[y as int]),
            ..s
        },
        Instr::XorReg(x, y) => MachineState {
            regs: s.regs.update(x as int, s.regs[x as int] ^ s.regs[y as int]),
            ..s
        },
        Instr::AddReg(x, y) => MachineState {
            regs: s.regs.update(x as int, wrap8(s.regs[x as int] + s.regs[y as int])).update(
                15,
                if s.regs[x as int] + s.regs[y as int] > 255 {
                    1u8
                } else {
                    0u8
                },
            ),
            ..s
        },
        Instr::SubReg(x, y) => MachineState {
            regs: s.regs.update(x as int, wrap8(s.regs[x as int] - s.regs[y as int])).update(
                15,
                if s.regs[x as int] >= s.regs[y as int] {
                    1u8
                } else {
                    0u8
                },
            ),
            ..s
        },
        Instr::ShrReg(x) => MachineState {
            regs: s.regs.update(x as int, s.regs[x as int] / 2).update(
                15,
                s.regs[x as int] % 2,
            ),
            ..s
        },
        Instr::SubFrom(x, y) => MachineState {
            regs: s.regs.update(x as int, wrap8(s.regs[y as int] - s.regs[x as int])).update(
                15,
                if s.regs[y as int] >= s.regs[x as int] {
                    1u8
                } else {
                    0u8
                },
            ),
            ..s
        },
        Instr::ShlReg(x) => MachineState {
            regs: s.regs.update(x as int, wrap8(s.regs[x as int] * 2)).update(
                15,
                s.regs[x as int] / 128,
            ),
            ..s
        },
        Instr::SkipNeReg(x, y) => if s.regs[x as int] != s.regs[y as int] {
            skip(s)
        } else {
            s
        },
        Instr::MovI(nnn) => MachineState { i_reg: nnn, ..s },
        Instr::JumpV0(nnn) => MachineState { pc: (s.regs[0] + nnn) as u16, ..s },
        Instr::Rand(x, nn) => MachineState { regs: s.regs.update(x as int, rnd & nn), ..s },
        Instr::Draw(x, y, n) => {
            let xc = s.regs[x as int];
            let yc = s.regs[y as int];
            MachineState {
                screen: draw_screen(s.screen, s.ram, s.i_reg, xc, yc, n),
                regs: s.regs.update(
                    15,
                    if draw_collision(s.screen, s.ram, s.i_reg, xc, yc, n) {
                        1u8
                    } else {
                        0u8
                    },
                ),
                ..s
            }
        },
        Instr::SkipKey(x) => if s.keys[s.regs[x as int] as int] {
            skip(s)
        } else {
            s
        },
        Instr::SkipNoKey(x) => if !s.keys[s.regs[x as int] as int] {
            skip(s)
        } else {
            s
        },
        Instr::ReadDelay(x) => MachineState { regs: s.regs.update(x as int, s.dt), ..s },
        Instr::WaitKey(x) => match first_pressed(s.keys) {
            Some(k) => MachineState { regs: s.regs.update(x as int, k), ..s },
            None => MachineState { pc: (s.pc - 2) as u16, ..s },
        },
        Instr::WriteDelay(x) => MachineState { dt: s.regs[x as int], ..s },
        Instr::WriteSound(x) => MachineState { st: s.regs[x as int], ..s },
        Instr::AddI(x) => MachineState {
            i_reg: wrap16(s.i_reg + s.regs[x as int]),
            ..s
        },
        Instr::FontAddr(x) => MachineState { i_reg: (5 * s.regs[x as int]) as u16, ..s },
        Instr::Bcd(x) => {
            let v = s.regs[x as int];
            MachineState {
                ram: s.ram.update(s.i_reg as int, v / 100).update(s.i_reg + 1, (v / 10) % 10)
                    .update(s.i_reg + 2, v % 10),
                ..s
            }
        },
        Instr::StoreRegs(x) => MachineState {
            ram: Seq::new(
                s.ram.len(),
                |a: int|
                    if s.i_reg <= a <= s.i_reg + x {
                        s.regs[a - s.i_reg]
                    } else {
                        s.ram[a]
                    },
            ),
            ..s
        },
        Instr::LoadRegs(x) => MachineState {
            regs: Seq::new(
                s.regs.len(),
                |j: int|
                    if j <= x {
                        s.ram[s.i_reg + j]
                    } else {
                        s.regs[j]
                    },
            ),
            ..s
        },
    }
}

/// Side conditions under which an instruction executes without a fatal
/// error: the call stack neither overflows nor underflows, and every
/// memory or keypad access stays in range.  `s` is the post-fetch state.
pub open spec fn instr_enabled(s: MachineState, inst: Instr) -> bool {
    match inst {
        Instr::Ret => s.sp > 0,
        Instr::Call(_) => s.sp < STACK_SIZE,
        Instr::Draw(_, _, n) => s.i_reg + n <= RAM_SIZE,
        Instr::SkipKey(x) => s.regs[x as int] < NUM_KEYS,
        Instr::SkipNoKey(x) => s.regs[x as int] < NUM_KEYS,
        Instr::WaitKey(_) => s.pc >= 2,
        Instr::Bcd(_) => s.i_reg + 3 <= RAM_SIZE,
        Instr::StoreRegs(x) => s.i_reg + x + 1 <= RAM_SIZE,
        Instr::LoadRegs(x) => s.i_reg + x + 1 <= RAM_SIZE,
        _ => true,
    }
}

/// The opcode word at the program counter: two bytes, big-endian.
pub open spec fn spec_opcode(s: MachineState) -> u16 {
    ((s.ram[s.pc as int] as int) * 256 + s.ram[s.pc as int + 1] as int) as u16
}

/// The state right after a fetch: program counter advanced by 2.
pub open spec fn advance(s: MachineState) -> MachineState {
    MachineState { pc: (s.pc + 2) as u16, ..s }
}

/// Whether one whole machine step runs without a fatal error: the fetch is
/// in bounds, the opcode is recognized, and its side conditions hold.
pub open spec fn tick_enabled(s: MachineState) -> bool {
    &&& s.pc + 2 <= RAM_SIZE
    &&& match spec_decode(spec_opcode(s)) {
        Some(inst) => instr_enabled(advance(s), inst),
        None => false,
    }
}

/// One whole machine step: fetch, decode, execute.  `rnd` is the byte a
/// random-number instruction would consume.
pub open spec fn spec_tick(s: MachineState, rnd: u8) -> MachineState {
    match spec_decode(spec_opcode(s)) {
        Some(inst) => exec_instr(advance(s), inst, rnd),
        None => s,
    }
}

/// Whether the next instruction is the random-number instruction, the one
/// instruction whose outcome `spec_tick` does not determine.
pub open spec fn uses_rand(s: MachineState) -> bool {
    match spec_decode(spec_opcode(s)) {
        Some(inst) => inst is Rand,
        None => false,
    }
}

/// Every instruction except the random-number one ignores the random byte.
pub proof fn lemma_exec_instr_rnd(s: MachineState, inst: Instr, r1: u8, r2: u8)
    requires
        !(inst is Rand),
    ensures
        exec_instr(s, inst, r1) == exec_instr(s, inst, r2),
{
}

/// Distinct sprite bit positions target distinct display cells: with at
/// most 32 rows and 8 bits, the wrapped coordinates cannot coincide.
pub proof fn lemma_cell_inj(xc: u8, yc: u8, b1: int, r1: int, b2: int, r2: int)
    requires
        0 <= b1 < 8,
        0 <= b2 < 8,
        0 <= r1 < 32,
        0 <= r2 < 32,
        cell_of(xc, yc, b1, r1) == cell_of(xc, yc, b2, r2),
    ensures
        b1 == b2,
        r1 == r2,
{
    let y1 = (yc + r1) % 32;
    let y2 = (yc + r2) % 32;
    let x1 = (xc + b1) % 64;
    let x2 = (xc + b2) % 64;
    assert(0 <= x1 < 64 && 0 <= x2 < 64 && 0 <= y1 < 32 && 0 <= y2 < 32);
    assert(y1 == y2 && x1 == x2);
    assert(r1 == r2) by {
        assert((yc + r1) == 32 * ((yc + r1) / 32) + y1);
        assert((yc + r2) == 32 * ((yc + r2) / 32) + y2);
    }
    assert(b1 == b2) by {
        assert((xc + b1) == 64 * ((xc + b1) / 64) + x1);
        assert((xc + b2) == 64 * ((xc + b2) / 64) + x2);
    }
}

/// Extending the processed prefix by one bit position adds exactly that
/// position's (possible) cell to the covered set.
pub proof fn lemma_covers_snoc(
    ram: Seq<u8>,
    i0: u16,
    xc: u8,
    yc: u8,
    r: int,
    b: int,
    idx: int,
)
    requires
        0 <= r,
        0 <= b < 8,
    ensures
        covers_prefix(ram, i0, xc, yc, r, b + 1, idx) == (covers_prefix(ram, i0, xc, yc, r, b, idx)
            || (sprite_bit(ram[i0 + r], b) && idx == cell_of(xc, yc, b, r))),
{
    if covers_prefix(ram, i0, xc, yc, r, b + 1, idx) {
        let (ra, ba): (int, int) = choose|ra: int, ba: int|
            0 <= ra && 0 <= ba < 8 && (ra < r || (ra == r && ba < b + 1)) && sprite_bit(
                ram[i0 + ra],
                ba,
            ) && idx == #[trigger] cell_of(xc, yc, ba, ra);
        if ra < r || (ra == r && ba < b) {
            assert(covers_prefix(ram, i0, xc, yc, r, b, idx));
        } else {
            assert(ra == r && ba == b);
        }
    }
    if sprite_bit(ram[i0 + r], b) && idx == cell_of(xc, yc, b, r) {
        assert(covers_prefix(ram, i0, xc, yc, r, b + 1, idx));
    }
    if covers_prefix(ram, i0, xc, yc, r, b, idx) {
        let (ra, ba): (int, int) = choose|ra: int, ba: int|
            0 <= ra && 0 <= ba < 8 && (ra < r || (ra == r && ba < b)) && sprite_bit(
                ram[i0 + ra],
                ba,
            ) && idx == #[trigger] cell_of(xc, yc, ba, ra);
        assert(covers_prefix(ram, i0, xc, yc, r, b + 1, idx));
    }
}

/// Finishing a row: the prefix up to bit 8 of row `r` is the prefix up to
/// bit 0 of row `r + 1`.
pub proof fn lemma_covers_row(ram: Seq<u8>, i0: u16, xc: u8, yc: u8, r: int, idx: int)
    requires
        0 <= r,
    ensures
        covers_prefix(ram, i0, xc, yc, r, 8, idx) == covers_prefix(ram, i0, xc, yc, r + 1, 0, idx),
{
    if covers_prefix(ram, i0, xc, yc, r, 8, idx) {
        let (ra, ba): (int, int) = choose|ra: int, ba: int|
            0 <= ra && 0 <= ba < 8 && (ra < r || (ra == r && ba < 8)) && sprite_bit(
                ram[i0 + ra],
                ba,
            ) && idx == #[trigger] cell_of(xc, yc, ba, ra);
        assert(covers_prefix(ram, i0, xc, yc, r + 1, 0, idx));
    }
    if covers_prefix(ram, i0, xc, yc, r + 1, 0, idx) {
        let (ra, ba): (int, int) = choose|ra: int, ba: int|
            0 <= ra && 0 <= ba < 8 && (ra < r + 1) && sprite_bit(ram[i0 + ra], ba) && idx
                == #[trigger] cell_of(xc, yc, ba, ra);
        assert(covers_prefix(ram, i0, xc, yc, r, 8, idx));
    }
}

/// Counterpart of `lemma_covers_snoc` for the collision flag.
pub proof fn lemma_collision_snoc(
    scr: Seq<bool>,
    ram: Seq<u8>,
    i0: u16,
    xc: u8,
    yc: u8,
    r: int,
    b: int,
)
    requires
        0 <= r,
        0 <= b < 8,
    ensures
        collision_prefix(scr, ram, i0, xc, yc, r, b + 1) == (collision_prefix(
            scr,
            ram,
            i0,
            xc,
            yc,
            r,
            b,
        ) || (sprite_bit(ram[i0 + r], b) && scr[cell_of(xc, yc, b, r)])),
{
    if collision_prefix(scr, ram, i0, xc, yc, r, b + 1) {
        let (ra, ba): (int, int) = choose|ra: int, ba: int|
            0 <= ra && 0 <= ba < 8 && (ra < r || (ra == r && ba < b + 1)) && sprite_bit(
                ram[i0 + ra],
                ba,
            ) && scr[#[trigger] cell_of(xc, yc, ba, ra)];
        if ra < r || (ra == r && ba < b) {
            assert(collision_prefix(scr, ram, i0, xc, yc, r, b));
        } else {
            assert(ra == r && ba == b);
        }
    }
    if sprite_bit(ram[i0 + r], b) && scr[cell_of(xc, yc, b, r)] {
        assert(collision_prefix(scr, ram, i0, xc, yc, r, b + 1));
    }
    if collision_prefix(scr, ram, i0, xc, yc, r, b) {
        let (ra, ba): (int, int) = choose|ra: int, ba: int|
            0 <= ra && 0 <= ba < 8 && (ra < r || (ra == r && ba < b)) && sprite_bit(
                ram[i0 + ra],
                ba,
            ) && scr[#[trigger] cell_of(xc, yc, ba, ra)];
        assert(collision_prefix(scr, ram, i0, xc, yc, r, b + 1));
    }
}

/// Counterpart of `lemma_covers_row` for the collision flag.
pub proof fn lemma_collision_row(scr: Seq<bool>, ram: Seq<u8>, i0: u16, xc: u8, yc: u8, r: int)
    requires
        0 <= r,
    ensures
        collision_prefix(scr, ram, i0, xc, yc, r, 8) == collision_prefix(
            scr,
            ram,
            i0,
            xc,
            yc,
            r + 1,
            0,
        ),
{
    if collision_prefix(scr, ram, i0, xc, yc, r, 8) {
        let (ra, ba): (int, int) = choose|ra: int, ba: int|
            0 <= ra && 0 <= ba < 8 && (ra < r || (ra == r && ba < 8)) && sprite_bit(
                ram[i0 + ra],
                ba,
            ) && scr[#[trigger] cell_of(xc, yc, ba, ra)];
        assert(collision_prefix(scr, ram, i0, xc, yc, r + 1, 0));
    }
    if collision_prefix(scr, ram, i0, xc, yc, r + 1, 0) {
        let (ra, ba): (int, int) = choose|ra: int, ba: int|
            0 <= ra && 0 <= ba < 8 && (ra < r + 1) && sprite_bit(ram[i0 + ra], ba)
                && scr[#[trigger] cell_of(xc, yc, ba, ra)];
        assert(collision_prefix(scr, ram, i0, xc, yc, r, 8));
    }
}

/// What `first_pressed_from` yields: a pressed key with none pressed below
/// it, or a guarantee that none at or above `i` is pressed.
pub proof fn lemma_first_pressed_from(keys: Seq<bool>, i: int)
    requires
        0 <= i <= NUM_KEYS,
    ensures
        match first_pressed_from(keys, i) {
            Some(k) => i <= k < NUM_KEYS && keys[k as int] && (forall|j: int|
                i <= j < k ==> !keys[j]),
            None => forall|j: int| i <= j < NUM_KEYS ==> !keys[j],
        },
    decreases NUM_KEYS - i,
{
    if 0 <= i < NUM_KEYS && !keys[i] {
        lemma_first_pressed_from(keys, i + 1);
    }
}

/// A key that is pressed while all lower keys are not is exactly the one
/// `first_pressed` names.
pub proof fn lemma_first_pressed_is(keys: Seq<bool>, k: int)
    requires
        0 <= k < NUM_KEYS,
        keys[k],
        forall|j: int| 0 <= j < k ==> !keys[j],
    ensures
        first_pressed(keys) == Some(k as u8),
{
    lemma_first_pressed_is_from(keys, 0, k)
}

proof fn lemma_first_pressed_is_from(keys: Seq<bool>, i: int, k: int)
    requires
        0 <= i <= k < NUM_KEYS,
        keys[k],
        forall|j: int| i <= j < k ==> !keys[j],
    ensures
        first_pressed_from(keys, i) == Some(k as u8),
    decreases NUM_KEYS - i,
{
    if i < k {
        lemma_first_pressed_is_from(keys, i + 1, k)
    }
}

/// With no key pressed, `first_pressed` names none.
pub proof fn lemma_first_pressed_none(keys: Seq<bool>)
    requires
        forall|j: int| 0 <= j < NUM_KEYS ==> !keys[j],
    ensures
        first_pressed(keys) is None,
{
    lemma_first_pressed_from(keys, 0);
}

} // verus!
