//! Machine-wide laws: properties that relate several operations, stated
//! over the model and proved once for all inputs.

use vstd::prelude::*;

use crate::decode::Instr;
use crate::decode::spec_decode;
use crate::state::FONTSET_SIZE;
use crate::state::MachineState;
use crate::state::NUM_KEYS;
use crate::state::RAM_SIZE;
use crate::state::START_ADDR;
use crate::state::font_byte;
use crate::state::init_state;
use crate::state::wf;
use crate::step::cell_of;
use crate::step::collision_prefix;
use crate::step::dec_sat_iter;
use crate::step::draw_collision;
use crate::step::draw_screen;
use crate::step::lemma_first_pressed_is;
use crate::step::lemma_first_pressed_none;
use crate::step::sprite_bit;
use crate::step::sprite_covers;
use crate::step::tick_enabled;
use crate::step::spec_opcode;
use crate::step::spec_tick;

verus! {

/// Whether the `n`-row sprite at `i0` has any set pixel at all.
pub open spec fn sprite_has_pixel(ram: Seq<u8>, i0: u16, n: u8) -> bool {
    exists|r: int, b: int|
        0 <= r < n && 0 <= b < 8 && #[trigger] sprite_bit(ram[i0 + r], b)
}

/// The initial state — the one that both construction and `reset` yield,
/// making them equivalent and idempotent — has the program counter at
/// `START_ADDR`, every register, timer, stack slot and key zeroed, the
/// display clear, the font table at the bottom of memory, and zeroes
/// everywhere above it.
pub proof fn lemma_initial_state()
    ensures
        wf(init_state()),
        init_state().pc == START_ADDR,
        init_state().i_reg == 0,
        init_state().sp == 0,
        init_state().dt == 0,
        init_state().st == 0,
        forall|i: int| 0 <= i < 16 ==> init_state().regs[i] == 0,
        forall|i: int| 0 <= i < 16 ==> init_state().stack[i] == 0,
        forall|i: int| 0 <= i < 16 ==> !init_state().keys[i],
        forall|i: int| 0 <= i < 64 * 32 ==> !init_state().screen[i],
        forall|i: int| 0 <= i < FONTSET_SIZE ==> init_state().ram[i] == font_byte(i),
        forall|i: int| FONTSET_SIZE <= i < RAM_SIZE ==> init_state().ram[i] == 0,
{
}

/// Drawing the same sprite twice at the same position restores every cell:
/// the XOR-draw is an involution on the display, whatever was on it.
pub proof fn lemma_draw_twice(scr: Seq<bool>, ram: Seq<u8>, i0: u16, xc: u8, yc: u8, n: u8)
    ensures
        draw_screen(draw_screen(scr, ram, i0, xc, yc, n), ram, i0, xc, yc, n) =~= scr,
{
    let s1 = draw_screen(scr, ram, i0, xc, yc, n);
    let s2 = draw_screen(s1, ram, i0, xc, yc, n);
    assert forall|i: int| 0 <= i < scr.len() implies s2[i] == scr[i] by {
        assert(s1[i] == (scr[i] != sprite_covers(ram, i0, xc, yc, n, i)));
    }
}

/// On a clear screen the first draw reports no collision, and — provided
/// the sprite has at least one set pixel — drawing it again at the same
/// position does report one.
pub proof fn lemma_draw_twice_collision(
    scr: Seq<bool>,
    ram: Seq<u8>,
    i0: u16,
    xc: u8,
    yc: u8,
    n: u8,
)
    requires
        scr.len() == 64 * 32,
        forall|i: int| 0 <= i < scr.len() ==> !scr[i],
        n < 16,
    ensures
        !draw_collision(scr, ram, i0, xc, yc, n),
        sprite_has_pixel(ram, i0, n) ==> draw_collision(
            draw_screen(scr, ram, i0, xc, yc, n),
            ram,
            i0,
            xc,
            yc,
            n,
        ),
{
    assert(!draw_collision(scr, ram, i0, xc, yc, n)) by {
        if draw_collision(scr, ram, i0, xc, yc, n) {
            let (ra, ba): (int, int) = choose|ra: int, ba: int|
                0 <= ra && 0 <= ba < 8 && (ra < n as int) && sprite_bit(ram[i0 + ra], ba)
                    && scr[#[trigger] cell_of(xc, yc, ba, ra)];
            assert(0 <= cell_of(xc, yc, ba, ra) < scr.len());
        }
    }
    if sprite_has_pixel(ram, i0, n) {
        let s1 = draw_screen(scr, ram, i0, xc, yc, n);
        let (ra, ba): (int, int) = choose|ra: int, ba: int|
            0 <= ra < n && 0 <= ba < 8 && #[trigger] sprite_bit(ram[i0 + ra], ba);
        let c = cell_of(xc, yc, ba, ra);
        assert(0 <= c < scr.len());
        assert(sprite_covers(ram, i0, xc, yc, n, c)) by {
            assert(0 <= ra && 0 <= ba < 8 && (ra < n as int || (ra == n as int && ba < 0))
                && sprite_bit(ram[i0 + ra], ba) && c == cell_of(xc, yc, ba, ra));
        }
        assert(s1[c]);
        assert(collision_prefix(s1, ram, i0, xc, yc, n as int, 0));
    }
}

/// Stack round-trip: a subroutine call followed by a return leaves the
/// program counter just past the call instruction, with the stack pointer
/// back where it was.
pub proof fn lemma_call_then_ret(s: MachineState, nnn: u16, r1: u8, r2: u8)
    requires
        wf(s),
        tick_enabled(s),
        spec_decode(spec_opcode(s)) == Some(Instr::Call(nnn)),
        spec_decode(spec_opcode(spec_tick(s, r1))) == Some(Instr::Ret),
    ensures
        spec_tick(spec_tick(s, r1), r2).pc == s.pc + 2,
        spec_tick(spec_tick(s, r1), r2).sp == s.sp,
{
}

/// With no key pressed, the wait-for-key instruction leaves the machine
/// exactly as it was: the program counter is rewound over the instruction,
/// so repeated steps idle in place.
pub proof fn lemma_wait_key_blocks(s: MachineState, x: u8, rnd: u8)
    requires
        wf(s),
        s.pc + 2 <= RAM_SIZE,
        spec_decode(spec_opcode(s)) == Some(Instr::WaitKey(x)),
        forall|j: int| 0 <= j < NUM_KEYS ==> !s.keys[j],
    ensures
        spec_tick(s, rnd) == s,
{
    lemma_first_pressed_none(s.keys);
}

/// With `k` the lowest pressed key, the wait-for-key instruction stores
/// `k` in `VX` and execution proceeds past it.
pub proof fn lemma_wait_key_receives(s: MachineState, x: u8, k: u8, rnd: u8)
    requires
        wf(s),
        s.pc + 2 <= RAM_SIZE,
        spec_decode(spec_opcode(s)) == Some(Instr::WaitKey(x)),
        k < NUM_KEYS,
        s.keys[k as int],
        forall|j: int| 0 <= j < k ==> !s.keys[j],
    ensures
        spec_tick(s, rnd) == (MachineState {
            pc: (s.pc + 2) as u16,
            regs: s.regs.update(x as int, k),
            ..s
        }),
{
    lemma_first_pressed_is(s.keys, k as int);
}

/// Timer decay: iterating the saturating decrement never underflows — from
/// zero it stays at zero, and from `t` with `n <= t` ticks it reaches
/// exactly `t - n`.
pub proof fn lemma_timer_decay(t: u8, n: nat)
    ensures
        dec_sat_iter(0, n) == 0,
        n <= t ==> dec_sat_iter(t, n) == t - n,
    decreases n,
{
    if n > 0 {
        lemma_timer_decay(if t > 0 { (t - 1) as u8 } else { 0 }, (n - 1) as nat);
    }
}

} // verus!
