//! Laws of the machine, stated over its model.

use vstd::prelude::*;
use crate::model::{State, SCREEN_SIZE};
use crate::model::{advance, can_cycle, can_fetch, cycle, fetch_word, timers_ticked};
use crate::font::FONTSET;
use crate::model::{can_step, loaded, step, RAM_SIZE, START_ADDR};
use crate::model::{collides_before, d1, d2, draw, first_pressed, toggled, toggled_before};

verus! {

/// A cycle on the no-op instruction `0000` can always run once the
/// instruction is fetched, and changes nothing but the program counter,
/// which moves on by two.
pub proof fn law_nop_only_advances(s: State, rnd: u8)
    requires
        s.wf(),
        can_fetch(s),
        fetch_word(s) == 0,
    ensures
        can_cycle(s),
        cycle(s, rnd) == (State { pc: (s.pc + 2) as u16, ..s }),
        cycle(s, rnd).pc == s.pc + 2,
{
}

/// `first_pressed(keys, from)` is the lowest index at or after `from` whose
/// key is held down, and the number of keys when there is none.
pub proof fn lemma_first_pressed(keys: Seq<bool>, from: int)
    requires
        0 <= from <= keys.len(),
    ensures
        from <= first_pressed(keys, from) <= keys.len(),
        forall|j: int| from <= j < first_pressed(keys, from) ==> !keys[j],
        first_pressed(keys, from) < keys.len() ==> keys[first_pressed(keys, from)],
    decreases keys.len() - from,
{
    if from < keys.len() && !keys[from] {
        lemma_first_pressed(keys, from + 1);
    }
}

/// While no key is held down, a cycle on the key-wait instruction `FX0A`
/// leaves the whole machine as it was, program counter included: the
/// instruction is met again on the next cycle.
pub proof fn law_key_wait_blocks(s: State, rnd: u8)
    requires
        s.wf(),
        can_fetch(s),
        d1(fetch_word(s)) == 0xF,
        fetch_word(s) % 256 == 0x0A,
        forall|k: int| 0 <= k < s.keys.len() ==> !s.keys[k],
    ensures
        can_cycle(s),
        cycle(s, rnd) == s,
{
    lemma_first_pressed(s.keys, 0);
    let t = advance(s);
    assert(first_pressed(t.keys, 0) == t.keys.len());
}

/// When `k` is the lowest key held down, a cycle on the key-wait
/// instruction `FX0A` puts `k` into register X and moves the program
/// counter on by two; nothing else changes.
pub proof fn law_key_wait_takes_lowest_key(s: State, rnd: u8, k: int)
    requires
        s.wf(),
        can_fetch(s),
        d1(fetch_word(s)) == 0xF,
        fetch_word(s) % 256 == 0x0A,
        0 <= k < s.keys.len(),
        s.keys[k],
        forall|j: int| 0 <= j < k ==> !s.keys[j],
    ensures
        can_cycle(s),
        cycle(s, rnd) == (State {
            pc: (s.pc + 2) as u16,
            v_regs: s.v_regs.update(d2(fetch_word(s)), k as u8),
            ..s
        }),
{
    lemma_first_pressed(s.keys, 0);
    let t = advance(s);
    assert(first_pressed(t.keys, 0) == k);
}

/// The state after `n` steps of the timers.
pub open spec fn timers_ticked_n(s: State, n: nat) -> State
    decreases n,
{
    if n == 0 {
        s
    } else {
        timers_ticked(timers_ticked_n(s, (n - 1) as nat))
    }
}

/// However often the timers are stepped, each has gone down by the number
/// of steps or has stopped at zero; it never wraps round, and nothing else
/// in the machine changes.
pub proof fn law_timers_stop_at_zero(s: State, n: nat)
    ensures
        timers_ticked_n(s, n) == (State {
            delay_timer: if s.delay_timer >= n { (s.delay_timer - n) as u8 } else { 0u8 },
            sound_timer: if s.sound_timer >= n { (s.sound_timer - n) as u8 } else { 0u8 },
            ..s
        }),
        timers_ticked_n(s, n).delay_timer <= s.delay_timer,
        timers_ticked_n(s, n).sound_timer <= s.sound_timer,
    decreases n,
{
    if n > 0 {
        law_timers_stop_at_zero(s, (n - 1) as nat);
    }
}

/// Drawing the same sprite twice at the same place gives back the display
/// as it was. The first draw reports no collision when every cell under a
/// set sprite bit was off, and the second reports one when the first has
/// turned a cell on.
pub proof fn law_draw_twice_restores(s: State, x0: int, y0: int, n: int)
    requires
        s.wf(),
    ensures
        draw(draw(s, x0, y0, n), x0, y0, n).screen == s.screen,
        (forall|k: int|
            0 <= k < SCREEN_SIZE && #[trigger] toggled(s.ram, s.i_reg as int, x0, y0, n, k)
                ==> !s.screen[k]) ==> draw(s, x0, y0, n).v_regs[0xF] == 0,
        (exists|k: int|
            0 <= k < SCREEN_SIZE && #[trigger] toggled(s.ram, s.i_reg as int, x0, y0, n, k)
                && !s.screen[k]) ==> draw(draw(s, x0, y0, n), x0, y0, n).v_regs[0xF] == 1,
{
    let i = s.i_reg as int;
    let once = draw(s, x0, y0, n);
    let twice = draw(once, x0, y0, n);
    assert(twice.screen =~= s.screen);
    if forall|k: int|
        0 <= k < SCREEN_SIZE && #[trigger] toggled(s.ram, i, x0, y0, n, k) ==> !s.screen[k] {
        if collides_before(s.screen, s.ram, i, x0, y0, n, 0) {
            let k = choose|k: int|
                0 <= k < s.screen.len() && s.screen[k] && #[trigger] toggled_before(
                    s.ram,
                    i,
                    x0,
                    y0,
                    n,
                    0,
                    k,
                );
            assert(toggled(s.ram, i, x0, y0, n, k));
        }
    }
    if exists|k: int|
        0 <= k < SCREEN_SIZE && #[trigger] toggled(s.ram, i, x0, y0, n, k) && !s.screen[k] {
        let k = choose|k: int|
            0 <= k < SCREEN_SIZE && #[trigger] toggled(s.ram, i, x0, y0, n, k) && !s.screen[k];
        assert(once.screen[k]);
        assert(toggled_before(once.ram, once.i_reg as int, x0, y0, n, 0, k));
        assert(collides_before(once.screen, once.ram, once.i_reg as int, x0, y0, n, 0));
    }
}

/// Whether the font stands at the bottom of memory.
pub open spec fn font_present(s: State) -> bool {
    forall|a: int| 0 <= a < 80 ==> s.ram[a] == FONTSET[a]
}

/// An instruction that can be executed leaves the machine well formed.
pub proof fn law_step_keeps_wf(s: State, op: u16, rnd: u8)
    requires
        s.wf(),
        can_step(s, op),
    ensures
        step(s, op, rnd).wf(),
{
}

/// A cycle that can run leaves the machine well formed.
pub proof fn law_cycle_keeps_wf(s: State, rnd: u8)
    requires
        s.wf(),
        can_cycle(s),
    ensures
        cycle(s, rnd).wf(),
{
}

/// What an instruction leaves alone: no instruction touches the keypad;
/// only clear-screen and draw touch the display; only the two store
/// instructions `FX33` and `FX55` touch memory; only `FX15` and `FX18` touch
/// a timer, each its own.
pub proof fn law_step_frame(s: State, op: u16, rnd: u8)
    requires
        s.wf(),
        can_step(s, op),
    ensures
        step(s, op, rnd).keys == s.keys,
        op != 0x00E0 && d1(op) != 0xD ==> step(s, op, rnd).screen == s.screen,
        !(d1(op) == 0xF && (op % 256 == 0x33 || op % 256 == 0x55)) ==> step(s, op, rnd).ram
            == s.ram,
        !(d1(op) == 0xF && op % 256 == 0x15) ==> step(s, op, rnd).delay_timer == s.delay_timer,
        !(d1(op) == 0xF && op % 256 == 0x18) ==> step(s, op, rnd).sound_timer == s.sound_timer,
{
}

/// The font outlives every instruction but a store that is aimed at it: it
/// stays in place whenever the two store instructions `FX33` and `FX55`
/// are executed with the index register at or above the font's end.
pub proof fn law_font_survives_step(s: State, op: u16, rnd: u8)
    requires
        s.wf(),
        can_step(s, op),
        font_present(s),
        d1(op) == 0xF && (op % 256 == 0x33 || op % 256 == 0x55) ==> s.i_reg >= 80,
    ensures
        font_present(step(s, op, rnd)),
{
    law_step_frame(s, op, rnd);
}

/// Loading a program leaves the font, and everything else below the start
/// address, in place.
pub proof fn law_load_keeps_low_memory(s: State, bytes: Seq<u8>)
    requires
        s.wf(),
        START_ADDR + bytes.len() <= RAM_SIZE,
    ensures
        loaded(s, bytes).wf(),
        forall|a: int| 0 <= a < START_ADDR ==> loaded(s, bytes).ram[a] == s.ram[a],
        forall|a: int| 0 <= a < bytes.len() ==> loaded(s, bytes).ram[START_ADDR + a] == bytes[a],
        font_present(s) ==> font_present(loaded(s, bytes)),
        font_present(State::initial()),
{
}

} // verus!
