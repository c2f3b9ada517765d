use vstd::prelude::*;
use crate::instr::{Instr, decode_spec};
use crate::model::{
    EmuError, EmuModel, FONTSET_SIZE, NUM_KEYS, NUM_V_REGS, RAM_SIZE, SCREEN_HEIGHT, SCREEN_SIZE,
    SCREEN_WIDTH, START_ADDR, collides, covers, drawn, exec_spec, first_pressed, font,
    initial_model, model_wf, pixel, step_spec, timers_spec, word_at,
};

verus! {

/// Clear-screen leaves every pixel unlit and changes nothing else.
pub proof fn lemma_clear_screen(m: EmuModel, rnd: u8)
    requires
        model_wf(m),
    ensures
        exec_spec(m, Instr::Cls, rnd) is Ok,
        ({
            let m1 = exec_spec(m, Instr::Cls, rnd)->Ok_0;
            &&& m1.screen.len() == SCREEN_SIZE
            &&& forall|p: int| 0 <= p < SCREEN_SIZE ==> !m1.screen[p]
            &&& m1 == (EmuModel { screen: m1.screen, ..m })
        }),
{
}

/// The power-on (and reset) state holds the font table exactly in the low
/// memory and has every register, the stack pointer, both timers, every key
/// latch and every pixel cleared.
pub proof fn lemma_initial_state()
    ensures
        model_wf(initial_model()),
        initial_model().pc == START_ADDR,
        forall|a: int| 0 <= a < FONTSET_SIZE ==> initial_model().ram[a] == font()[a],
        forall|a: int| FONTSET_SIZE <= a < RAM_SIZE ==> initial_model().ram[a] == 0,
        forall|r: int| 0 <= r < NUM_V_REGS ==> initial_model().v[r] == 0,
        initial_model().i == 0,
        initial_model().sp == 0,
        initial_model().dt == 0,
        initial_model().st == 0,
        forall|k: int| 0 <= k < NUM_KEYS ==> !initial_model().keys[k],
        forall|p: int| 0 <= p < SCREEN_SIZE ==> !initial_model().screen[p],
{
}

/// `7XNN` adds modulo 256 and leaves the flag register alone unless it is
/// the target; `8XY4` stores the sum modulo 256 and sets the flag to 1
/// exactly when the sum exceeds 255.
pub proof fn lemma_add(m: EmuModel, x: u8, y: u8, nn: u8, rnd: u8)
    requires
        model_wf(m),
        x < NUM_V_REGS,
        y < NUM_V_REGS,
    ensures
        exec_spec(m, Instr::AddImm(x, nn), rnd) is Ok,
        exec_spec(m, Instr::AddImm(x, nn), rnd)->Ok_0.v[x as int] == (m.v[x as int] + nn) % 256,
        x != 15 ==> exec_spec(m, Instr::AddImm(x, nn), rnd)->Ok_0.v[15] == m.v[15],
        exec_spec(m, Instr::AddReg(x, y), rnd) is Ok,
        exec_spec(m, Instr::AddReg(x, y), rnd)->Ok_0.v[15] == (if m.v[x as int] + m.v[y as int]
            > 255 {
            1u8
        } else {
            0u8
        }),
        x != 15 ==> exec_spec(m, Instr::AddReg(x, y), rnd)->Ok_0.v[x as int] == (m.v[x as int]
            + m.v[y as int]) % 256,
{
}

/// `8XY5` and `8XY7` set the flag to 1 exactly when the minuend is at least
/// the subtrahend, and store the difference modulo 256.
pub proof fn lemma_sub(m: EmuModel, x: u8, y: u8, rnd: u8)
    requires
        model_wf(m),
        x < NUM_V_REGS,
        y < NUM_V_REGS,
    ensures
        exec_spec(m, Instr::Sub(x, y), rnd) is Ok,
        exec_spec(m, Instr::Sub(x, y), rnd)->Ok_0.v[15] == 1 <==> m.v[x as int] >= m.v[y as int],
        exec_spec(m, Instr::Sub(x, y), rnd)->Ok_0.v[15] <= 1,
        x != 15 ==> exec_spec(m, Instr::Sub(x, y), rnd)->Ok_0.v[x as int] == (m.v[x as int]
            - m.v[y as int]) % 256,
        exec_spec(m, Instr::SubRev(x, y), rnd) is Ok,
        exec_spec(m, Instr::SubRev(x, y), rnd)->Ok_0.v[15] == 1 <==> m.v[y as int] >= m.v[x as int],
        exec_spec(m, Instr::SubRev(x, y), rnd)->Ok_0.v[15] <= 1,
        x != 15 ==> exec_spec(m, Instr::SubRev(x, y), rnd)->Ok_0.v[x as int] == (m.v[y as int]
            - m.v[x as int]) % 256,
{
}

/// `8XY6` puts the bit shifted out (the least significant) into the flag
/// register, `8XYE` the most significant one; either is 0 or 1.
pub proof fn lemma_shift_flag(m: EmuModel, x: u8, rnd: u8)
    requires
        model_wf(m),
        x < NUM_V_REGS,
    ensures
        exec_spec(m, Instr::Shr(x), rnd) is Ok,
        exec_spec(m, Instr::Shr(x), rnd)->Ok_0.v[15] == m.v[x as int] % 2,
        exec_spec(m, Instr::Shl(x), rnd) is Ok,
        exec_spec(m, Instr::Shl(x), rnd)->Ok_0.v[15] == m.v[x as int] / 128,
        exec_spec(m, Instr::Shr(x), rnd)->Ok_0.v[15] <= 1,
        exec_spec(m, Instr::Shl(x), rnd)->Ok_0.v[15] <= 1,
{
}

/// Drawing the same sprite twice at the same place restores the screen.
/// The first draw flags a collision exactly when the sprite meets a lit
/// pixel; the second exactly when it meets a pixel that was unlit before
/// the first (so from a blank screen: never, then whenever the sprite has
/// a set bit).
pub proof fn lemma_draw_twice(m: EmuModel, x: u8, y: u8, n: u8, rnd: u8)
    requires
        model_wf(m),
        x < 15,
        y < 15,
        n < 16,
        m.i + n <= RAM_SIZE,
    ensures
        exec_spec(m, Instr::Draw(x, y, n), rnd) is Ok,
        ({
            let m1 = exec_spec(m, Instr::Draw(x, y, n), rnd)->Ok_0;
            let vx = m.v[x as int] as int;
            let vy = m.v[y as int] as int;
            &&& exec_spec(m1, Instr::Draw(x, y, n), rnd) is Ok
            &&& exec_spec(m1, Instr::Draw(x, y, n), rnd)->Ok_0.screen == m.screen
            &&& (m1.v[15] == 1 <==> collides(m.screen, m.ram, m.i as int, vx, vy, n as int))
            &&& (exec_spec(m1, Instr::Draw(x, y, n), rnd)->Ok_0.v[15] == 1 <==> exists|
                r: int,
                c: int,
            |
                0 <= r < SCREEN_HEIGHT && 0 <= c < SCREEN_WIDTH && !#[trigger] pixel(m.screen, r, c)
                    && covers(m.ram, m.i as int, vx, vy, n as int, r, c))
        }),
{
    let vx = m.v[x as int] as int;
    let vy = m.v[y as int] as int;
    let i = m.i as int;
    let s1 = drawn(m.screen, m.ram, i, vx, vy, n as int);
    let s2 = drawn(s1, m.ram, i, vx, vy, n as int);
    assert(s2 =~= m.screen);
    assert forall|r: int, c: int| 0 <= r < SCREEN_HEIGHT && 0 <= c < SCREEN_WIDTH implies #[trigger] pixel(
        s1,
        r,
        c,
    ) == (pixel(m.screen, r, c) != covers(m.ram, i, vx, vy, n as int, r, c)) by {
        assert((r * 64 + c) / 64 == r);
        assert((r * 64 + c) % 64 == c);
    }
    let hit2 = collides(s1, m.ram, i, vx, vy, n as int);
    if hit2 {
        let (r0, c0) = choose|r: int, c: int|
            0 <= r < SCREEN_HEIGHT && 0 <= c < SCREEN_WIDTH && #[trigger] pixel(s1, r, c) && covers(
                m.ram,
                i,
                vx,
                vy,
                n as int,
                r,
                c,
            );
        assert(!pixel(m.screen, r0, c0));
    }
    if exists|r: int, c: int|
        0 <= r < SCREEN_HEIGHT && 0 <= c < SCREEN_WIDTH && !#[trigger] pixel(m.screen, r, c) && covers(
            m.ram,
            i,
            vx,
            vy,
            n as int,
            r,
            c,
        ) {
        let (r0, c0) = choose|r: int, c: int|
            0 <= r < SCREEN_HEIGHT && 0 <= c < SCREEN_WIDTH && !#[trigger] pixel(m.screen, r, c)
                && covers(m.ram, i, vx, vy, n as int, r, c);
        assert(pixel(s1, r0, c0));
    }
}

/// The key wait with no key pressed leaves the whole machine as it was, so
/// any number of repetitions makes no progress.
pub proof fn lemma_wait_key_idle(m: EmuModel, x: u8, rnd: u8)
    requires
        model_wf(m),
        m.pc + 1 < RAM_SIZE,
        decode_spec(word_at(m)) == Some(Instr::WaitKey(x)),
        forall|k: int| 0 <= k < NUM_KEYS ==> !m.keys[k],
    ensures
        step_spec(m, rnd) == Ok::<EmuModel, EmuError>(m),
{
    assert(!exists|k: int| first_pressed(m.keys, k));
    let m1 = step_spec(m, rnd)->Ok_0;
    assert(m1 =~= m);
}

/// Once a key is pressed, the key wait stores the lowest pressed key's
/// number in its register and moves on to the next instruction.
pub proof fn lemma_wait_key_pressed(m: EmuModel, x: u8, k: int, rnd: u8)
    requires
        model_wf(m),
        x < NUM_V_REGS,
        m.pc + 1 < RAM_SIZE,
        decode_spec(word_at(m)) == Some(Instr::WaitKey(x)),
        first_pressed(m.keys, k),
    ensures
        step_spec(m, rnd) is Ok,
        step_spec(m, rnd)->Ok_0.v[x as int] == k,
        step_spec(m, rnd)->Ok_0.pc == m.pc + 2,
{
    let c = choose|j: int| first_pressed(m.keys, j);
    assert(first_pressed(m.keys, c));
    assert(c == k);
}

/// A call to a return instruction comes back to the instruction after the
/// call, with the stack pointer as it was before the call.
pub proof fn lemma_call_return(m: EmuModel, a: u16, rnd: u8)
    requires
        model_wf(m),
        m.pc + 1 < RAM_SIZE,
        m.sp < 16,
        decode_spec(word_at(m)) == Some(Instr::Call(a)),
        a + 1 < RAM_SIZE,
        m.ram[a as int] == 0x00,
        m.ram[a + 1] == 0xEE,
    ensures
        step_spec(m, rnd) is Ok,
        step_spec(step_spec(m, rnd)->Ok_0, rnd) is Ok,
        step_spec(step_spec(m, rnd)->Ok_0, rnd)->Ok_0.pc == m.pc + 2,
        step_spec(step_spec(m, rnd)->Ok_0, rnd)->Ok_0.sp == m.sp,
{
    let m1 = step_spec(m, rnd)->Ok_0;
    assert(m1.pc == a && m1.ram == m.ram);
    assert(word_at(m1) == 0x00EE);
    assert(decode_spec(0x00EEu16) == Some(Instr::Ret));
}

/// A sound timer at 1 reaches 0 on the next tick, which raises the tone
/// signal; a sound timer at 0 stays there and raises nothing.
pub proof fn lemma_sound_timer(m: EmuModel)
    ensures
        m.st == 1 ==> timers_spec(m).0.st == 0 && timers_spec(m).1,
        m.st == 0 ==> timers_spec(m).0.st == 0 && !timers_spec(m).1,
        m.st == 1 ==> timers_spec(timers_spec(m).0).0.st == 0 && !timers_spec(timers_spec(m).0).1,
{
}

} // verus!
