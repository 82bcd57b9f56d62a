use vstd::prelude::*;
use crate::error::Chip8Error;
use crate::instruction::Instruction;
use crate::sprite::{left_column, pixel, right_column, sprite_row, xor_sprite};
use crate::state::{
    cost, exec, fetched, frame_spec, in_memory, instruction_at, key_held, lowest_key,
    lowest_key_from, reg, run, set_reg, tick, MachineState, FRAME_DURATION, MEMORY_SIZE,
};

verus! {

/// Drawing the same sprite at the same place twice gives back the screen
/// that was there before.
pub proof fn lemma_draw_twice_restores(display: Seq<u8>, sprite: Seq<u8>, x: u8, y: u8)
    ensures
        xor_sprite(xor_sprite(display, sprite, x, y), sprite, x, y) == display,
{
    let once = xor_sprite(display, sprite, x, y);
    let twice = xor_sprite(once, sprite, x, y);
    assert forall|b: int| 0 <= b < display.len() implies twice[b] == display[b] by {
        let d = display[b];
        let m = crate::sprite::sprite_mask(sprite, x, y, b);
        assert((d ^ m) ^ m == d) by (bit_vector);
    }
    assert(twice =~= display);
}

/// Executing the same draw twice, with neither coordinate held in the flag
/// register (which the first draw overwrites), restores the screen.
pub proof fn lemma_draw_instruction_twice(s: MachineState, x: u8, y: u8, n: u8, rnd: u8)
    requires
        s.registers.len() == 16,
        (Instruction::Drw { x, y, n }).wf(),
        x != 15,
        y != 15,
        in_memory(s.i, n as int),
    ensures
        (exec(s, (Instruction::Drw { x, y, n }), rnd) matches Ok(once) && exec(
            once,
            (Instruction::Drw { x, y, n }),
            rnd,
        ) matches Ok(twice) && twice.display == s.display),
{
    let ins = Instruction::Drw { x, y, n };
    let once = exec(s, ins, rnd)->Ok_0;
    let sprite = s.memory.subrange(s.i as int, s.i + n);
    assert(reg(once, x) == reg(s, x));
    assert(reg(once, y) == reg(s, y));
    lemma_draw_twice_restores(s.display, sprite, reg(s, x), reg(s, y));
}

/// Register-register addition stores the sum modulo 256 and sets the flag
/// exactly when the sum exceeds 255 (the flag wins when it is the target).
pub proof fn lemma_add_sets_carry(s: MachineState, x: u8, y: u8, rnd: u8)
    requires
        s.registers.len() == 16,
        x < 16,
        y < 16,
    ensures
        (exec(s, (Instruction::AddReg { x, y }), rnd) matches Ok(t) && (x != 15
            ==> t.registers[x as int] == (reg(s, x) + reg(s, y)) % 256) && (t.registers[15] == 1
            <==> reg(s, x) + reg(s, y) > 255) && (t.registers[15] == 0 <==> reg(s, x) + reg(s, y)
            <= 255)),
{
}

/// Subtraction `Vx - Vy` stores the difference modulo 256 and sets the flag
/// exactly when no borrow occurs (the flag wins when it is the target).
pub proof fn lemma_sub_sets_no_borrow(s: MachineState, x: u8, y: u8, rnd: u8)
    requires
        s.registers.len() == 16,
        x < 16,
        y < 16,
    ensures
        (exec(s, (Instruction::Sub { x, y }), rnd) matches Ok(t) && (x != 15
            ==> t.registers[x as int] == (reg(s, x) - reg(s, y)) % 256) && (t.registers[15] == 1
            <==> reg(s, x) >= reg(s, y)) && (t.registers[15] == 0 <==> reg(s, x) < reg(s, y))),
{
}

proof fn lemma_wrap_columns(x: u8, c: u8)
    requires
        c < 8,
    ensures
        x % 8 + c < 8 ==> (x + c) % 64 / 8 == left_column(x) && (x + c) % 64 % 8 == x % 8 + c,
        x % 8 + c >= 8 ==> (x + c) % 64 / 8 == right_column(x) && (x + c) % 64 % 8 == x % 8 + c - 8,
        left_column(x) != right_column(x),
{
}

proof fn lemma_wrap_rows(y: u8, r: int)
    requires
        0 <= r < 32,
    ensures
        sprite_row((y + r) % 32, y) == r,
{
}

proof fn lemma_byte_index(px: int, py: int)
    requires
        0 <= px < 64,
        0 <= py < 32,
    ensures
        0 <= py * 8 + px / 8 < 256,
        (py * 8 + px / 8) / 8 == py,
        (py * 8 + px / 8) % 8 == px / 8,
{
}

/// Every pixel of a sprite lands on the screen, the parts that run past the
/// right or bottom edge wrapping to the opposite edge: pixel `c` of sprite
/// row `r` flips the screen pixel at `((x + c) mod 64, (y + r) mod 32)`.
pub proof fn lemma_sprite_wraps(display: Seq<u8>, sprite: Seq<u8>, x: u8, y: u8, r: int, c: u8)
    requires
        display.len() == 256,
        sprite.len() < 32,
        0 <= r < sprite.len(),
        c < 8,
    ensures
        pixel(xor_sprite(display, sprite, x, y), (x + c) % 64, (y + r) % 32) == pixel(
            display,
            (x + c) % 64,
            (y + r) % 32,
        ) ^ ((sprite[r] >> ((7 - c) as u8)) & 1),
{
    let px = (x + c) % 64;
    let py = (y + r) % 32;
    let b = py * 8 + px / 8;
    lemma_byte_index(px, py);
    lemma_wrap_rows(y, r);
    lemma_wrap_columns(x, c);
    let byte = sprite[r];
    let d = display[b];
    let s: u8 = x % 8;
    let k: u8 = (7 - c) as u8;
    if s + c < 8 {
        let j: u8 = (7 - s - c) as u8;
        assert(((d ^ (byte >> s)) >> j) & 1 == ((d >> j) & 1) ^ ((byte >> k) & 1)) by (bit_vector)
            requires
                s < 8,
                c < 8,
                s + c < 8,
                j == 7 - s - c,
                k == 7 - c,
        ;
    } else {
        let j: u8 = (15 - s - c) as u8;
        let t: u8 = (8 - s) as u8;
        assert(((d ^ (byte << t)) >> j) & 1 == ((d >> j) & 1) ^ ((byte >> k) & 1)) by (bit_vector)
            requires
                s < 8,
                c < 8,
                s + c >= 8,
                j == 15 - s - c,
                k == 7 - c,
                t == 8 - s,
        ;
    }
}

/// While no key is held, a frame that starts on a key wait executes nothing
/// else: only the timers change, the program counter stays on the wait.
pub proof fn lemma_key_wait_blocks(s: MachineState, x: u8, rnds: Seq<u8>)
    requires
        s.pc < MEMORY_SIZE - 1,
        instruction_at(s) == Ok::<Instruction, Chip8Error>((Instruction::LdKey { x })),
        s.keypad == 0,
    ensures
        frame_spec(s, rnds) == Ok::<MachineState, Chip8Error>(tick(s)),
{
    let t = tick(s);
    assert(instruction_at(t) == instruction_at(s));
    let back = exec(fetched(t), Instruction::LdKey { x }, rnds[0])->Ok_0;
    assert(back == t);
    assert(cost(fetched(t), Instruction::LdKey { x }) == FRAME_DURATION);
    assert(run(back, 0, rnds.drop_first()) == Ok::<MachineState, Chip8Error>(back));
}

proof fn lemma_lowest_key_from(kp: u16, from: u8, k: u8)
    requires
        from <= k,
        key_held(kp, k),
    ensures
        from <= lowest_key_from(kp, from) <= k,
        key_held(kp, lowest_key_from(kp, from)),
        forall|j: u8| from <= j < lowest_key_from(kp, from) ==> !key_held(kp, j),
    decreases 16 - from,
{
    if !key_held(kp, from) {
        lemma_lowest_key_from(kp, (from + 1) as u8, k);
    }
}

/// Once some key `k` is held, a key wait stores the lowest held key in its
/// register and lets execution go on past it.
pub proof fn lemma_key_wait_resumes(s: MachineState, x: u8, k: u8, rnd: u8)
    requires
        key_held(s.keypad, k),
    ensures
        exec(s, (Instruction::LdKey { x }), rnd) == Ok::<MachineState, Chip8Error>(
            set_reg(s, x, lowest_key(s.keypad)),
        ),
        lowest_key(s.keypad) <= k,
        key_held(s.keypad, lowest_key(s.keypad)),
        forall|j: u8| j < lowest_key(s.keypad) ==> !key_held(s.keypad, j),
{
    let kp = s.keypad;
    assert(kp != 0) by (bit_vector)
        requires
            (kp >> (k as u16)) & 1 == 1;
    lemma_lowest_key_from(kp, 0, k);
}

} // verus!
