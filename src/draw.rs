use vstd::prelude::*;
use crate::error::Chip8Error;
use crate::instruction::Instruction;
use crate::machine::Chip8;
use crate::sprite::{
    collides, left_column, lemma_mask_step, lemma_xor_zero, right_column, sprite_mask, xor_sprite,
    DISPLAY_HEIGHT, DISPLAY_SIZE, DISPLAY_WIDTH,
};
use crate::state::{performs, MEMORY_SIZE};

verus! {

impl Chip8 {
    // Dxyn
    #[verifier::rlimit(30)]
    pub(crate) fn op_drw(&mut self, vx: u8, vy: u8, nibble: u8) -> (r: Result<usize, Chip8Error>)
        requires
            vx < 16,
            vy < 16,
            nibble < 16,
        ensures
            performs(old(self)@, Instruction::Drw { x: vx, y: vy, n: nibble }, 0, final(self)@, r),
    {
        let n = nibble as usize;
        let base = self.i as usize;
        if base + n > MEMORY_SIZE {
            return Err(Chip8Error::MemoryOutOfBounds);
        }
        let x = self.registers[vx as usize];
        let y = self.registers[vy as usize];
        let shift: u8 = x % 8;
        let left: usize = (x as usize % DISPLAY_WIDTH) / 8;
        let right: usize = (left + 1) % (DISPLAY_WIDTH / 8);
        let ghost before = self.display@;
        let ghost sprite = self.memory@.subrange(base as int, base + n);
        let mut collided = false;
        let mut idx: usize = 0;
        proof {
            assert forall|b: int| 0 <= b < DISPLAY_SIZE implies before[b] ^ sprite_mask(
                sprite.take(0),
                x,
                y,
                b,
            ) == before[b] && (before[b] & sprite_mask(sprite.take(0), x, y, b)) == 0 by {
                lemma_xor_zero(before[b]);
            }
        }
        while idx < n
            invariant
                idx <= n < 16,
                base == self.i,
                base + n <= MEMORY_SIZE,
                self.pc == old(self).pc, self.i == old(self).i, self.stack == old(self).stack,
                self.delay_timer == old(self).delay_timer, self.sound_timer == old(self).sound_timer,
                self.registers == old(self).registers, self.memory == old(self).memory,
                self.keypad == old(self).keypad,
                before == old(self).display@,
                sprite == self.memory@.subrange(base as int, base + n),
                shift == x % 8,
                left == left_column(x),
                right == right_column(x),
                forall|b: int| 0 <= b < DISPLAY_SIZE ==> #[trigger] self.display@[b] == before[b]
                    ^ sprite_mask(sprite.take(idx as int), x, y, b),
                collided == collides(before, sprite.take(idx as int), x, y),
            decreases n - idx,
        {
            let ghost prev = self.display@;
            let ghost was_collided = collided;
            let dy: usize = (y as usize + idx) % DISPLAY_HEIGHT;
            assert(dy < 32);
            let row: usize = dy * 8;
            let byte = self.memory[base + idx];
            let bl = row + left;
            let br = row + right;
            proof {
                assert(byte == sprite[idx as int]);
                assert(bl / 8 == (y + idx) % 32 && bl % 8 == left);
                assert(br / 8 == (y + idx) % 32 && br % 8 == right);
                lemma_mask_step(sprite, x, y, idx as int, bl as int);
                lemma_mask_step(sprite, x, y, idx as int, br as int);
                lemma_xor_zero(before[bl as int]);
                lemma_xor_zero(before[br as int]);
            }
            let bits_left: u8 = byte >> shift;
            if self.display[bl] & bits_left != 0 {
                collided = true;
            }
            self.display[bl] = self.display[bl] ^ bits_left;
            let mut bits_right: u8 = 0;
            if shift > 0 {
                bits_right = byte << (8 - shift);
                if self.display[br] & bits_right != 0 {
                    collided = true;
                }
                self.display[br] = self.display[br] ^ bits_right;
            }
            proof {
                let s0 = sprite.take(idx as int);
                let s1 = sprite.take(idx + 1);
                assert(sprite_mask(s1, x, y, bl as int) == bits_left);
                assert(sprite_mask(s1, x, y, br as int) == bits_right);
                assert forall|b: int| 0 <= b < DISPLAY_SIZE implies #[trigger] self.display@[b]
                    == before[b] ^ sprite_mask(s1, x, y, b) by {
                    lemma_mask_step(sprite, x, y, idx as int, b);
                    lemma_xor_zero(before[b]);
                    if b / 8 == (y + idx) % 32 && b != bl && b != br {
                        assert(b % 8 != left);
                        assert(b % 8 != right);
                    }
                }
                if collided {
                    if was_collided {
                        let b0 = choose|b: int| 0 <= b < before.len()
                            && #[trigger] (before[b] & sprite_mask(s0, x, y, b)) != 0;
                        lemma_mask_step(sprite, x, y, idx as int, b0);
                        lemma_xor_zero(before[b0]);
                        assert((before[b0] & sprite_mask(s1, x, y, b0)) != 0);
                    } else if (before[bl as int] & bits_left) != 0 {
                        assert((before[bl as int] & sprite_mask(s1, x, y, bl as int)) != 0);
                    } else {
                        assert((before[br as int] & sprite_mask(s1, x, y, br as int)) != 0);
                    }
                    assert(collides(before, s1, x, y));
                } else {
                    assert forall|b: int| 0 <= b < before.len() implies !(#[trigger] (before[b]
                        & sprite_mask(s1, x, y, b)) != 0) by {
                        lemma_mask_step(sprite, x, y, idx as int, b);
                        lemma_xor_zero(before[b]);
                        if b / 8 == (y + idx) % 32 && b != bl && b != br {
                            assert(b % 8 != left);
                            assert(b % 8 != right);
                        }
                        if b / 8 != (y + idx) % 32 {
                            assert(!((before[b] & sprite_mask(s0, x, y, b)) != 0));
                        }
                    }
                }
            }
            idx += 1;
        }
        assert(sprite.take(n as int) =~= sprite);
        assert(self.display@ =~= xor_sprite(before, sprite, x, y));
        self.registers[15] = if collided { 1 } else { 0 };
        Ok(22734)
    }
}

} // verus!
