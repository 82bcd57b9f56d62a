use vstd::prelude::*;
use crate::error::Chip8Error;
use crate::instruction::{decode, decode_spec, Instruction};
use crate::rng::random_byte;
use crate::sprite::DISPLAY_SIZE;
use crate::state::{
    fetched, frame_spec, key_held, lemma_cost_bounds, lemma_run_fails, lemma_run_step, lowest_key,
    lowest_key_from, performs, run, tick,
    MachineState, FRAME_DURATION, MEMORY_SIZE, PROGRAM_START, REGISTERS,
};

verus! {

/// The built-in glyphs of the hex digits 0 to F, five rows each.
pub open spec fn font_glyphs() -> Seq<u8> {
    seq![
        0xF0u8, 0x90, 0x90, 0x90, 0xF0, 0x20, 0x60, 0x20, 0x20, 0x70,
        0xF0, 0x10, 0xF0, 0x80, 0xF0, 0xF0, 0x10, 0xF0, 0x10, 0xF0,
        0x90, 0x90, 0xF0, 0x10, 0x10, 0xF0, 0x80, 0xF0, 0x10, 0xF0,
        0xF0, 0x80, 0xF0, 0x90, 0xF0, 0xF0, 0x10, 0x20, 0x40, 0x40,
        0xF0, 0x90, 0xF0, 0x90, 0xF0, 0xF0, 0x90, 0xF0, 0x10, 0xF0,
        0xF0, 0x90, 0xF0, 0x90, 0x90, 0xE0, 0x90, 0xE0, 0x90, 0xE0,
        0xF0, 0x80, 0x80, 0x80, 0xF0, 0xE0, 0x90, 0x90, 0x90, 0xE0,
        0xF0, 0x80, 0xF0, 0x80, 0xF0, 0xF0, 0x80, 0xF0, 0x80, 0x80,
    ]
}

/// The interpreter: memory, registers, timers, screen and keypad.
pub struct Chip8 {
    pub memory: [u8; MEMORY_SIZE],
    pub pc: u16,
    pub i: u16,
    pub stack: Vec<u16>,
    pub delay_timer: u8,
    pub sound_timer: u8,
    pub registers: [u8; REGISTERS],
    pub display: [u8; DISPLAY_SIZE],
    pub keypad: u16,
}

impl View for Chip8 {
    type V = MachineState;

    open spec fn view(&self) -> MachineState {
        MachineState {
            memory: self.memory@,
            pc: self.pc,
            i: self.i,
            stack: self.stack@,
            delay_timer: self.delay_timer,
            sound_timer: self.sound_timer,
            registers: self.registers@,
            display: self.display@,
            keypad: self.keypad,
        }
    }
}

/// A 16-bit mask with no bit set among its 16 bits is zero.
proof fn lemma_empty_mask(kp: u16)
    requires
        (kp >> 0u16) & 1 != 1, (kp >> 1u16) & 1 != 1, (kp >> 2u16) & 1 != 1, (kp >> 3u16) & 1 != 1,
        (kp >> 4u16) & 1 != 1, (kp >> 5u16) & 1 != 1, (kp >> 6u16) & 1 != 1, (kp >> 7u16) & 1 != 1,
        (kp >> 8u16) & 1 != 1, (kp >> 9u16) & 1 != 1, (kp >> 10u16) & 1 != 1, (kp >> 11u16) & 1 != 1,
        (kp >> 12u16) & 1 != 1, (kp >> 13u16) & 1 != 1, (kp >> 14u16) & 1 != 1, (kp >> 15u16) & 1 != 1,
    ensures
        kp == 0,
{
    assert(kp == 0) by (bit_vector)
        requires
            (kp >> 0u16) & 1 != 1, (kp >> 1u16) & 1 != 1, (kp >> 2u16) & 1 != 1, (kp >> 3u16) & 1 != 1,
            (kp >> 4u16) & 1 != 1, (kp >> 5u16) & 1 != 1, (kp >> 6u16) & 1 != 1, (kp >> 7u16) & 1 != 1,
            (kp >> 8u16) & 1 != 1, (kp >> 9u16) & 1 != 1, (kp >> 10u16) & 1 != 1, (kp >> 11u16) & 1 != 1,
            (kp >> 12u16) & 1 != 1, (kp >> 13u16) & 1 != 1, (kp >> 14u16) & 1 != 1, (kp >> 15u16) & 1 != 1;
}

impl Chip8 {
    /// A machine with the font at address 0, everything else zero, and the
    /// program counter at the start of the program region.
    pub fn new() -> (r: Chip8)
        ensures
            r@.memory == font_glyphs() + Seq::new((MEMORY_SIZE - 80) as nat, |k: int| 0u8),
            r@.pc == PROGRAM_START,
            r@.i == 0,
            r@.stack.len() == 0,
            r@.delay_timer == 0,
            r@.sound_timer == 0,
            r@.registers == Seq::new(REGISTERS as nat, |k: int| 0u8),
            r@.display == Seq::new(DISPLAY_SIZE as nat, |k: int| 0u8),
            r@.keypad == 0,
    {
        let font: [u8; 80] = [
            0xF0, 0x90, 0x90, 0x90, 0xF0, 0x20, 0x60, 0x20, 0x20, 0x70,
            0xF0, 0x10, 0xF0, 0x80, 0xF0, 0xF0, 0x10, 0xF0, 0x10, 0xF0,
            0x90, 0x90, 0xF0, 0x10, 0x10, 0xF0, 0x80, 0xF0, 0x10, 0xF0,
            0xF0, 0x80, 0xF0, 0x90, 0xF0, 0xF0, 0x10, 0x20, 0x40, 0x40,
            0xF0, 0x90, 0xF0, 0x90, 0xF0, 0xF0, 0x90, 0xF0, 0x10, 0xF0,
            0xF0, 0x90, 0xF0, 0x90, 0x90, 0xE0, 0x90, 0xE0, 0x90, 0xE0,
            0xF0, 0x80, 0x80, 0x80, 0xF0, 0xE0, 0x90, 0x90, 0x90, 0xE0,
            0xF0, 0x80, 0xF0, 0x80, 0xF0, 0xF0, 0x80, 0xF0, 0x80, 0x80,
        ];
        assert(font@ =~= font_glyphs());
        let mut memory = [0u8; MEMORY_SIZE];
        let mut k: usize = 0;
        while k < 80
            invariant
                k <= 80,
                font@ == font_glyphs(),
                forall|m: int| 0 <= m < k ==> memory@[m] == font_glyphs()[m],
                forall|m: int| k <= m < MEMORY_SIZE ==> memory@[m] == 0,
            decreases 80 - k,
        {
            memory[k] = font[k];
            k += 1;
        }
        let r = Chip8 {
            memory,
            pc: PROGRAM_START as u16,
            i: 0,
            stack: Vec::new(),
            delay_timer: 0,
            sound_timer: 0,
            registers: [0u8; REGISTERS],
            display: [0u8; DISPLAY_SIZE],
            keypad: 0,
        };
        assert(r@.memory =~= font_glyphs() + Seq::new((MEMORY_SIZE - 80) as nat, |k: int| 0u8));
        assert(r@.registers =~= Seq::new(REGISTERS as nat, |k: int| 0u8));
        assert(r@.display =~= Seq::new(DISPLAY_SIZE as nat, |k: int| 0u8));
        r
    }

    /// Copies `rom` into memory from the start of the program region; fails
    /// with `Capacity`, changing nothing, when it does not fit.
    pub fn load_rom(&mut self, rom: &[u8]) -> (r: Result<(), Chip8Error>)
        ensures
            rom@.len() > MEMORY_SIZE - PROGRAM_START ==> r == Err::<(), Chip8Error>(Chip8Error::Capacity)
                && final(self)@ == old(self)@,
            rom@.len() <= MEMORY_SIZE - PROGRAM_START ==> r == Ok::<(), Chip8Error>(())
                && final(self)@ == (MachineState {
                    memory: old(self)@.memory.take(PROGRAM_START as int) + rom@
                        + old(self)@.memory.skip(PROGRAM_START + rom@.len()),
                    ..old(self)@
                }),
    {
        if rom.len() > MEMORY_SIZE - PROGRAM_START {
            return Err(Chip8Error::Capacity);
        }
        let mut k: usize = 0;
        while k < rom.len()
            invariant
                k <= rom@.len() <= MEMORY_SIZE - PROGRAM_START,
                self.pc == old(self).pc, self.i == old(self).i, self.stack == old(self).stack,
                self.delay_timer == old(self).delay_timer, self.sound_timer == old(self).sound_timer,
                self.registers == old(self).registers, self.display == old(self).display,
                self.keypad == old(self).keypad,
                forall|m: int| 0 <= m < MEMORY_SIZE ==> #[trigger] self.memory@[m] == if PROGRAM_START
                    <= m < PROGRAM_START + k {
                    rom@[m - PROGRAM_START]
                } else {
                    old(self).memory@[m]
                },
            decreases rom@.len() - k,
        {
            self.memory[PROGRAM_START + k] = rom[k];
            k += 1;
        }
        assert(self@.memory =~= old(self)@.memory.take(PROGRAM_START as int) + rom@
            + old(self)@.memory.skip(PROGRAM_START + rom@.len()));
        Ok(())
    }
}

impl Chip8 {
    /// Sets the next instruction to be skipped.
    fn skip(&mut self)
        ensures
            final(self)@ == (MachineState { pc: ((old(self).pc + 2) % 0x10000) as u16, ..old(self)@ }),
    {
        self.pc = self.pc.wrapping_add(2);
    }

    // 00E0
    fn op_cls(&mut self) -> (r: usize)
        ensures
            performs(old(self)@, Instruction::Cls, 0, final(self)@, Ok(r)),
    {
        self.display = [0u8; DISPLAY_SIZE];
        assert(self@.display =~= Seq::new(DISPLAY_SIZE as nat, |b: int| 0u8));
        109
    }

    // 00EE
    fn op_ret(&mut self) -> (r: Result<usize, Chip8Error>)
        ensures
            performs(old(self)@, Instruction::Ret, 0, final(self)@, r),
    {
        match self.stack.pop() {
            Some(addr) => {
                self.pc = addr;
                Ok(105)
            },
            None => Err(Chip8Error::StackUnderflow),
        }
    }

    // 1nnn
    fn op_jp(&mut self, addr: u16) -> (r: usize)
        ensures
            performs(old(self)@, Instruction::Jp { addr }, 0, final(self)@, Ok(r)),
    {
        self.pc = addr;
        105
    }

    // 2nnn
    fn op_call(&mut self, addr: u16) -> (r: usize)
        ensures
            performs(old(self)@, Instruction::Call { addr }, 0, final(self)@, Ok(r)),
    {
        self.stack.push(self.pc);
        self.pc = addr;
        105
    }

    // 3xnn
    fn op_se(&mut self, vx: u8, byte: u8) -> (r: usize)
        requires
            vx < 16,
        ensures
            performs(old(self)@, Instruction::SeByte { x: vx, nn: byte }, 0, final(self)@, Ok(r)),
    {
        if self.registers[vx as usize] == byte {
            self.skip();
            return 64;
        }
        46
    }

    // 4xnn
    fn op_sne(&mut self, vx: u8, byte: u8) -> (r: usize)
        requires
            vx < 16,
        ensures
            performs(old(self)@, Instruction::SneByte { x: vx, nn: byte }, 0, final(self)@, Ok(r)),
    {
        if self.registers[vx as usize] != byte {
            self.skip();
            return 64;
        }
        46
    }

    // 5xy0
    fn op_sexy(&mut self, vx: u8, vy: u8) -> (r: usize)
        requires
            vx < 16,
            vy < 16,
        ensures
            performs(old(self)@, Instruction::SeReg { x: vx, y: vy }, 0, final(self)@, Ok(r)),
    {
        if self.registers[vx as usize] == self.registers[vy as usize] {
            self.skip();
            return 82;
        }
        64
    }

    // 6xnn
    fn op_ld(&mut self, vx: u8, byte: u8) -> (r: usize)
        requires
            vx < 16,
        ensures
            performs(old(self)@, Instruction::LdByte { x: vx, nn: byte }, 0, final(self)@, Ok(r)),
    {
        self.registers[vx as usize] = byte;
        27
    }

    // 7xnn
    fn op_add(&mut self, vx: u8, byte: u8) -> (r: usize)
        requires
            vx < 16,
        ensures
            performs(old(self)@, Instruction::AddByte { x: vx, nn: byte }, 0, final(self)@, Ok(r)),
    {
        self.registers[vx as usize] = self.registers[vx as usize].wrapping_add(byte);
        45
    }

    // 8xy0
    fn op_ldxy(&mut self, vx: u8, vy: u8) -> (r: usize)
        requires
            vx < 16,
            vy < 16,
        ensures
            performs(old(self)@, Instruction::LdReg { x: vx, y: vy }, 0, final(self)@, Ok(r)),
    {
        self.registers[vx as usize] = self.registers[vy as usize];
        200
    }

    // 8xy1
    fn op_orxy(&mut self, vx: u8, vy: u8) -> (r: usize)
        requires
            vx < 16,
            vy < 16,
        ensures
            performs(old(self)@, Instruction::Or { x: vx, y: vy }, 0, final(self)@, Ok(r)),
    {
        self.registers[vx as usize] = self.registers[vx as usize] | self.registers[vy as usize];
        200
    }

    // 8xy2
    fn op_andxy(&mut self, vx: u8, vy: u8) -> (r: usize)
        requires
            vx < 16,
            vy < 16,
        ensures
            performs(old(self)@, Instruction::And { x: vx, y: vy }, 0, final(self)@, Ok(r)),
    {
        self.registers[vx as usize] = self.registers[vx as usize] & self.registers[vy as usize];
        200
    }

    // 8xy3
    fn op_xorxy(&mut self, vx: u8, vy: u8) -> (r: usize)
        requires
            vx < 16,
            vy < 16,
        ensures
            performs(old(self)@, Instruction::Xor { x: vx, y: vy }, 0, final(self)@, Ok(r)),
    {
        self.registers[vx as usize] = self.registers[vx as usize] ^ self.registers[vy as usize];
        200
    }

    // 8xy4
    fn op_addxy(&mut self, vx: u8, vy: u8) -> (r: usize)
        requires
            vx < 16,
            vy < 16,
        ensures
            performs(old(self)@, Instruction::AddReg { x: vx, y: vy }, 0, final(self)@, Ok(r)),
    {
        let a = self.registers[vx as usize];
        let b = self.registers[vy as usize];
        self.registers[vx as usize] = a.wrapping_add(b);
        self.registers[15] = if a as u16 + b as u16 > 255 { 1 } else { 0 };
        200
    }

    // 8xy5
    fn op_subxy(&mut self, vx: u8, vy: u8) -> (r: usize)
        requires
            vx < 16,
            vy < 16,
        ensures
            performs(old(self)@, Instruction::Sub { x: vx, y: vy }, 0, final(self)@, Ok(r)),
    {
        let a = self.registers[vx as usize];
        let b = self.registers[vy as usize];
        self.registers[vx as usize] = a.wrapping_sub(b);
        self.registers[15] = if a >= b { 1 } else { 0 };
        200
    }

    // 8xy6
    fn op_shrxy(&mut self, vx: u8) -> (r: usize)
        requires
            vx < 16,
        ensures
            performs(old(self)@, Instruction::Shr { x: vx }, 0, final(self)@, Ok(r)),
    {
        let a = self.registers[vx as usize];
        self.registers[vx as usize] = a / 2;
        self.registers[15] = a % 2;
        200
    }

    // 8xy7
    fn op_subnxy(&mut self, vx: u8, vy: u8) -> (r: usize)
        requires
            vx < 16,
            vy < 16,
        ensures
            performs(old(self)@, Instruction::Subn { x: vx, y: vy }, 0, final(self)@, Ok(r)),
    {
        let a = self.registers[vx as usize];
        let b = self.registers[vy as usize];
        self.registers[vx as usize] = b.wrapping_sub(a);
        self.registers[15] = if b >= a { 1 } else { 0 };
        200
    }

    // 8xyE
    fn op_shlxy(&mut self, vx: u8) -> (r: usize)
        requires
            vx < 16,
        ensures
            performs(old(self)@, Instruction::Shl { x: vx }, 0, final(self)@, Ok(r)),
    {
        let a = self.registers[vx as usize];
        self.registers[vx as usize] = (a % 128) * 2;
        self.registers[15] = a / 128;
        200
    }

    // 9xy0
    fn op_snexy(&mut self, vx: u8, vy: u8) -> (r: usize)
        requires
            vx < 16,
            vy < 16,
        ensures
            performs(old(self)@, Instruction::SneReg { x: vx, y: vy }, 0, final(self)@, Ok(r)),
    {
        if self.registers[vx as usize] != self.registers[vy as usize] {
            self.skip();
            return 82;
        }
        64
    }

    // Annn
    fn op_ldi(&mut self, addr: u16) -> (r: usize)
        ensures
            performs(old(self)@, Instruction::LdI { addr }, 0, final(self)@, Ok(r)),
    {
        self.i = addr;
        55
    }

    // Bnnn
    fn op_jp0(&mut self, addr: u16) -> (r: usize)
        requires
            addr < 4096,
        ensures
            performs(old(self)@, Instruction::JpV0 { addr }, 0, final(self)@, Ok(r)),
    {
        self.pc = addr + self.registers[0] as u16;
        105
    }

    // Cxnn
    fn op_rndx(&mut self, vx: u8, byte: u8, rnd: u8) -> (r: usize)
        requires
            vx < 16,
        ensures
            performs(old(self)@, Instruction::Rnd { x: vx, nn: byte }, rnd, final(self)@, Ok(r)),
    {
        self.registers[vx as usize] = rnd & byte;
        164
    }

    // Ex9E
    fn op_skpx(&mut self, vx: u8) -> (r: usize)
        requires
            vx < 16,
        ensures
            performs(old(self)@, Instruction::Skp { x: vx }, 0, final(self)@, Ok(r)),
    {
        let k = self.registers[vx as usize];
        if k < 16 && (self.keypad >> (k as u16)) & 1 == 1 {
            self.skip();
            return 64;
        }
        82
    }

    // ExA1
    fn op_sknpx(&mut self, vx: u8) -> (r: usize)
        requires
            vx < 16,
        ensures
            performs(old(self)@, Instruction::Sknp { x: vx }, 0, final(self)@, Ok(r)),
    {
        let k = self.registers[vx as usize];
        if !(k < 16 && (self.keypad >> (k as u16)) & 1 == 1) {
            self.skip();
            return 64;
        }
        82
    }

    // Fx07
    fn op_ldxdt(&mut self, vx: u8) -> (r: usize)
        requires
            vx < 16,
        ensures
            performs(old(self)@, Instruction::LdVxDt { x: vx }, 0, final(self)@, Ok(r)),
    {
        self.registers[vx as usize] = self.delay_timer;
        45
    }

    // Fx0A
    fn op_ldxk(&mut self, vx: u8) -> (r: usize)
        requires
            vx < 16,
        ensures
            performs(old(self)@, Instruction::LdKey { x: vx }, 0, final(self)@, Ok(r)),
    {
        let mut k: u8 = 0;
        while k < 16
            invariant
                k <= 16,
                vx < 16,
                *self == *old(self),
                lowest_key(self.keypad) == lowest_key_from(self.keypad, k),
                forall|j: u8| j < k ==> !key_held(self.keypad, j),
            decreases 16 - k,
        {
            if (self.keypad >> (k as u16)) & 1 == 1 {
                let kp = self.keypad;
                assert(key_held(kp, k));
                assert(kp != 0) by (bit_vector)
                    requires
                        (kp >> (k as u16)) & 1 == 1;
                self.registers[vx as usize] = k;
                return 200;
            }
            k += 1;
        }
        proof {
            let kp = self.keypad;
            assert(!key_held(kp, 0)); assert(!key_held(kp, 1)); assert(!key_held(kp, 2));
            assert(!key_held(kp, 3)); assert(!key_held(kp, 4)); assert(!key_held(kp, 5));
            assert(!key_held(kp, 6)); assert(!key_held(kp, 7)); assert(!key_held(kp, 8));
            assert(!key_held(kp, 9)); assert(!key_held(kp, 10)); assert(!key_held(kp, 11));
            assert(!key_held(kp, 12)); assert(!key_held(kp, 13)); assert(!key_held(kp, 14));
            assert(!key_held(kp, 15));
            lemma_empty_mask(kp);
        }
        self.pc = self.pc.wrapping_sub(2);
        FRAME_DURATION as usize
    }

    // Fx15
    fn op_lddtx(&mut self, vx: u8) -> (r: usize)
        requires
            vx < 16,
        ensures
            performs(old(self)@, Instruction::LdDtVx { x: vx }, 0, final(self)@, Ok(r)),
    {
        self.delay_timer = self.registers[vx as usize];
        45
    }

    // Fx18
    fn op_ldstx(&mut self, vx: u8) -> (r: usize)
        requires
            vx < 16,
        ensures
            performs(old(self)@, Instruction::LdStVx { x: vx }, 0, final(self)@, Ok(r)),
    {
        self.sound_timer = self.registers[vx as usize];
        45
    }

    // Fx1E
    fn op_addix(&mut self, vx: u8) -> (r: usize)
        requires
            vx < 16,
        ensures
            performs(old(self)@, Instruction::AddI { x: vx }, 0, final(self)@, Ok(r)),
    {
        self.i = self.i.wrapping_add(self.registers[vx as usize] as u16);
        86
    }

    // Fx29
    fn op_ldfx(&mut self, vx: u8) -> (r: usize)
        requires
            vx < 16,
        ensures
            performs(old(self)@, Instruction::LdFont { x: vx }, 0, final(self)@, Ok(r)),
    {
        self.i = (self.registers[vx as usize] as u16) * 5;
        91
    }

    // Fx33
    fn op_ldbx(&mut self, vx: u8) -> (r: Result<usize, Chip8Error>)
        requires
            vx < 16,
        ensures
            performs(old(self)@, Instruction::LdBcd { x: vx }, 0, final(self)@, r),
    {
        let at = self.i as usize;
        if at + 3 > MEMORY_SIZE {
            return Err(Chip8Error::MemoryOutOfBounds);
        }
        let v = self.registers[vx as usize];
        let first = v / 100;
        let second = v / 10 % 10;
        let third = v % 10;
        self.memory[at] = first;
        self.memory[at + 1] = second;
        self.memory[at + 2] = third;
        Ok(364 + (first as usize + second as usize + third as usize) * 73)
    }

    // Fx55
    fn op_ldix(&mut self, vx: u8) -> (r: Result<usize, Chip8Error>)
        requires
            vx < 16,
        ensures
            performs(old(self)@, Instruction::StoreRegs { x: vx }, 0, final(self)@, r),
    {
        let at = self.i as usize;
        if at + vx as usize + 1 > MEMORY_SIZE {
            return Err(Chip8Error::MemoryOutOfBounds);
        }
        let mut k: usize = 0;
        while k <= vx as usize
            invariant
                k <= vx + 1,
                vx < 16,
                at == self.i,
                at + vx + 1 <= MEMORY_SIZE,
                self.pc == old(self).pc, self.i == old(self).i, self.stack == old(self).stack,
                self.delay_timer == old(self).delay_timer, self.sound_timer == old(self).sound_timer,
                self.registers == old(self).registers, self.display == old(self).display,
                self.keypad == old(self).keypad,
                forall|m: int| 0 <= m < MEMORY_SIZE ==> #[trigger] self.memory@[m] == if at <= m < at + k {
                    self.registers@[m - at]
                } else {
                    old(self).memory@[m]
                },
            decreases vx + 1 - k,
        {
            self.memory[at + k] = self.registers[k];
            k += 1;
        }
        assert(self@.memory =~= Seq::new(
            MEMORY_SIZE as nat,
            |m: int| if at <= m <= at + vx { old(self)@.registers[m - at] } else { old(self)@.memory[m] },
        ));
        Ok(64 * (vx as usize + 2))
    }

    // Fx65
    fn op_ldxi(&mut self, vx: u8) -> (r: Result<usize, Chip8Error>)
        requires
            vx < 16,
        ensures
            performs(old(self)@, Instruction::LoadRegs { x: vx }, 0, final(self)@, r),
    {
        let at = self.i as usize;
        if at + vx as usize + 1 > MEMORY_SIZE {
            return Err(Chip8Error::MemoryOutOfBounds);
        }
        let mut k: usize = 0;
        while k <= vx as usize
            invariant
                k <= vx + 1,
                vx < 16,
                at == self.i,
                at + vx + 1 <= MEMORY_SIZE,
                self.pc == old(self).pc, self.i == old(self).i, self.stack == old(self).stack,
                self.delay_timer == old(self).delay_timer, self.sound_timer == old(self).sound_timer,
                self.memory == old(self).memory, self.display == old(self).display,
                self.keypad == old(self).keypad,
                forall|m: int| 0 <= m < REGISTERS ==> #[trigger] self.registers@[m] == if m < k {
                    self.memory@[at + m]
                } else {
                    old(self).registers@[m]
                },
            decreases vx + 1 - k,
        {
            self.registers[k] = self.memory[at + k];
            k += 1;
        }
        assert(self@.registers =~= Seq::new(
            REGISTERS as nat,
            |m: int| if m <= vx { old(self)@.memory[at + m] } else { old(self)@.registers[m] },
        ));
        Ok(64 * (vx as usize + 2))
    }
}

impl Chip8 {
    /// Executes `ins`, the program counter already past it; `rnd` is the
    /// random byte that `Rnd` masks. Returns the time the instruction took.
    pub fn execute(&mut self, ins: Instruction, rnd: u8) -> (r: Result<usize, Chip8Error>)
        requires
            ins.wf(),
        ensures
            performs(old(self)@, ins, rnd, final(self)@, r),
    {
        match ins {
            Instruction::Cls => Ok(self.op_cls()),
            Instruction::Ret => self.op_ret(),
            Instruction::Jp { addr } => Ok(self.op_jp(addr)),
            Instruction::Call { addr } => Ok(self.op_call(addr)),
            Instruction::SeByte { x, nn } => Ok(self.op_se(x, nn)),
            Instruction::SneByte { x, nn } => Ok(self.op_sne(x, nn)),
            Instruction::SeReg { x, y } => Ok(self.op_sexy(x, y)),
            Instruction::LdByte { x, nn } => Ok(self.op_ld(x, nn)),
            Instruction::AddByte { x, nn } => Ok(self.op_add(x, nn)),
            Instruction::LdReg { x, y } => Ok(self.op_ldxy(x, y)),
            Instruction::Or { x, y } => Ok(self.op_orxy(x, y)),
            Instruction::And { x, y } => Ok(self.op_andxy(x, y)),
            Instruction::Xor { x, y } => Ok(self.op_xorxy(x, y)),
            Instruction::AddReg { x, y } => Ok(self.op_addxy(x, y)),
            Instruction::Sub { x, y } => Ok(self.op_subxy(x, y)),
            Instruction::Shr { x } => Ok(self.op_shrxy(x)),
            Instruction::Subn { x, y } => Ok(self.op_subnxy(x, y)),
            Instruction::Shl { x } => Ok(self.op_shlxy(x)),
            Instruction::SneReg { x, y } => Ok(self.op_snexy(x, y)),
            Instruction::LdI { addr } => Ok(self.op_ldi(addr)),
            Instruction::JpV0 { addr } => Ok(self.op_jp0(addr)),
            Instruction::Rnd { x, nn } => Ok(self.op_rndx(x, nn, rnd)),
            Instruction::Drw { x, y, n } => self.op_drw(x, y, n),
            Instruction::Skp { x } => Ok(self.op_skpx(x)),
            Instruction::Sknp { x } => Ok(self.op_sknpx(x)),
            Instruction::LdVxDt { x } => Ok(self.op_ldxdt(x)),
            Instruction::LdKey { x } => Ok(self.op_ldxk(x)),
            Instruction::LdDtVx { x } => Ok(self.op_lddtx(x)),
            Instruction::LdStVx { x } => Ok(self.op_ldstx(x)),
            Instruction::AddI { x } => Ok(self.op_addix(x)),
            Instruction::LdFont { x } => Ok(self.op_ldfx(x)),
            Instruction::LdBcd { x } => self.op_ldbx(x),
            Instruction::StoreRegs { x } => self.op_ldix(x),
            Instruction::LoadRegs { x } => self.op_ldxi(x),
        }
    }

    /// Decodes and executes the instruction `op0 op1`, the program counter
    /// already past it. An instruction that draws a random number gets one
    /// from the thread-local generator; whatever byte came, the outcome is
    /// what `execute` gives for it.
    pub fn step(&mut self, op0: u8, op1: u8) -> (r: Result<usize, Chip8Error>)
        ensures
            match decode_spec(op0, op1) {
                Err(e) => r == Err::<usize, Chip8Error>(e) && final(self)@ == old(self)@,
                Ok(ins) => exists|rnd: u8| performs(old(self)@, ins, rnd, final(self)@, r),
            },
    {
        let ins = match decode(op0, op1) {
            Ok(ins) => ins,
            Err(e) => return Err(e),
        };
        let rnd: u8 = match ins {
            Instruction::Rnd { .. } => random_byte(),
            _ => 0,
        };
        let r = self.execute(ins, rnd);
        assert(performs(old(self)@, ins, rnd, self@, r));
        r
    }

    /// Runs one frame: both timers go down by one (not below 0), then
    /// instructions are fetched and executed until the frame's time is spent.
    /// An error stops the frame at once. The outcome is what `frame_spec`
    /// gives for some sequence of random bytes.
    pub fn frame(&mut self) -> (r: Result<(), Chip8Error>)
        ensures
            r is Ok ==> exists|rnds: Seq<u8>|
                frame_spec(old(self)@, rnds) == Ok::<MachineState, Chip8Error>(final(self)@),
            r matches Err(e) ==> exists|rnds: Seq<u8>|
                frame_spec(old(self)@, rnds) == Err::<MachineState, Chip8Error>(e),
    {
        if self.delay_timer != 0 {
            self.delay_timer = self.delay_timer - 1;
        }
        if self.sound_timer != 0 {
            self.sound_timer = self.sound_timer - 1;
        }
        let ghost start = self@;
        let ghost mut drawn: Seq<u8> = Seq::empty();
        let mut time: i64 = FRAME_DURATION;
        proof {
            assert forall|tail: Seq<u8>| #[trigger] run(start, FRAME_DURATION as int, drawn + tail)
                == run(self@, time as int, tail) by {
                assert(drawn + tail =~= tail);
            }
        }
        while time > 0
            invariant
                time <= FRAME_DURATION,
                start == tick(old(self)@),
                forall|tail: Seq<u8>| #[trigger] run(start, FRAME_DURATION as int, drawn + tail)
                    == run(self@, time as int, tail),
            decreases if time > 0 { time as int } else { 0 },
        {
            if self.pc as usize >= MEMORY_SIZE - 1 {
                proof {
                    assert(drawn + Seq::<u8>::empty() =~= drawn);
                    assert(frame_spec(old(self)@, drawn) == run(self@, time as int, Seq::<u8>::empty()));
                }
                return Err(Chip8Error::OutOfBounds);
            }
            let ghost at_fetch = self@;
            let op0 = self.memory[self.pc as usize];
            let op1 = self.memory[self.pc as usize + 1];
            self.pc = self.pc + 2;
            assert(self@ == fetched(at_fetch));
            let res = self.step(op0, op1);
            match res {
                Err(e) => {
                    proof {
                        let rnd = match decode_spec(op0, op1) {
                            Err(_) => 0u8,
                            Ok(ins) => choose|rnd: u8| performs(fetched(at_fetch), ins, rnd, self@, res),
                        };
                        lemma_run_fails(at_fetch, time as int, rnd, e);
                        assert(frame_spec(old(self)@, drawn + seq![rnd]) == run(
                            at_fetch,
                            time as int,
                            seq![rnd],
                        ));
                    }
                    return Err(e);
                },
                Ok(c) => {
                    proof {
                        let ins = decode_spec(op0, op1)->Ok_0;
                        let rnd = choose|rnd: u8| performs(fetched(at_fetch), ins, rnd, self@, res);
                        assert(performs(fetched(at_fetch), ins, rnd, self@, res));
                        lemma_cost_bounds(fetched(at_fetch), ins);
                        assert(0 < c <= 22734);
                        assert forall|tail: Seq<u8>| #[trigger] run(
                            start,
                            FRAME_DURATION as int,
                            drawn.push(rnd) + tail,
                        ) == run(self@, time - c, tail) by {
                            assert(drawn.push(rnd) + tail =~= drawn + (seq![rnd] + tail));
                            lemma_run_step(at_fetch, time as int, ins, rnd, self@, tail);
                        }
                        drawn = drawn.push(rnd);
                    }
                    time = time - c as i64;
                },
            }
        }
        proof {
            assert(drawn + Seq::<u8>::empty() =~= drawn);
            assert(frame_spec(old(self)@, drawn) == run(self@, time as int, Seq::<u8>::empty()));
        }
        Ok(())
    }
}

} // verus!
