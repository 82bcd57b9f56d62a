use vstd::prelude::*;
use crate::error::Chip8Error;
use crate::instruction::{decode_spec, Instruction};
use crate::sprite::{collides, xor_sprite};

verus! {

/// Bytes of memory.
pub const MEMORY_SIZE: usize = 4096;
/// Where programs are loaded and where execution starts.
pub const PROGRAM_START: usize = 512;
/// Number of general registers.
pub const REGISTERS: usize = 16;
/// Time units of guest execution in one frame.
pub const FRAME_DURATION: i64 = 16666;

/// The machine as a mathematical value.
pub ghost struct MachineState {
    pub memory: Seq<u8>,
    pub pc: u16,
    pub i: u16,
    pub stack: Seq<u16>,
    pub delay_timer: u8,
    pub sound_timer: u8,
    pub registers: Seq<u8>,
    pub display: Seq<u8>,
    pub keypad: u16,
}

/// Register `x` of `s`.
pub open spec fn reg(s: MachineState, x: u8) -> u8 {
    s.registers[x as int]
}

/// `s` with register `x` set to `v`.
pub open spec fn set_reg(s: MachineState, x: u8, v: u8) -> MachineState {
    MachineState { registers: s.registers.update(x as int, v), ..s }
}

/// `s` with register `x` set to `v` and then the flag register to `flag`.
pub open spec fn set_with_flag(s: MachineState, x: u8, v: u8, flag: u8) -> MachineState {
    set_reg(set_reg(s, x, v), 15, flag)
}

/// `s`, with the next instruction skipped when `cond` holds.
pub open spec fn skip_if(s: MachineState, cond: bool) -> MachineState {
    if cond {
        MachineState { pc: ((s.pc + 2) % 0x10000) as u16, ..s }
    } else {
        s
    }
}

/// Key `k` is held in the keypad mask `keypad`.
pub open spec fn key_held(keypad: u16, k: u8) -> bool {
    k < 16 && (keypad >> (k as u16)) & 1 == 1
}

/// The lowest held key from `k` up, or 16 when none is.
pub open spec fn lowest_key_from(keypad: u16, k: u8) -> u8
    decreases 16 - k,
{
    if k >= 16 {
        16
    } else if key_held(keypad, k) {
        k
    } else {
        lowest_key_from(keypad, (k + 1) as u8)
    }
}

/// The lowest held key, or 16 when no key is held.
pub open spec fn lowest_key(keypad: u16) -> u8 {
    lowest_key_from(keypad, 0)
}

/// `n` consecutive bytes from address `i` lie inside memory.
pub open spec fn in_memory(i: u16, n: int) -> bool {
    i + n <= MEMORY_SIZE
}

/// What `ins` does to `s`, the program counter already past it; `rnd` is the
/// random byte that `Rnd` uses.
pub open spec fn exec(s: MachineState, ins: Instruction, rnd: u8) -> Result<MachineState, Chip8Error> {
    match ins {
        Instruction::Cls => Ok(MachineState { display: Seq::new(s.display.len(), |b: int| 0u8), ..s }),
        Instruction::Ret => if s.stack.len() == 0 {
            Err(Chip8Error::StackUnderflow)
        } else {
            Ok(MachineState { pc: s.stack.last(), stack: s.stack.drop_last(), ..s })
        },
        Instruction::Jp { addr } => Ok(MachineState { pc: addr, ..s }),
        Instruction::Call { addr } => Ok(MachineState { pc: addr, stack: s.stack.push(s.pc), ..s }),
        Instruction::SeByte { x, nn } => Ok(skip_if(s, reg(s, x) == nn)),
        Instruction::SneByte { x, nn } => Ok(skip_if(s, reg(s, x) != nn)),
        Instruction::SeReg { x, y } => Ok(skip_if(s, reg(s, x) == reg(s, y))),
        Instruction::SneReg { x, y } => Ok(skip_if(s, reg(s, x) != reg(s, y))),
        Instruction::LdByte { x, nn } => Ok(set_reg(s, x, nn)),
        Instruction::AddByte { x, nn } => Ok(set_reg(s, x, ((reg(s, x) + nn) % 256) as u8)),
        Instruction::LdReg { x, y } => Ok(set_reg(s, x, reg(s, y))),
        Instruction::Or { x, y } => Ok(set_reg(s, x, reg(s, x) | reg(s, y))),
        Instruction::And { x, y } => Ok(set_reg(s, x, reg(s, x) & reg(s, y))),
        Instruction::Xor { x, y } => Ok(set_reg(s, x, reg(s, x) ^ reg(s, y))),
        Instruction::AddReg { x, y } => {
            let sum = reg(s, x) + reg(s, y);
            Ok(set_with_flag(s, x, (sum % 256) as u8, if sum > 255 { 1 } else { 0 }))
        },
        Instruction::Sub { x, y } => {
            let (a, b) = (reg(s, x), reg(s, y));
            Ok(set_with_flag(s, x, ((a - b) % 256) as u8, if a >= b { 1 } else { 0 }))
        },
        Instruction::Subn { x, y } => {
            let (a, b) = (reg(s, x), reg(s, y));
            Ok(set_with_flag(s, x, ((b - a) % 256) as u8, if b >= a { 1 } else { 0 }))
        },
        Instruction::Shr { x } => Ok(set_with_flag(s, x, reg(s, x) / 2, reg(s, x) % 2)),
        Instruction::Shl { x } => Ok(set_with_flag(s, x, ((reg(s, x) * 2) % 256) as u8, reg(s, x) / 128)),
        Instruction::LdI { addr } => Ok(MachineState { i: addr, ..s }),
        Instruction::JpV0 { addr } => Ok(MachineState { pc: (addr + reg(s, 0)) as u16, ..s }),
        Instruction::Rnd { x, nn } => Ok(set_reg(s, x, rnd & nn)),
        Instruction::Drw { x, y, n } => if !in_memory(s.i, n as int) {
            Err(Chip8Error::MemoryOutOfBounds)
        } else {
            let sprite = s.memory.subrange(s.i as int, s.i + n);
            let (px, py) = (reg(s, x), reg(s, y));
            let drawn = MachineState { display: xor_sprite(s.display, sprite, px, py), ..s };
            Ok(set_reg(drawn, 15, if collides(s.display, sprite, px, py) { 1 } else { 0 }))
        },
        Instruction::Skp { x } => Ok(skip_if(s, key_held(s.keypad, reg(s, x)))),
        Instruction::Sknp { x } => Ok(skip_if(s, !key_held(s.keypad, reg(s, x)))),
        Instruction::LdVxDt { x } => Ok(set_reg(s, x, s.delay_timer)),
        Instruction::LdKey { x } => if s.keypad != 0 {
            Ok(set_reg(s, x, lowest_key(s.keypad)))
        } else {
            Ok(MachineState { pc: ((s.pc + 0x10000 - 2) % 0x10000) as u16, ..s })
        },
        Instruction::LdDtVx { x } => Ok(MachineState { delay_timer: reg(s, x), ..s }),
        Instruction::LdStVx { x } => Ok(MachineState { sound_timer: reg(s, x), ..s }),
        Instruction::AddI { x } => Ok(MachineState { i: ((s.i + reg(s, x)) % 0x10000) as u16, ..s }),
        Instruction::LdFont { x } => Ok(MachineState { i: (reg(s, x) * 5) as u16, ..s }),
        Instruction::LdBcd { x } => if !in_memory(s.i, 3) {
            Err(Chip8Error::MemoryOutOfBounds)
        } else {
            let v = reg(s, x);
            let memory = s.memory.update(s.i as int, v / 100).update(s.i + 1, v / 10 % 10).update(
                s.i + 2,
                v % 10,
            );
            Ok(MachineState { memory, ..s })
        },
        Instruction::StoreRegs { x } => if !in_memory(s.i, x + 1) {
            Err(Chip8Error::MemoryOutOfBounds)
        } else {
            let memory = Seq::new(
                s.memory.len(),
                |k: int| if s.i <= k <= s.i + x { s.registers[k - s.i] } else { s.memory[k] },
            );
            Ok(MachineState { memory, ..s })
        },
        Instruction::LoadRegs { x } => if !in_memory(s.i, x + 1) {
            Err(Chip8Error::MemoryOutOfBounds)
        } else {
            let registers = Seq::new(
                s.registers.len(),
                |k: int| if k <= x { s.memory[s.i + k] } else { s.registers[k] },
            );
            Ok(MachineState { registers, ..s })
        },
    }
}

/// Time units that `ins` takes on `s`, the program counter already past it.
pub open spec fn cost(s: MachineState, ins: Instruction) -> int {
    match ins {
        Instruction::Cls => 109,
        Instruction::Ret | Instruction::Jp { .. } | Instruction::Call { .. }
        | Instruction::JpV0 { .. } => 105,
        Instruction::SeByte { x, nn } => if reg(s, x) == nn { 64 } else { 46 },
        Instruction::SneByte { x, nn } => if reg(s, x) != nn { 64 } else { 46 },
        Instruction::SeReg { x, y } => if reg(s, x) == reg(s, y) { 82 } else { 64 },
        Instruction::SneReg { x, y } => if reg(s, x) != reg(s, y) { 82 } else { 64 },
        Instruction::LdByte { .. } => 27,
        Instruction::AddByte { .. } | Instruction::LdVxDt { .. } | Instruction::LdDtVx { .. }
        | Instruction::LdStVx { .. } => 45,
        Instruction::LdReg { .. } | Instruction::Or { .. } | Instruction::And { .. }
        | Instruction::Xor { .. } | Instruction::AddReg { .. } | Instruction::Sub { .. }
        | Instruction::Shr { .. } | Instruction::Subn { .. } | Instruction::Shl { .. } => 200,
        Instruction::LdI { .. } => 55,
        Instruction::Rnd { .. } => 164,
        Instruction::Drw { .. } => 22734,
        Instruction::Skp { x } => if key_held(s.keypad, reg(s, x)) { 64 } else { 82 },
        Instruction::Sknp { x } => if !key_held(s.keypad, reg(s, x)) { 64 } else { 82 },
        Instruction::LdKey { .. } => if s.keypad != 0 { 200 } else { FRAME_DURATION as int },
        Instruction::AddI { .. } => 86,
        Instruction::LdFont { .. } => 91,
        Instruction::LdBcd { x } => {
            let v = reg(s, x);
            364 + (v / 100 + v / 10 % 10 + v % 10) * 73
        },
        Instruction::StoreRegs { x } | Instruction::LoadRegs { x } => 64 * (x + 2),
    }
}

/// `after` and `r` are what executing `ins` on `before` gives: on success the
/// state that `exec` describes and the cost; on failure the error that `exec`
/// gives, with the state untouched.
pub open spec fn performs(
    before: MachineState,
    ins: Instruction,
    rnd: u8,
    after: MachineState,
    r: Result<usize, Chip8Error>,
) -> bool {
    match r {
        Ok(c) => exec(before, ins, rnd) == Ok::<MachineState, Chip8Error>(after) && c == cost(before, ins),
        Err(e) => exec(before, ins, rnd) == Err::<MachineState, Chip8Error>(e) && after == before,
    }
}

/// The timers after the start of a frame: each goes down by one, stopping at 0.
pub open spec fn tick(s: MachineState) -> MachineState {
    MachineState {
        delay_timer: if s.delay_timer > 0 { (s.delay_timer - 1) as u8 } else { 0 },
        sound_timer: if s.sound_timer > 0 { (s.sound_timer - 1) as u8 } else { 0 },
        ..s
    }
}

/// Fetch, decode and execute from `s` while `budget` is positive; `rnds`
/// holds the random byte that each instruction in turn may draw.
pub open spec fn run(s: MachineState, budget: int, rnds: Seq<u8>) -> Result<MachineState, Chip8Error>
    decreases if budget > 0 { budget } else { 0 },
{
    if budget <= 0 {
        Ok(s)
    } else if s.pc >= MEMORY_SIZE - 1 {
        Err(Chip8Error::OutOfBounds)
    } else {
        let after_fetch = fetched(s);
        match instruction_at(s) {
            Err(e) => Err(e),
            Ok(ins) => match exec(after_fetch, ins, rnds[0]) {
                Err(e) => Err(e),
                Ok(next) => {
                    proof {
                        lemma_cost_positive(after_fetch, ins);
                    }
                    run(next, budget - cost(after_fetch, ins), rnds.drop_first())
                },
            },
        }
    }
}

/// Every instruction takes some time.
pub proof fn lemma_cost_positive(s: MachineState, ins: Instruction)
    ensures
        cost(s, ins) > 0,
{
}

/// No well-formed instruction takes more than a draw.
pub proof fn lemma_cost_bounds(s: MachineState, ins: Instruction)
    requires
        ins.wf(),
    ensures
        0 < cost(s, ins) <= 22734,
{
}

/// `s` with the program counter moved past the instruction it points at.
pub open spec fn fetched(s: MachineState) -> MachineState {
    MachineState { pc: (s.pc + 2) as u16, ..s }
}

/// The instruction at the program counter of `s`.
pub open spec fn instruction_at(s: MachineState) -> Result<Instruction, Chip8Error> {
    decode_spec(s.memory[s.pc as int], s.memory[s.pc + 1])
}

/// One instruction that executes without error: the run goes on from the
/// state it leaves, with its cost spent and its random byte used.
pub proof fn lemma_run_step(
    s: MachineState,
    budget: int,
    ins: Instruction,
    rnd: u8,
    next: MachineState,
    tail: Seq<u8>,
)
    requires
        budget > 0,
        s.pc < MEMORY_SIZE - 1,
        instruction_at(s) == Ok::<Instruction, Chip8Error>(ins),
        exec(fetched(s), ins, rnd) == Ok::<MachineState, Chip8Error>(next),
    ensures
        run(s, budget, seq![rnd] + tail) == run(next, budget - cost(fetched(s), ins), tail),
{
    let rnds = seq![rnd] + tail;
    assert(rnds[0] == rnd);
    assert(rnds.drop_first() =~= tail);
}

/// One instruction that fails to decode or to execute ends the run with its
/// error.
pub proof fn lemma_run_fails(s: MachineState, budget: int, rnd: u8, e: Chip8Error)
    requires
        budget > 0,
        s.pc < MEMORY_SIZE - 1,
        instruction_at(s) == Err::<Instruction, Chip8Error>(e) || exists|ins: Instruction|
            instruction_at(s) == Ok::<Instruction, Chip8Error>(ins)
                && exec(fetched(s), ins, rnd) == Err::<MachineState, Chip8Error>(e),
    ensures
        run(s, budget, seq![rnd]) == Err::<MachineState, Chip8Error>(e),
{
    let rnds = seq![rnd];
    assert(rnds[0] == rnd);
}

/// One frame from `s`: the timers tick, then a frame's budget of instructions
/// runs.
pub open spec fn frame_spec(s: MachineState, rnds: Seq<u8>) -> Result<MachineState, Chip8Error> {
    run(tick(s), FRAME_DURATION as int, rnds)
}

} // verus!
