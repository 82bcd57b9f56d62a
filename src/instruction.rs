use vstd::prelude::*;
use crate::error::Chip8Error;

verus! {

/// One decoded instruction. `x` and `y` name registers, `nn` is an immediate
/// byte, `n` a sprite height and `addr` a 12-bit address.
#[derive(Debug, Clone, Copy, PartialEq, Eq, Structural)]
pub enum Instruction {
    /// `00E0`: clear the screen.
    Cls,
    /// `00EE`: return from a subroutine.
    Ret,
    /// `1nnn`: jump.
    Jp { addr: u16 },
    /// `2nnn`: call a subroutine.
    Call { addr: u16 },
    /// `3xnn`: skip if `Vx == nn`.
    SeByte { x: u8, nn: u8 },
    /// `4xnn`: skip if `Vx != nn`.
    SneByte { x: u8, nn: u8 },
    /// `5xy0`: skip if `Vx == Vy`.
    SeReg { x: u8, y: u8 },
    /// `6xnn`: `Vx = nn`.
    LdByte { x: u8, nn: u8 },
    /// `7xnn`: `Vx += nn`, wrapping, flag untouched.
    AddByte { x: u8, nn: u8 },
    /// `8xy0`: `Vx = Vy`.
    LdReg { x: u8, y: u8 },
    /// `8xy1`: `Vx |= Vy`.
    Or { x: u8, y: u8 },
    /// `8xy2`: `Vx &= Vy`.
    And { x: u8, y: u8 },
    /// `8xy3`: `Vx ^= Vy`.
    Xor { x: u8, y: u8 },
    /// `8xy4`: `Vx += Vy`, flag set on carry.
    AddReg { x: u8, y: u8 },
    /// `8xy5`: `Vx -= Vy`, flag set when no borrow.
    Sub { x: u8, y: u8 },
    /// `8xy6`: `Vx >>= 1`, flag gets the bit shifted out.
    Shr { x: u8 },
    /// `8xy7`: `Vx = Vy - Vx`, flag set when no borrow.
    Subn { x: u8, y: u8 },
    /// `8xyE`: `Vx <<= 1`, flag gets the bit shifted out.
    Shl { x: u8 },
    /// `9xy0`: skip if `Vx != Vy`.
    SneReg { x: u8, y: u8 },
    /// `Annn`: `I = nnn`.
    LdI { addr: u16 },
    /// `Bnnn`: jump to `nnn + V0`.
    JpV0 { addr: u16 },
    /// `Cxnn`: `Vx = random & nn`.
    Rnd { x: u8, nn: u8 },
    /// `Dxyn`: draw an `n`-row sprite from `I` at `(Vx, Vy)`.
    Drw { x: u8, y: u8, n: u8 },
    /// `Ex9E`: skip if key `Vx` is held.
    Skp { x: u8 },
    /// `ExA1`: skip if key `Vx` is not held.
    Sknp { x: u8 },
    /// `Fx07`: `Vx = delay timer`.
    LdVxDt { x: u8 },
    /// `Fx0A`: wait for a key and store its index in `Vx`.
    LdKey { x: u8 },
    /// `Fx15`: `delay timer = Vx`.
    LdDtVx { x: u8 },
    /// `Fx18`: `sound timer = Vx`.
    LdStVx { x: u8 },
    /// `Fx1E`: `I += Vx`, wrapping at 16 bits.
    AddI { x: u8 },
    /// `Fx29`: `I` = address of the font glyph of digit `Vx`.
    LdFont { x: u8 },
    /// `Fx33`: store the decimal digits of `Vx` at `I`, `I+1`, `I+2`.
    LdBcd { x: u8 },
    /// `Fx55`: store `V0..=Vx` at `I..`.
    StoreRegs { x: u8 },
    /// `Fx65`: load `V0..=Vx` from `I..`.
    LoadRegs { x: u8 },
}

impl Instruction {
    /// Every field is in the range that its encoding allows.
    pub open spec fn wf(self) -> bool {
        match self {
            Instruction::Jp { addr } | Instruction::Call { addr } | Instruction::LdI { addr }
            | Instruction::JpV0 { addr } => addr < 4096,
            Instruction::SeByte { x, .. } | Instruction::SneByte { x, .. }
            | Instruction::LdByte { x, .. } | Instruction::AddByte { x, .. }
            | Instruction::Rnd { x, .. } | Instruction::Shr { x } | Instruction::Shl { x }
            | Instruction::Skp { x } | Instruction::Sknp { x } | Instruction::LdVxDt { x }
            | Instruction::LdKey { x } | Instruction::LdDtVx { x } | Instruction::LdStVx { x }
            | Instruction::AddI { x } | Instruction::LdFont { x } | Instruction::LdBcd { x }
            | Instruction::StoreRegs { x } | Instruction::LoadRegs { x } => x < 16,
            Instruction::SeReg { x, y } | Instruction::LdReg { x, y } | Instruction::Or { x, y }
            | Instruction::And { x, y } | Instruction::Xor { x, y } | Instruction::AddReg { x, y }
            | Instruction::Sub { x, y } | Instruction::Subn { x, y }
            | Instruction::SneReg { x, y } => x < 16 && y < 16,
            Instruction::Drw { x, y, n } => x < 16 && y < 16 && n < 16,
            Instruction::Cls | Instruction::Ret => true,
        }
    }
}

/// The error for a pair of bytes that encodes no instruction.
pub open spec fn invalid(op0: u8, op1: u8) -> Chip8Error {
    Chip8Error::InvalidOpcode(op0 / 16, op0 % 16, op1 / 16, op1 % 16)
}

/// The instruction that the bytes `op0 op1` encode. The high nibble of `op0`
/// picks the group; groups 0, E and F are told apart by `op1`, group 8 by the
/// low nibble of `op1`.
pub open spec fn decode_spec(op0: u8, op1: u8) -> Result<Instruction, Chip8Error> {
    let x = op0 % 16;
    let y = op1 / 16;
    let n = op1 % 16;
    let addr = (x * 256 + op1) as u16;
    match op0 / 16 {
        0x0 => if op1 == 0xE0 {
            Ok(Instruction::Cls)
        } else if op1 == 0xEE {
            Ok(Instruction::Ret)
        } else {
            Err(invalid(op0, op1))
        },
        0x1 => Ok(Instruction::Jp { addr }),
        0x2 => Ok(Instruction::Call { addr }),
        0x3 => Ok(Instruction::SeByte { x, nn: op1 }),
        0x4 => Ok(Instruction::SneByte { x, nn: op1 }),
        0x5 => Ok(Instruction::SeReg { x, y }),
        0x6 => Ok(Instruction::LdByte { x, nn: op1 }),
        0x7 => Ok(Instruction::AddByte { x, nn: op1 }),
        0x8 => match n {
            0x0 => Ok(Instruction::LdReg { x, y }),
            0x1 => Ok(Instruction::Or { x, y }),
            0x2 => Ok(Instruction::And { x, y }),
            0x3 => Ok(Instruction::Xor { x, y }),
            0x4 => Ok(Instruction::AddReg { x, y }),
            0x5 => Ok(Instruction::Sub { x, y }),
            0x6 => Ok(Instruction::Shr { x }),
            0x7 => Ok(Instruction::Subn { x, y }),
            0xE => Ok(Instruction::Shl { x }),
            _ => Err(invalid(op0, op1)),
        },
        0x9 => Ok(Instruction::SneReg { x, y }),
        0xA => Ok(Instruction::LdI { addr }),
        0xB => Ok(Instruction::JpV0 { addr }),
        0xC => Ok(Instruction::Rnd { x, nn: op1 }),
        0xD => Ok(Instruction::Drw { x, y, n }),
        0xE => if op1 == 0x9E {
            Ok(Instruction::Skp { x })
        } else if op1 == 0xA1 {
            Ok(Instruction::Sknp { x })
        } else {
            Err(invalid(op0, op1))
        },
        0xF => match op1 {
            0x07 => Ok(Instruction::LdVxDt { x }),
            0x0A => Ok(Instruction::LdKey { x }),
            0x15 => Ok(Instruction::LdDtVx { x }),
            0x18 => Ok(Instruction::LdStVx { x }),
            0x1E => Ok(Instruction::AddI { x }),
            0x29 => Ok(Instruction::LdFont { x }),
            0x33 => Ok(Instruction::LdBcd { x }),
            0x55 => Ok(Instruction::StoreRegs { x }),
            0x65 => Ok(Instruction::LoadRegs { x }),
            _ => Err(invalid(op0, op1)),
        },
        _ => Err(invalid(op0, op1)),
    }
}

/// Decodes the instruction `op0 op1`; what it decodes to is well formed.
pub fn decode(op0: u8, op1: u8) -> (r: Result<Instruction, Chip8Error>)
    ensures
        r == decode_spec(op0, op1),
        r matches Ok(ins) ==> ins.wf(),
{
    let x: u8 = op0 % 16;
    let y: u8 = op1 / 16;
    let n: u8 = op1 % 16;
    let addr: u16 = (x as u16) * 256 + op1 as u16;
    let bad = Chip8Error::InvalidOpcode(op0 / 16, x, y, n);
    match op0 / 16 {
        0x0 => if op1 == 0xE0 {
            Ok(Instruction::Cls)
        } else if op1 == 0xEE {
            Ok(Instruction::Ret)
        } else {
            Err(bad)
        },
        0x1 => Ok(Instruction::Jp { addr }),
        0x2 => Ok(Instruction::Call { addr }),
        0x3 => Ok(Instruction::SeByte { x, nn: op1 }),
        0x4 => Ok(Instruction::SneByte { x, nn: op1 }),
        0x5 => Ok(Instruction::SeReg { x, y }),
        0x6 => Ok(Instruction::LdByte { x, nn: op1 }),
        0x7 => Ok(Instruction::AddByte { x, nn: op1 }),
        0x8 => match n {
            0x0 => Ok(Instruction::LdReg { x, y }),
            0x1 => Ok(Instruction::Or { x, y }),
            0x2 => Ok(Instruction::And { x, y }),
            0x3 => Ok(Instruction::Xor { x, y }),
            0x4 => Ok(Instruction::AddReg { x, y }),
            0x5 => Ok(Instruction::Sub { x, y }),
            0x6 => Ok(Instruction::Shr { x }),
            0x7 => Ok(Instruction::Subn { x, y }),
            0xE => Ok(Instruction::Shl { x }),
            _ => Err(bad),
        },
        0x9 => Ok(Instruction::SneReg { x, y }),
        0xA => Ok(Instruction::LdI { addr }),
        0xB => Ok(Instruction::JpV0 { addr }),
        0xC => Ok(Instruction::Rnd { x, nn: op1 }),
        0xD => Ok(Instruction::Drw { x, y, n }),
        0xE => if op1 == 0x9E {
            Ok(Instruction::Skp { x })
        } else if op1 == 0xA1 {
            Ok(Instruction::Sknp { x })
        } else {
            Err(bad)
        },
        0xF => match op1 {
            0x07 => Ok(Instruction::LdVxDt { x }),
            0x0A => Ok(Instruction::LdKey { x }),
            0x15 => Ok(Instruction::LdDtVx { x }),
            0x18 => Ok(Instruction::LdStVx { x }),
            0x1E => Ok(Instruction::AddI { x }),
            0x29 => Ok(Instruction::LdFont { x }),
            0x33 => Ok(Instruction::LdBcd { x }),
            0x55 => Ok(Instruction::StoreRegs { x }),
            0x65 => Ok(Instruction::LoadRegs { x }),
            _ => Err(bad),
        },
        _ => Err(bad),
    }
}

} // verus!
