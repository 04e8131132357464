//! Opcode decoding: from a 16-bit opcode to one of the 34 decodable
//! instruction shapes of the base CHIP-8 set, or to nothing for an opcode
//! that matches no pattern.

use vstd::prelude::*;

verus! {

/// A decoded instruction. Register indices `x` and `y` are below 16,
/// nibbles `n` below 16, addresses `nnn` below 0x1000; [`Instr::wf`]
/// records those bounds.
#[derive(Clone, Copy, Debug, PartialEq, Eq, Structural)]
pub enum Instr {
    /// `00E0`: clear the frame buffer.
    Cls,
    /// `00EE`: return from a subroutine.
    Ret,
    /// `1nnn`: jump to nnn.
    Jump(u16),
    /// `2nnn`: call the subroutine at nnn.
    Call(u16),
    /// `3xnn`: skip the next instruction if V[x] == nn.
    SkipEqImm(u8, u8),
    /// `4xnn`: skip the next instruction if V[x] != nn.
    SkipNeImm(u8, u8),
    /// `5xy0`: skip the next instruction if V[x] == V[y].
    SkipEqReg(u8, u8),
    /// `6xnn`: V[x] = nn.
    LoadImm(u8, u8),
    /// `7xnn`: V[x] = V[x] + nn, wrapping modulo 256.
    AddImm(u8, u8),
    /// `8xy0`: V[x] = V[y].
    Move(u8, u8),
    /// `8xy1`: V[x] = V[x] | V[y].
    Or(u8, u8),
    /// `8xy2`: V[x] = V[x] & V[y].
    And(u8, u8),
    /// `8xy3`: V[x] = V[x] ^ V[y].
    Xor(u8, u8),
    /// `8xy4`: V[x] = V[x] + V[y] modulo 256; VF = carry.
    Add(u8, u8),
    /// `8xy5`: V[x] = V[x] - V[y] modulo 256; VF = 1 unless it borrowed.
    Sub(u8, u8),
    /// `8xy6`: VF = low bit of V[x]; V[x] = V[x] >> 1.
    ShiftRight(u8),
    /// `8xy7`: V[x] = V[y] - V[x] modulo 256; VF = 1 unless it borrowed.
    SubNeg(u8, u8),
    /// `8xyE`: VF = high bit of V[x]; V[x] = V[x] << 1 modulo 256.
    ShiftLeft(u8),
    /// `9xy0`: skip the next instruction if V[x] != V[y].
    SkipNeReg(u8, u8),
    /// `Annn`: I = nnn.
    LoadIndex(u16),
    /// `Bnnn`: jump to nnn + V[0].
    JumpPlusV0(u16),
    /// `Cxnn`: V[x] = random byte & nn.
    Random(u8, u8),
    /// `Dxyn`: draw the n-row sprite at memory[I..] at (V[x], V[y]);
    /// VF = collision.
    Draw(u8, u8, u8),
    /// `Ex9E`: skip the next instruction if key V[x] is pressed.
    SkipKeyPressed(u8),
    /// `ExA1`: skip the next instruction if key V[x] is not pressed.
    SkipKeyNotPressed(u8),
    /// `Fx07`: V[x] = delay timer.
    ReadDelay(u8),
    /// `Fx0A`: wait for a key press, then V[x] = its code.
    WaitKey(u8),
    /// `Fx15`: delay timer = V[x].
    SetDelay(u8),
    /// `Fx18`: sound timer = V[x].
    SetSound(u8),
    /// `Fx1E`: I = I + V[x], wrapping modulo 65536.
    AddIndex(u8),
    /// `Fx29`: I = the font glyph address of digit V[x], five bytes each.
    FontIndex(u8),
    /// `Fx33`: memory[I..I+3] = the decimal digits of V[x].
    StoreBcd(u8),
    /// `Fx55`: memory[I..=I+x] = V[0..=x].
    StoreRegs(u8),
    /// `Fx65`: V[0..=x] = memory[I..=I+x].
    LoadRegs(u8),
}

/// Bits 8..12 of an opcode: the first register index.
pub open spec fn op_x(op: u16) -> u8 {
    ((op / 0x100) % 0x10) as u8
}

/// Bits 4..8 of an opcode: the second register index.
pub open spec fn op_y(op: u16) -> u8 {
    ((op / 0x10) % 0x10) as u8
}

/// Bits 0..4 of an opcode: the short immediate.
pub open spec fn op_n(op: u16) -> u8 {
    (op % 0x10) as u8
}

/// Bits 0..8 of an opcode: the byte immediate.
pub open spec fn op_nn(op: u16) -> u8 {
    (op % 0x100) as u8
}

/// Bits 0..12 of an opcode: the address immediate.
pub open spec fn op_nnn(op: u16) -> u16 {
    op % 0x1000
}

impl Instr {
    /// The field bounds a decoded instruction always satisfies.
    pub open spec fn wf(self) -> bool {
        match self {
            Instr::Cls => true,
            Instr::Ret => true,
            Instr::Jump(nnn) => nnn < 0x1000,
            Instr::Call(nnn) => nnn < 0x1000,
            Instr::SkipEqImm(x, _nn) => x < 16,
            Instr::SkipNeImm(x, _nn) => x < 16,
            Instr::SkipEqReg(x, y) => x < 16 && y < 16,
            Instr::LoadImm(x, _nn) => x < 16,
            Instr::AddImm(x, _nn) => x < 16,
            Instr::Move(x, y) => x < 16 && y < 16,
            Instr::Or(x, y) => x < 16 && y < 16,
            Instr::And(x, y) => x < 16 && y < 16,
            Instr::Xor(x, y) => x < 16 && y < 16,
            Instr::Add(x, y) => x < 16 && y < 16,
            Instr::Sub(x, y) => x < 16 && y < 16,
            Instr::ShiftRight(x) => x < 16,
            Instr::SubNeg(x, y) => x < 16 && y < 16,
            Instr::ShiftLeft(x) => x < 16,
            Instr::SkipNeReg(x, y) => x < 16 && y < 16,
            Instr::LoadIndex(nnn) => nnn < 0x1000,
            Instr::JumpPlusV0(nnn) => nnn < 0x1000,
            Instr::Random(x, _nn) => x < 16,
            Instr::Draw(x, y, n) => x < 16 && y < 16 && n < 16,
            Instr::SkipKeyPressed(x) => x < 16,
            Instr::SkipKeyNotPressed(x) => x < 16,
            Instr::ReadDelay(x) => x < 16,
            Instr::WaitKey(x) => x < 16,
            Instr::SetDelay(x) => x < 16,
            Instr::SetSound(x) => x < 16,
            Instr::AddIndex(x) => x < 16,
            Instr::FontIndex(x) => x < 16,
            Instr::StoreBcd(x) => x < 16,
            Instr::StoreRegs(x) => x < 16,
            Instr::LoadRegs(x) => x < 16,
        }
    }
}

/// What a 16-bit opcode decodes to: the instruction, or `None` for an
/// opcode that matches no pattern of the base instruction set (a decode
/// fault). Machine-code routine calls `0nnn` other than `00E0` and `00EE`
/// are not part of the base set and decode to `None`.
pub open spec fn decode(op: u16) -> Option<Instr> {
    let fam = op / 0x1000;
    let x = op_x(op);
    let y = op_y(op);
    let n = op_n(op);
    let nn = op_nn(op);
    let nnn = op_nnn(op);
    if op == 0x00E0 {
        Some(Instr::Cls)
    } else if op == 0x00EE {
        Some(Instr::Ret)
    } else if fam == 0x1 {
        Some(Instr::Jump(nnn))
    } else if fam == 0x2 {
        Some(Instr::Call(nnn))
    } else if fam == 0x3 {
        Some(Instr::SkipEqImm(x, nn))
    } else if fam == 0x4 {
        Some(Instr::SkipNeImm(x, nn))
    } else if fam == 0x5 {
        if n == 0 {
            Some(Instr::SkipEqReg(x, y))
        } else {
            None
        }
    } else if fam == 0x6 {
        Some(Instr::LoadImm(x, nn))
    } else if fam == 0x7 {
        Some(Instr::AddImm(x, nn))
    } else if fam == 0x8 {
        if n == 0x0 {
            Some(Instr::Move(x, y))
        } else if n == 0x1 {
            Some(Instr::Or(x, y))
        } else if n == 0x2 {
            Some(Instr::And(x, y))
        } else if n == 0x3 {
            Some(Instr::Xor(x, y))
        } else if n == 0x4 {
            Some(Instr::Add(x, y))
        } else if n == 0x5 {
            Some(Instr::Sub(x, y))
        } else if n == 0x6 {
            Some(Instr::ShiftRight(x))
        } else if n == 0x7 {
            Some(Instr::SubNeg(x, y))
        } else if n == 0xE {
            Some(Instr::ShiftLeft(x))
        } else {
            None
        }
    } else if fam == 0x9 {
        if n == 0 {
            Some(Instr::SkipNeReg(x, y))
        } else {
            None
        }
    } else if fam == 0xA {
        Some(Instr::LoadIndex(nnn))
    } else if fam == 0xB {
        Some(Instr::JumpPlusV0(nnn))
    } else if fam == 0xC {
        Some(Instr::Random(x, nn))
    } else if fam == 0xD {
        Some(Instr::Draw(x, y, n))
    } else if fam == 0xE {
        if nn == 0x9E {
            Some(Instr::SkipKeyPressed(x))
        } else if nn == 0xA1 {
            Some(Instr::SkipKeyNotPressed(x))
        } else {
            None
        }
    } else if fam == 0xF {
        if nn == 0x07 {
            Some(Instr::ReadDelay(x))
        } else if nn == 0x0A {
            Some(Instr::WaitKey(x))
        } else if nn == 0x15 {
            Some(Instr::SetDelay(x))
        } else if nn == 0x18 {
            Some(Instr::SetSound(x))
        } else if nn == 0x1E {
            Some(Instr::AddIndex(x))
        } else if nn == 0x29 {
            Some(Instr::FontIndex(x))
        } else if nn == 0x33 {
            Some(Instr::StoreBcd(x))
        } else if nn == 0x55 {
            Some(Instr::StoreRegs(x))
        } else if nn == 0x65 {
            Some(Instr::LoadRegs(x))
        } else {
            None
        }
    } else {
        None
    }
}

/// Decode an opcode, exactly as [`decode`] says.
pub fn decode_op(op: u16) -> (r: Option<Instr>)
    ensures
        r == decode(op),
        r matches Some(instr) ==> instr.wf(),
{
    let fam: u16 = op / 0x1000;
    let x: u8 = ((op / 0x100) % 0x10) as u8;
    let y: u8 = ((op / 0x10) % 0x10) as u8;
    let n: u8 = (op % 0x10) as u8;
    let nn: u8 = (op % 0x100) as u8;
    let nnn: u16 = op % 0x1000;
    if op == 0x00E0 {
        Some(Instr::Cls)
    } else if op == 0x00EE {
        Some(Instr::Ret)
    } else if fam == 0x1 {
        Some(Instr::Jump(nnn))
    } else if fam == 0x2 {
        Some(Instr::Call(nnn))
    } else if fam == 0x3 {
        Some(Instr::SkipEqImm(x, nn))
    } else if fam == 0x4 {
        Some(Instr::SkipNeImm(x, nn))
    } else if fam == 0x5 {
        if n == 0 {
            Some(Instr::SkipEqReg(x, y))
        } else {
            None
        }
    } else if fam == 0x6 {
        Some(Instr::LoadImm(x, nn))
    } else if fam == 0x7 {
        Some(Instr::AddImm(x, nn))
    } else if fam == 0x8 {
        if n == 0x0 {
            Some(Instr::Move(x, y))
        } else if n == 0x1 {
            Some(Instr::Or(x, y))
        } else if n == 0x2 {
            Some(Instr::And(x, y))
        } else if n == 0x3 {
            Some(Instr::Xor(x, y))
        } else if n == 0x4 {
            Some(Instr::Add(x, y))
        } else if n == 0x5 {
            Some(Instr::Sub(x, y))
        } else if n == 0x6 {
            Some(Instr::ShiftRight(x))
        } else if n == 0x7 {
            Some(Instr::SubNeg(x, y))
        } else if n == 0xE {
            Some(Instr::ShiftLeft(x))
        } else {
            None
        }
    } else if fam == 0x9 {
        if n == 0 {
            Some(Instr::SkipNeReg(x, y))
        } else {
            None
        }
    } else if fam == 0xA {
        Some(Instr::LoadIndex(nnn))
    } else if fam == 0xB {
        Some(Instr::JumpPlusV0(nnn))
    } else if fam == 0xC {
        Some(Instr::Random(x, nn))
    } else if fam == 0xD {
        Some(Instr::Draw(x, y, n))
    } else if fam == 0xE {
        if nn == 0x9E {
            Some(Instr::SkipKeyPressed(x))
        } else if nn == 0xA1 {
            Some(Instr::SkipKeyNotPressed(x))
        } else {
            None
        }
    } else if fam == 0xF {
        if nn == 0x07 {
            Some(Instr::ReadDelay(x))
        } else if nn == 0x0A {
            Some(Instr::WaitKey(x))
        } else if nn == 0x15 {
            Some(Instr::SetDelay(x))
        } else if nn == 0x18 {
            Some(Instr::SetSound(x))
        } else if nn == 0x1E {
            Some(Instr::AddIndex(x))
        } else if nn == 0x29 {
            Some(Instr::FontIndex(x))
        } else if nn == 0x33 {
            Some(Instr::StoreBcd(x))
        } else if nn == 0x55 {
            Some(Instr::StoreRegs(x))
        } else if nn == 0x65 {
            Some(Instr::LoadRegs(x))
        } else {
            None
        }
    } else {
        None
    }
}

} // verus!
