//! The instruction set: decoding a 16-bit opcode word into an instruction,
//! and the arithmetic-logic semantics shared by the spec and the engine.
//!
//! The instruction class is the top 4 bits of the word; `x` and `y` name
//! registers (bits 8..12 and 4..8), and `n`/`nn`/`nnn` are the low 4, 8 and
//! 12 bits taken as immediates.

use vstd::prelude::*;

verus! {

/// The eight-way arithmetic-logic group keyed by the low nibble of an
/// instruction of class 8.
#[derive(Clone, Copy, PartialEq, Eq, Structural, Debug)]
pub enum AluOp {
    Assign,
    Or,
    And,
    Xor,
    AddCarry,
    SubBorrow,
    ShiftRight,
    SubReverse,
    ShiftLeft,
}

/// A decoded instruction.
#[derive(Clone, Copy, PartialEq, Eq, Structural, Debug)]
pub enum Instr {
    ClearScreen,
    Return,
    Jump(u16),
    Call(u16),
    SkipEqImm { x: u8, nn: u8 },
    SkipNeImm { x: u8, nn: u8 },
    SkipEqReg { x: u8, y: u8 },
    SkipNeReg { x: u8, y: u8 },
    LoadImm { x: u8, nn: u8 },
    AddImm { x: u8, nn: u8 },
    Alu { x: u8, y: u8, op: AluOp },
    SetIndex(u16),
    JumpOffset(u16),
    RandomAnd { x: u8, nn: u8 },
    Draw { x: u8, y: u8, n: u8 },
    SkipKeyPressed { x: u8 },
    SkipKeyNotPressed { x: u8 },
    ReadDelay { x: u8 },
    WaitKey { x: u8 },
    SetDelay { x: u8 },
    SetSound { x: u8 },
    AddIndex { x: u8 },
    GlyphIndex { x: u8 },
    StoreBcd { x: u8 },
    RegDump { x: u8 },
    RegLoad { x: u8 },
    Unknown,
}

/// Top nibble: the instruction class.
pub open spec fn op_class(op: u16) -> int {
    op as int / 0x1000
}

/// Register field `x`, bits 8..12.
pub open spec fn op_x(op: u16) -> u8 {
    ((op as int / 0x100) % 16) as u8
}

/// Register field `y`, bits 4..8.
pub open spec fn op_y(op: u16) -> u8 {
    ((op as int / 0x10) % 16) as u8
}

/// Low nibble immediate.
pub open spec fn op_n(op: u16) -> u8 {
    (op as int % 16) as u8
}

/// Low byte immediate.
pub open spec fn op_nn(op: u16) -> u8 {
    (op as int % 0x100) as u8
}

/// Low 12-bit immediate (an address).
pub open spec fn op_nnn(op: u16) -> u16 {
    (op as int % 0x1000) as u16
}

/// Every register field of a decoded instruction names one of the sixteen
/// registers, addresses fit in 12 bits, and sprite heights in 4.
pub open spec fn instr_wf(i: Instr) -> bool {
    match i {
        Instr::ClearScreen => true,
        Instr::Return => true,
        Instr::Jump(nnn) => nnn < 0x1000,
        Instr::Call(nnn) => nnn < 0x1000,
        Instr::SkipEqImm { x, nn } => x < 16,
        Instr::SkipNeImm { x, nn } => x < 16,
        Instr::SkipEqReg { x, y } => x < 16 && y < 16,
        Instr::SkipNeReg { x, y } => x < 16 && y < 16,
        Instr::LoadImm { x, nn } => x < 16,
        Instr::AddImm { x, nn } => x < 16,
        Instr::Alu { x, y, op } => x < 16 && y < 16,
        Instr::SetIndex(nnn) => nnn < 0x1000,
        Instr::JumpOffset(nnn) => nnn < 0x1000,
        Instr::RandomAnd { x, nn } => x < 16,
        Instr::Draw { x, y, n } => x < 16 && y < 16 && n < 16,
        Instr::SkipKeyPressed { x } => x < 16,
        Instr::SkipKeyNotPressed { x } => x < 16,
        Instr::ReadDelay { x } => x < 16,
        Instr::WaitKey { x } => x < 16,
        Instr::SetDelay { x } => x < 16,
        Instr::SetSound { x } => x < 16,
        Instr::AddIndex { x } => x < 16,
        Instr::GlyphIndex { x } => x < 16,
        Instr::StoreBcd { x } => x < 16,
        Instr::RegDump { x } => x < 16,
        Instr::RegLoad { x } => x < 16,
        Instr::Unknown => true,
    }
}

/// The decode table. Opcode words outside the table decode to `Unknown`.
pub open spec fn decode_spec(op: u16) -> Instr {
    let c = op_class(op);
    let x = op_x(op);
    let y = op_y(op);
    let n = op_n(op);
    let nn = op_nn(op);
    let nnn = op_nnn(op);
    if c == 0 {
        if nn == 0xE0 {
            Instr::ClearScreen
        } else if nn == 0xEE {
            Instr::Return
        } else {
            Instr::Unknown
        }
    } else if c == 1 {
        Instr::Jump(nnn)
    } else if c == 2 {
        Instr::Call(nnn)
    } else if c == 3 {
        Instr::SkipEqImm { x, nn }
    } else if c == 4 {
        Instr::SkipNeImm { x, nn }
    } else if c == 5 {
        Instr::SkipEqReg { x, y }
    } else if c == 6 {
        Instr::LoadImm { x, nn }
    } else if c == 7 {
        Instr::AddImm { x, nn }
    } else if c == 8 {
        if n == 0 {
            Instr::Alu { x, y, op: AluOp::Assign }
        } else if n == 1 {
            Instr::Alu { x, y, op: AluOp::Or }
        } else if n == 2 {
            Instr::Alu { x, y, op: AluOp::And }
        } else if n == 3 {
            Instr::Alu { x, y, op: AluOp::Xor }
        } else if n == 4 {
            Instr::Alu { x, y, op: AluOp::AddCarry }
        } else if n == 5 {
            Instr::Alu { x, y, op: AluOp::SubBorrow }
        } else if n == 6 {
            Instr::Alu { x, y, op: AluOp::ShiftRight }
        } else if n == 7 {
            Instr::Alu { x, y, op: AluOp::SubReverse }
        } else if n == 0xE {
            Instr::Alu { x, y, op: AluOp::ShiftLeft }
        } else {
            Instr::Unknown
        }
    } else if c == 9 {
        Instr::SkipNeReg { x, y }
    } else if c == 0xA {
        Instr::SetIndex(nnn)
    } else if c == 0xB {
        Instr::JumpOffset(nnn)
    } else if c == 0xC {
        Instr::RandomAnd { x, nn }
    } else if c == 0xD {
        Instr::Draw { x, y, n }
    } else if c == 0xE {
        if nn == 0x9E {
            Instr::SkipKeyPressed { x }
        } else if nn == 0xA1 {
            Instr::SkipKeyNotPressed { x }
        } else {
            Instr::Unknown
        }
    } else {
        // class 0xF
        if nn == 0x07 {
            Instr::ReadDelay { x }
        } else if nn == 0x0A {
            Instr::WaitKey { x }
        } else if nn == 0x15 {
            Instr::SetDelay { x }
        } else if nn == 0x18 {
            Instr::SetSound { x }
        } else if nn == 0x1E {
            Instr::AddIndex { x }
        } else if nn == 0x29 {
            Instr::GlyphIndex { x }
        } else if nn == 0x33 {
            Instr::StoreBcd { x }
        } else if nn == 0x55 {
            Instr::RegDump { x }
        } else if nn == 0x65 {
            Instr::RegLoad { x }
        } else {
            Instr::Unknown
        }
    }
}

/// Decode one opcode word.
pub fn decode(op: u16) -> (i: Instr)
    ensures
        i == decode_spec(op),
        instr_wf(i),
{
    let c: u16 = op / 0x1000;
    let x: u8 = ((op / 0x100) % 16) as u8;
    let y: u8 = ((op / 0x10) % 16) as u8;
    let n: u8 = (op % 16) as u8;
    let nn: u8 = (op % 0x100) as u8;
    let nnn: u16 = op % 0x1000;
    if c == 0 {
        if nn == 0xE0 {
            Instr::ClearScreen
        } else if nn == 0xEE {
            Instr::Return
        } else {
            Instr::Unknown
        }
    } else if c == 1 {
        Instr::Jump(nnn)
    } else if c == 2 {
        Instr::Call(nnn)
    } else if c == 3 {
        Instr::SkipEqImm { x, nn }
    } else if c == 4 {
        Instr::SkipNeImm { x, nn }
    } else if c == 5 {
        Instr::SkipEqReg { x, y }
    } else if c == 6 {
        Instr::LoadImm { x, nn }
    } else if c == 7 {
        Instr::AddImm { x, nn }
    } else if c == 8 {
        if n == 0 {
            Instr::Alu { x, y, op: AluOp::Assign }
        } else if n == 1 {
            Instr::Alu { x, y, op: AluOp::Or }
        } else if n == 2 {
            Instr::Alu { x, y, op: AluOp::And }
        } else if n == 3 {
            Instr::Alu { x, y, op: AluOp::Xor }
        } else if n == 4 {
            Instr::Alu { x, y, op: AluOp::AddCarry }
        } else if n == 5 {
            Instr::Alu { x, y, op: AluOp::SubBorrow }
        } else if n == 6 {
            Instr::Alu { x, y, op: AluOp::ShiftRight }
        } else if n == 7 {
            Instr::Alu { x, y, op: AluOp::SubReverse }
        } else if n == 0xE {
            Instr::Alu { x, y, op: AluOp::ShiftLeft }
        } else {
            Instr::Unknown
        }
    } else if c == 9 {
        Instr::SkipNeReg { x, y }
    } else if c == 0xA {
        Instr::SetIndex(nnn)
    } else if c == 0xB {
        Instr::JumpOffset(nnn)
    } else if c == 0xC {
        Instr::RandomAnd { x, nn }
    } else if c == 0xD {
        Instr::Draw { x, y, n }
    } else if c == 0xE {
        if nn == 0x9E {
            Instr::SkipKeyPressed { x }
        } else if nn == 0xA1 {
            Instr::SkipKeyNotPressed { x }
        } else {
            Instr::Unknown
        }
    } else {
        if nn == 0x07 {
            Instr::ReadDelay { x }
        } else if nn == 0x0A {
            Instr::WaitKey { x }
        } else if nn == 0x15 {
            Instr::SetDelay { x }
        } else if nn == 0x18 {
            Instr::SetSound { x }
        } else if nn == 0x1E {
            Instr::AddIndex { x }
        } else if nn == 0x29 {
            Instr::GlyphIndex { x }
        } else if nn == 0x33 {
            Instr::StoreBcd { x }
        } else if nn == 0x55 {
            Instr::RegDump { x }
        } else if nn == 0x65 {
            Instr::RegLoad { x }
        } else {
            Instr::Unknown
        }
    }
}

/// Result of one arithmetic-logic operation on the values of `Vx` and
/// `Vy`: the byte stored into `Vx`, and the carry/borrow/shift bit for the
/// flag register where the operation produces one.
///
/// When the quirk is on, shifts read the register named by `y`; when off,
/// they shift `Vx` in place.
pub open spec fn alu_result(op: AluOp, vx: u8, vy: u8, shift_quirk: bool) -> (u8, Option<u8>) {
    let src = if shift_quirk { vy } else { vx };
    match op {
        AluOp::Assign => (vy, None),
        AluOp::Or => (vx | vy, None),
        AluOp::And => (vx & vy, None),
        AluOp::Xor => (vx ^ vy, None),
        AluOp::AddCarry => (
            ((vx + vy) % 256) as u8,
            Some(if vx + vy > 255 { 1u8 } else { 0u8 }),
        ),
        AluOp::SubBorrow => (
            ((vx - vy + 256) % 256) as u8,
            Some(if vx >= vy { 1u8 } else { 0u8 }),
        ),
        AluOp::ShiftRight => ((src as int / 2) as u8, Some((src as int % 2) as u8)),
        AluOp::SubReverse => (
            ((vy - vx + 256) % 256) as u8,
            Some(if vy >= vx { 1u8 } else { 0u8 }),
        ),
        AluOp::ShiftLeft => (((2 * src) % 256) as u8, Some((src as int / 128) as u8)),
    }
}

/// Compute one arithmetic-logic operation.
pub fn alu(op: AluOp, vx: u8, vy: u8, shift_quirk: bool) -> (r: (u8, Option<u8>))
    ensures
        r == alu_result(op, vx, vy, shift_quirk),
{
    let src: u8 = if shift_quirk { vy } else { vx };
    match op {
        AluOp::Assign => (vy, None),
        AluOp::Or => (vx | vy, None),
        AluOp::And => (vx & vy, None),
        AluOp::Xor => (vx ^ vy, None),
        AluOp::AddCarry => {
            let sum: u16 = vx as u16 + vy as u16;
            ((sum % 256) as u8, Some(if sum > 255 { 1u8 } else { 0u8 }))
        },
        AluOp::SubBorrow => {
            let diff: u16 = (vx as u16 + 256) - vy as u16;
            ((diff % 256) as u8, Some(if vx >= vy { 1u8 } else { 0u8 }))
        },
        AluOp::ShiftRight => (src / 2, Some(src % 2)),
        AluOp::SubReverse => {
            let diff: u16 = (vy as u16 + 256) - vx as u16;
            ((diff % 256) as u8, Some(if vy >= vx { 1u8 } else { 0u8 }))
        },
        AluOp::ShiftLeft => {
            proof {
                assert((src % 128) * 2 == (2 * src) % 256);
            }
            ((src % 128) * 2, Some(src / 128))
        },
    }
}

} // verus!
