//! Instruction-set definitions: the error kinds the machine can report, the
//! closed enumeration of decoded operations, and the decoder that classifies a
//! 16-bit instruction word by its nibble pattern.

use vstd::prelude::*;

verus! {

/// Everything that can go wrong while loading a program or executing a step.
#[derive(Clone, Copy, Debug, PartialEq, Eq, Structural)]
pub enum ErrorKind {
    /// The program counter points outside the 4096-byte memory.
    FetchOutOfBounds,
    /// The instruction word matches no operation; carries the word itself.
    UnknownOpcode(u16),
    /// A subroutine call was attempted with the 16-entry stack full.
    StackOverflow,
    /// A return was attempted with an empty call stack.
    StackUnderflow,
    /// A program image longer than the memory past address 512 can hold.
    ProgramTooLarge,
}

/// The register-to-register ALU operations (high nibble 8).
#[derive(Clone, Copy, Debug, PartialEq, Eq, Structural)]
pub enum AluOp {
    /// 8xy0: Vx := Vy.
    Ld,
    /// 8xy1: Vx := Vx | Vy.
    Or,
    /// 8xy2: Vx := Vx & Vy.
    And,
    /// 8xy3: Vx := Vx ^ Vy.
    Xor,
    /// 8xy4: Vx := Vx + Vy, VF := carry.
    Add,
    /// 8xy5: Vx := Vx - Vy, VF := no-borrow.
    Sub,
    /// 8xy6: Vx := Vx >> 1, VF := bit shifted out.
    Shr,
    /// 8xy7: Vx := Vy - Vx, VF := borrow.
    Subn,
    /// 8xyE: Vx := Vx << 1, VF := bit shifted out.
    Shl,
}

/// One decoded instruction, carrying its operands: `x`/`y` select registers,
/// `kk` is the low byte, `nnn` the low 12 bits, `n` the low nibble.
#[derive(Clone, Copy, Debug, PartialEq, Eq, Structural)]
pub enum Instr {
    /// 00E0: clear the framebuffer.
    Cls,
    /// 00EE: return from subroutine.
    Ret,
    /// 1nnn: jump.
    Jp { nnn: u16 },
    /// 2nnn: call subroutine.
    Call { nnn: u16 },
    /// 3xkk: skip next instruction if Vx == kk.
    SeImm { x: u8, kk: u8 },
    /// 4xkk: skip next instruction if Vx != kk.
    SneImm { x: u8, kk: u8 },
    /// 5xy*: skip next instruction if Vx == Vy.
    SeReg { x: u8, y: u8 },
    /// 6xkk: Vx := kk.
    LdImm { x: u8, kk: u8 },
    /// 7xkk: Vx := Vx + kk, wrapping, no flag.
    AddImm { x: u8, kk: u8 },
    /// 8xy_: register-to-register ALU operation.
    Alu { op: AluOp, x: u8, y: u8 },
    /// 9xy*: skip next instruction if Vx != Vy.
    SneReg { x: u8, y: u8 },
    /// Annn: I := nnn.
    LdI { nnn: u16 },
    /// Bnnn: PC := V0 + nnn.
    JpV0 { nnn: u16 },
    /// Cxkk: Vx := random byte & kk.
    Rnd { x: u8, kk: u8 },
    /// Dxyn: draw an n-row sprite from memory at I at column Vx, row Vy.
    Drw { x: u8, y: u8, n: u8 },
    /// Ex9E: skip next instruction if the key Vx is pressed.
    Skp { x: u8 },
    /// ExA1: skip next instruction if the key Vx is not pressed.
    Sknp { x: u8 },
    /// Fx07: Vx := delay timer.
    LdFromDt { x: u8 },
    /// Fx0A: block until a key is pressed; Vx := its index.
    WaitKey { x: u8 },
    /// Fx15: delay timer := Vx.
    LdDt { x: u8 },
    /// Fx18: sound timer := Vx.
    LdSt { x: u8 },
    /// Fx1E: I := I + Vx, VF := 1 iff the sum exceeds 0xFFF.
    AddI { x: u8 },
    /// Fx29: I := Vx * 5, the font glyph address for digit Vx.
    LdFont { x: u8 },
    /// Fx33: store the decimal digits of Vx at I, I+1, I+2.
    Bcd { x: u8 },
    /// Fx55: copy V0..=Vx into memory at I; I := I + x + 1.
    StoreRegs { x: u8 },
    /// Fx65: copy memory at I into V0..=Vx; I := I + x + 1.
    LoadRegs { x: u8 },
}

/// Second nibble of an instruction word: the `x` register selector.
pub open spec fn op_x(w: u16) -> u8 {
    ((w / 0x100) % 0x10) as u8
}

/// Third nibble of an instruction word: the `y` register selector.
pub open spec fn op_y(w: u16) -> u8 {
    ((w / 0x10) % 0x10) as u8
}

/// Low nibble of an instruction word: the sprite row count.
pub open spec fn op_n(w: u16) -> u8 {
    (w % 0x10) as u8
}

/// Low byte of an instruction word: the immediate operand.
pub open spec fn op_kk(w: u16) -> u8 {
    (w % 0x100) as u8
}

/// Low 12 bits of an instruction word: the address operand.
pub open spec fn op_nnn(w: u16) -> u16 {
    w % 0x1000
}

/// Classification of an instruction word by its nibble pattern. `None` means
/// the word matches no operation and execution must fail with
/// `ErrorKind::UnknownOpcode`.
pub open spec fn spec_decode(w: u16) -> Option<Instr> {
    let h = w / 0x1000;
    if h == 0x0 {
        if w == 0x00E0 {
            Some(Instr::Cls)
        } else if w == 0x00EE {
            Some(Instr::Ret)
        } else {
            None
        }
    } else if h == 0x1 {
        Some(Instr::Jp { nnn: op_nnn(w) })
    } else if h == 0x2 {
        Some(Instr::Call { nnn: op_nnn(w) })
    } else if h == 0x3 {
        Some(Instr::SeImm { x: op_x(w), kk: op_kk(w) })
    } else if h == 0x4 {
        Some(Instr::SneImm { x: op_x(w), kk: op_kk(w) })
    } else if h == 0x5 {
        Some(Instr::SeReg { x: op_x(w), y: op_y(w) })
    } else if h == 0x6 {
        Some(Instr::LdImm { x: op_x(w), kk: op_kk(w) })
    } else if h == 0x7 {
        Some(Instr::AddImm { x: op_x(w), kk: op_kk(w) })
    } else if h == 0x8 {
        spec_decode_alu(w)
    } else if h == 0x9 {
        Some(Instr::SneReg { x: op_x(w), y: op_y(w) })
    } else if h == 0xA {
        Some(Instr::LdI { nnn: op_nnn(w) })
    } else if h == 0xB {
        Some(Instr::JpV0 { nnn: op_nnn(w) })
    } else if h == 0xC {
        Some(Instr::Rnd { x: op_x(w), kk: op_kk(w) })
    } else if h == 0xD {
        Some(Instr::Drw { x: op_x(w), y: op_y(w), n: op_n(w) })
    } else if h == 0xE {
        if op_kk(w) == 0x9E {
            Some(Instr::Skp { x: op_x(w) })
        } else if op_kk(w) == 0xA1 {
            Some(Instr::Sknp { x: op_x(w) })
        } else {
            None
        }
    } else {
        spec_decode_misc(w)
    }
}

/// Classification of the ALU group (high nibble 8) by the low nibble.
pub open spec fn spec_decode_alu(w: u16) -> Option<Instr> {
    let l = w % 0x10;
    let x = op_x(w);
    let y = op_y(w);
    if l == 0x0 {
        Some(Instr::Alu { op: AluOp::Ld, x, y })
    } else if l == 0x1 {
        Some(Instr::Alu { op: AluOp::Or, x, y })
    } else if l == 0x2 {
        Some(Instr::Alu { op: AluOp::And, x, y })
    } else if l == 0x3 {
        Some(Instr::Alu { op: AluOp::Xor, x, y })
    } else if l == 0x4 {
        Some(Instr::Alu { op: AluOp::Add, x, y })
    } else if l == 0x5 {
        Some(Instr::Alu { op: AluOp::Sub, x, y })
    } else if l == 0x6 {
        Some(Instr::Alu { op: AluOp::Shr, x, y })
    } else if l == 0x7 {
        Some(Instr::Alu { op: AluOp::Subn, x, y })
    } else if l == 0xE {
        Some(Instr::Alu { op: AluOp::Shl, x, y })
    } else {
        None
    }
}

/// Classification of the timer/memory group (high nibble F) by the low byte.
pub open spec fn spec_decode_misc(w: u16) -> Option<Instr> {
    let kk = op_kk(w);
    let x = op_x(w);
    if kk == 0x07 {
        Some(Instr::LdFromDt { x })
    } else if kk == 0x0A {
        Some(Instr::WaitKey { x })
    } else if kk == 0x15 {
        Some(Instr::LdDt { x })
    } else if kk == 0x18 {
        Some(Instr::LdSt { x })
    } else if kk == 0x1E {
        Some(Instr::AddI { x })
    } else if kk == 0x29 {
        Some(Instr::LdFont { x })
    } else if kk == 0x33 {
        Some(Instr::Bcd { x })
    } else if kk == 0x55 {
        Some(Instr::StoreRegs { x })
    } else if kk == 0x65 {
        Some(Instr::LoadRegs { x })
    } else {
        None
    }
}

/// Operand bounds that hold of every decoded instruction: register selectors
/// and row counts are nibbles, addresses are 12 bits.
pub open spec fn instr_wf(ins: Instr) -> bool {
    match ins {
        Instr::Cls => true,
        Instr::Ret => true,
        Instr::Jp { nnn } => nnn < 0x1000,
        Instr::Call { nnn } => nnn < 0x1000,
        Instr::SeImm { x, kk } => x < 16,
        Instr::SneImm { x, kk } => x < 16,
        Instr::SeReg { x, y } => x < 16 && y < 16,
        Instr::LdImm { x, kk } => x < 16,
        Instr::AddImm { x, kk } => x < 16,
        Instr::Alu { op, x, y } => x < 16 && y < 16,
        Instr::SneReg { x, y } => x < 16 && y < 16,
        Instr::LdI { nnn } => nnn < 0x1000,
        Instr::JpV0 { nnn } => nnn < 0x1000,
        Instr::Rnd { x, kk } => x < 16,
        Instr::Drw { x, y, n } => x < 16 && y < 16 && n < 16,
        Instr::Skp { x } => x < 16,
        Instr::Sknp { x } => x < 16,
        Instr::LdFromDt { x } => x < 16,
        Instr::WaitKey { x } => x < 16,
        Instr::LdDt { x } => x < 16,
        Instr::LdSt { x } => x < 16,
        Instr::AddI { x } => x < 16,
        Instr::LdFont { x } => x < 16,
        Instr::Bcd { x } => x < 16,
        Instr::StoreRegs { x } => x < 16,
        Instr::LoadRegs { x } => x < 16,
    }
}

/// Every instruction the decoder yields satisfies the operand bounds.
pub proof fn lemma_decode_wf(w: u16)
    ensures
        spec_decode(w) matches Some(i) ==> instr_wf(i),
{
}

/// Decode an instruction word into its operation, or `None` where the word
/// matches no case.
pub fn decode(w: u16) -> (r: Option<Instr>)
    ensures
        r == spec_decode(w),
{
    let h = w / 0x1000;
    let x: u8 = ((w / 0x100) % 0x10) as u8;
    let y: u8 = ((w / 0x10) % 0x10) as u8;
    let n: u8 = (w % 0x10) as u8;
    let kk: u8 = (w % 0x100) as u8;
    let nnn: u16 = w % 0x1000;
    if h == 0x0 {
        if w == 0x00E0 {
            Some(Instr::Cls)
        } else if w == 0x00EE {
            Some(Instr::Ret)
        } else {
            None
        }
    } else if h == 0x1 {
        Some(Instr::Jp { nnn })
    } else if h == 0x2 {
        Some(Instr::Call { nnn })
    } else if h == 0x3 {
        Some(Instr::SeImm { x, kk })
    } else if h == 0x4 {
        Some(Instr::SneImm { x, kk })
    } else if h == 0x5 {
        Some(Instr::SeReg { x, y })
    } else if h == 0x6 {
        Some(Instr::LdImm { x, kk })
    } else if h == 0x7 {
        Some(Instr::AddImm { x, kk })
    } else if h == 0x8 {
        let l = w % 0x10;
        if l == 0x0 {
            Some(Instr::Alu { op: AluOp::Ld, x, y })
        } else if l == 0x1 {
            Some(Instr::Alu { op: AluOp::Or, x, y })
        } else if l == 0x2 {
            Some(Instr::Alu { op: AluOp::And, x, y })
        } else if l == 0x3 {
            Some(Instr::Alu { op: AluOp::Xor, x, y })
        } else if l == 0x4 {
            Some(Instr::Alu { op: AluOp::Add, x, y })
        } else if l == 0x5 {
            Some(Instr::Alu { op: AluOp::Sub, x, y })
        } else if l == 0x6 {
            Some(Instr::Alu { op: AluOp::Shr, x, y })
        } else if l == 0x7 {
            Some(Instr::Alu { op: AluOp::Subn, x, y })
        } else if l == 0xE {
            Some(Instr::Alu { op: AluOp::Shl, x, y })
        } else {
            None
        }
    } else if h == 0x9 {
        Some(Instr::SneReg { x, y })
    } else if h == 0xA {
        Some(Instr::LdI { nnn })
    } else if h == 0xB {
        Some(Instr::JpV0 { nnn })
    } else if h == 0xC {
        Some(Instr::Rnd { x, kk })
    } else if h == 0xD {
        Some(Instr::Drw { x, y, n })
    } else if h == 0xE {
        if kk == 0x9E {
            Some(Instr::Skp { x })
        } else if kk == 0xA1 {
            Some(Instr::Sknp { x })
        } else {
            None
        }
    } else {
        if kk == 0x07 {
            Some(Instr::LdFromDt { x })
        } else if kk == 0x0A {
            Some(Instr::WaitKey { x })
        } else if kk == 0x15 {
            Some(Instr::LdDt { x })
        } else if kk == 0x18 {
            Some(Instr::LdSt { x })
        } else if kk == 0x1E {
            Some(Instr::AddI { x })
        } else if kk == 0x29 {
            Some(Instr::LdFont { x })
        } else if kk == 0x33 {
            Some(Instr::Bcd { x })
        } else if kk == 0x55 {
            Some(Instr::StoreRegs { x })
        } else if kk == 0x65 {
            Some(Instr::LoadRegs { x })
        } else {
            None
        }
    }
}

} // verus!
