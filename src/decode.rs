use vstd::prelude::*;

verus! {

/// One decoded instruction word, with the operand fields that it uses.
#[derive(Clone, Copy, Debug, PartialEq, Eq, Structural)]
pub enum Instr {
    /// `00E0`
    Cls,
    /// `00EE`
    Ret,
    /// `1nnn`
    Jp { addr: u16 },
    /// `2nnn`
    Call { addr: u16 },
    /// `3xkk`
    SeImm { x: u8, kk: u8 },
    /// `4xkk`
    SneImm { x: u8, kk: u8 },
    /// `5xy0`
    SeReg { x: u8, y: u8 },
    /// `6xkk`
    LdImm { x: u8, kk: u8 },
    /// `7xkk`
    AddImm { x: u8, kk: u8 },
    /// `8xy0`
    Mov { x: u8, y: u8 },
    /// `8xy1`
    Or { x: u8, y: u8 },
    /// `8xy2`
    And { x: u8, y: u8 },
    /// `8xy3`
    Xor { x: u8, y: u8 },
    /// `8xy4`
    AddReg { x: u8, y: u8 },
    /// `8xy5`
    Sub { x: u8, y: u8 },
    /// `8xy6`
    Shr { x: u8 },
    /// `8xy7`
    SubN { x: u8, y: u8 },
    /// `8xyE`
    Shl { x: u8 },
    /// `9xy0`
    SneReg { x: u8, y: u8 },
    /// `Annn`
    LdI { addr: u16 },
    /// `Bnnn`
    JpV0 { addr: u16 },
    /// `Cxkk`
    Rnd { x: u8, kk: u8 },
    /// `Dxyn`
    Drw { x: u8, y: u8, n: u8 },
    /// `Ex9E`
    Skp { x: u8 },
    /// `ExA1`
    Sknp { x: u8 },
    /// `Fx07`
    LdVxDt { x: u8 },
    /// `Fx0A`
    WaitKey { x: u8 },
    /// `Fx15`
    LdDtVx { x: u8 },
    /// `Fx18`
    LdStVx { x: u8 },
    /// `Fx1E`
    AddI { x: u8 },
    /// `Fx29`
    LdFont { x: u8 },
    /// `Fx33`
    Bcd { x: u8 },
    /// `Fx55`
    Store { x: u8 },
    /// `Fx65`
    Load { x: u8 },
}

/// Most significant nibble of an opcode.
pub open spec fn nib_a(op: u16) -> u16 {
    op / 4096
}

/// Second nibble: the `x` register index.
pub open spec fn nib_x(op: u16) -> u8 {
    ((op / 256) % 16) as u8
}

/// Third nibble: the `y` register index.
pub open spec fn nib_y(op: u16) -> u8 {
    ((op / 16) % 16) as u8
}

/// Least significant nibble.
pub open spec fn nib_d(op: u16) -> u8 {
    (op % 16) as u8
}

/// Low byte: the immediate operand `kk`.
pub open spec fn low_byte(op: u16) -> u8 {
    (op % 256) as u8
}

/// Low twelve bits: the address operand `nnn`.
pub open spec fn addr12(op: u16) -> u16 {
    op % 4096
}

/// The instruction that an opcode stands for, if any.
pub open spec fn decode_spec(op: u16) -> Option<Instr> {
    let a = nib_a(op);
    let x = nib_x(op);
    let y = nib_y(op);
    let d = nib_d(op);
    let kk = low_byte(op);
    let addr = addr12(op);
    if op == 0x00E0 {
        Some(Instr::Cls)
    } else if op == 0x00EE {
        Some(Instr::Ret)
    } else if a == 1 {
        Some(Instr::Jp { addr })
    } else if a == 2 {
        Some(Instr::Call { addr })
    } else if a == 3 {
        Some(Instr::SeImm { x, kk })
    } else if a == 4 {
        Some(Instr::SneImm { x, kk })
    } else if a == 5 && d == 0 {
        Some(Instr::SeReg { x, y })
    } else if a == 6 {
        Some(Instr::LdImm { x, kk })
    } else if a == 7 {
        Some(Instr::AddImm { x, kk })
    } else if a == 8 && d == 0 {
        Some(Instr::Mov { x, y })
    } else if a == 8 && d == 1 {
        Some(Instr::Or { x, y })
    } else if a == 8 && d == 2 {
        Some(Instr::And { x, y })
    } else if a == 8 && d == 3 {
        Some(Instr::Xor { x, y })
    } else if a == 8 && d == 4 {
        Some(Instr::AddReg { x, y })
    } else if a == 8 && d == 5 {
        Some(Instr::Sub { x, y })
    } else if a == 8 && d == 6 {
        Some(Instr::Shr { x })
    } else if a == 8 && d == 7 {
        Some(Instr::SubN { x, y })
    } else if a == 8 && d == 0xE {
        Some(Instr::Shl { x })
    } else if a == 9 && d == 0 {
        Some(Instr::SneReg { x, y })
    } else if a == 0xA {
        Some(Instr::LdI { addr })
    } else if a == 0xB {
        Some(Instr::JpV0 { addr })
    } else if a == 0xC {
        Some(Instr::Rnd { x, kk })
    } else if a == 0xD {
        Some(Instr::Drw { x, y, n: d })
    } else if a == 0xE && kk == 0x9E {
        Some(Instr::Skp { x })
    } else if a == 0xE && kk == 0xA1 {
        Some(Instr::Sknp { x })
    } else if a == 0xF && kk == 0x07 {
        Some(Instr::LdVxDt { x })
    } else if a == 0xF && kk == 0x0A {
        Some(Instr::WaitKey { x })
    } else if a == 0xF && kk == 0x15 {
        Some(Instr::LdDtVx { x })
    } else if a == 0xF && kk == 0x18 {
        Some(Instr::LdStVx { x })
    } else if a == 0xF && kk == 0x1E {
        Some(Instr::AddI { x })
    } else if a == 0xF && kk == 0x29 {
        Some(Instr::LdFont { x })
    } else if a == 0xF && kk == 0x33 {
        Some(Instr::Bcd { x })
    } else if a == 0xF && kk == 0x55 {
        Some(Instr::Store { x })
    } else if a == 0xF && kk == 0x65 {
        Some(Instr::Load { x })
    } else {
        None
    }
}

/// Splits an opcode into its nibbles and operands and names the instruction;
/// `None` for a pattern outside the instruction set.
pub fn decode(op: u16) -> (r: Option<Instr>)
    ensures
        r == decode_spec(op),
{
    let a = op / 4096;
    let x = ((op / 256) % 16) as u8;
    let y = ((op / 16) % 16) as u8;
    let d = (op % 16) as u8;
    let kk = (op % 256) as u8;
    let addr = op % 4096;
    if op == 0x00E0 {
        Some(Instr::Cls)
    } else if op == 0x00EE {
        Some(Instr::Ret)
    } else if a == 1 {
        Some(Instr::Jp { addr })
    } else if a == 2 {
        Some(Instr::Call { addr })
    } else if a == 3 {
        Some(Instr::SeImm { x, kk })
    } else if a == 4 {
        Some(Instr::SneImm { x, kk })
    } else if a == 5 && d == 0 {
        Some(Instr::SeReg { x, y })
    } else if a == 6 {
        Some(Instr::LdImm { x, kk })
    } else if a == 7 {
        Some(Instr::AddImm { x, kk })
    } else if a == 8 && d == 0 {
        Some(Instr::Mov { x, y })
    } else if a == 8 && d == 1 {
        Some(Instr::Or { x, y })
    } else if a == 8 && d == 2 {
        Some(Instr::And { x, y })
    } else if a == 8 && d == 3 {
        Some(Instr::Xor { x, y })
    } else if a == 8 && d == 4 {
        Some(Instr::AddReg { x, y })
    } else if a == 8 && d == 5 {
        Some(Instr::Sub { x, y })
    } else if a == 8 && d == 6 {
        Some(Instr::Shr { x })
    } else if a == 8 && d == 7 {
        Some(Instr::SubN { x, y })
    } else if a == 8 && d == 0xE {
        Some(Instr::Shl { x })
    } else if a == 9 && d == 0 {
        Some(Instr::SneReg { x, y })
    } else if a == 0xA {
        Some(Instr::LdI { addr })
    } else if a == 0xB {
        Some(Instr::JpV0 { addr })
    } else if a == 0xC {
        Some(Instr::Rnd { x, kk })
    } else if a == 0xD {
        Some(Instr::Drw { x, y, n: d })
    } else if a == 0xE && kk == 0x9E {
        Some(Instr::Skp { x })
    } else if a == 0xE && kk == 0xA1 {
        Some(Instr::Sknp { x })
    } else if a == 0xF && kk == 0x07 {
        Some(Instr::LdVxDt { x })
    } else if a == 0xF && kk == 0x0A {
        Some(Instr::WaitKey { x })
    } else if a == 0xF && kk == 0x15 {
        Some(Instr::LdDtVx { x })
    } else if a == 0xF && kk == 0x18 {
        Some(Instr::LdStVx { x })
    } else if a == 0xF && kk == 0x1E {
        Some(Instr::AddI { x })
    } else if a == 0xF && kk == 0x29 {
        Some(Instr::LdFont { x })
    } else if a == 0xF && kk == 0x33 {
        Some(Instr::Bcd { x })
    } else if a == 0xF && kk == 0x55 {
        Some(Instr::Store { x })
    } else if a == 0xF && kk == 0x65 {
        Some(Instr::Load { x })
    } else {
        None
    }
}

/// What happens to the program counter once an instruction has run.
#[derive(Clone, Copy, Debug, PartialEq, Eq, Structural)]
pub enum ProgramCounter {
    /// Advance by one instruction (2 bytes).
    Next,
    /// Advance by two instructions (4 bytes).
    Skip,
    /// Continue at an absolute address.
    Jump(usize),
}

impl ProgramCounter {
    /// `Skip` when the condition holds, `Next` otherwise.
    pub fn skip(expression: bool) -> (r: ProgramCounter)
        ensures
            r == (if expression { ProgramCounter::Skip } else { ProgramCounter::Next }),
    {
        if expression {
            ProgramCounter::Skip
        } else {
            ProgramCounter::Next
        }
    }
}

impl Instr {
    /// Every register index and row count that the instruction names is below 16.
    pub open spec fn fields_ok(self) -> bool {
        match self {
            Instr::SeImm { x, .. } | Instr::SneImm { x, .. } | Instr::LdImm { x, .. }
            | Instr::AddImm { x, .. } | Instr::Rnd { x, .. } | Instr::Shr { x } | Instr::Shl { x }
            | Instr::Skp { x } | Instr::Sknp { x } | Instr::LdVxDt { x } | Instr::WaitKey { x }
            | Instr::LdDtVx { x } | Instr::LdStVx { x } | Instr::AddI { x } | Instr::LdFont { x }
            | Instr::Bcd { x } | Instr::Store { x } | Instr::Load { x } => x < 16,
            Instr::SeReg { x, y } | Instr::SneReg { x, y } | Instr::Mov { x, y } | Instr::Or { x, y }
            | Instr::And { x, y } | Instr::Xor { x, y } | Instr::AddReg { x, y } | Instr::Sub { x, y }
            | Instr::SubN { x, y } => x < 16 && y < 16,
            Instr::Drw { x, y, n } => x < 16 && y < 16 && n < 16,
            _ => true,
        }
    }
}

/// What `decode_spec` names has its register fields in range.
pub proof fn lemma_decoded_fields_ok(op: u16)
    ensures
        decode_spec(op) matches Some(i) ==> i.fields_ok(),
{
}

} // verus!
