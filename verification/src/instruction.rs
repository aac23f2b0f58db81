//! The machine's operation set: a closed enumeration with a stable numeric
//! encoding and the table of assembly mnemonics.

use vstd::prelude::*;

verus! {

/// One operation of the machine. Every byte outside the defined range
/// decodes to `IGL`, the distinguished illegal opcode.
#[derive(Debug, PartialEq, Eq, Structural, Copy, Clone)]
pub enum Opcode {
    HLT,
    LOAD,
    ADD,
    SUB,
    MUL,
    DIV,
    JMP,
    JMPF,
    JMPB,
    EQ,
    NEQ,
    GT,
    LT,
    GTE,
    LTE,
    JEQ,
    ALOC,
    INC,
    DEC,
    IGL,
}

/// The numeric decoding: a total function from bytes to opcodes, with
/// `IGL` as the default for every byte no defined opcode owns.
pub open spec fn opcode_of_u8(v: u8) -> Opcode {
    if v == 0 {
        Opcode::HLT
    } else if v == 1 {
        Opcode::LOAD
    } else if v == 2 {
        Opcode::ADD
    } else if v == 3 {
        Opcode::SUB
    } else if v == 4 {
        Opcode::MUL
    } else if v == 5 {
        Opcode::DIV
    } else if v == 6 {
        Opcode::JMP
    } else if v == 7 {
        Opcode::JMPF
    } else if v == 8 {
        Opcode::JMPB
    } else if v == 9 {
        Opcode::EQ
    } else if v == 10 {
        Opcode::NEQ
    } else if v == 11 {
        Opcode::GT
    } else if v == 12 {
        Opcode::LT
    } else if v == 13 {
        Opcode::GTE
    } else if v == 14 {
        Opcode::LTE
    } else if v == 15 {
        Opcode::JEQ
    } else if v == 16 {
        Opcode::ALOC
    } else if v == 17 {
        Opcode::INC
    } else if v == 18 {
        Opcode::DEC
    } else {
        Opcode::IGL
    }
}

/// The numeric encoding of each opcode; `IGL` itself encodes to 19, the
/// first byte outside the defined range.
pub open spec fn opcode_num(op: Opcode) -> u8 {
    match op {
        Opcode::HLT => 0,
        Opcode::LOAD => 1,
        Opcode::ADD => 2,
        Opcode::SUB => 3,
        Opcode::MUL => 4,
        Opcode::DIV => 5,
        Opcode::JMP => 6,
        Opcode::JMPF => 7,
        Opcode::JMPB => 8,
        Opcode::EQ => 9,
        Opcode::NEQ => 10,
        Opcode::GT => 11,
        Opcode::LT => 12,
        Opcode::GTE => 13,
        Opcode::LTE => 14,
        Opcode::JEQ => 15,
        Opcode::ALOC => 16,
        Opcode::INC => 17,
        Opcode::DEC => 18,
        Opcode::IGL => 19,
    }
}

/// The mnemonic table of the assembly grammar. An identifier that matches
/// no mnemonic names the illegal opcode: an unknown mnemonic is not a
/// parse failure, it is deferred to run time.
pub open spec fn opcode_of_mnemonic(s: Seq<char>) -> Opcode {
    if s == "hlt"@ {
        Opcode::HLT
    } else if s == "ld"@ {
        Opcode::LOAD
    } else if s == "add"@ {
        Opcode::ADD
    } else if s == "sub"@ {
        Opcode::SUB
    } else if s == "mul"@ {
        Opcode::MUL
    } else if s == "div"@ {
        Opcode::DIV
    } else if s == "jmp"@ {
        Opcode::JMP
    } else if s == "jmpf"@ {
        Opcode::JMPF
    } else if s == "jmpb"@ {
        Opcode::JMPB
    } else if s == "eq"@ {
        Opcode::EQ
    } else if s == "neq"@ {
        Opcode::NEQ
    } else if s == "gt"@ {
        Opcode::GT
    } else if s == "lt"@ {
        Opcode::LT
    } else if s == "gte"@ {
        Opcode::GTE
    } else if s == "lte"@ {
        Opcode::LTE
    } else if s == "jeq"@ {
        Opcode::JEQ
    } else if s == "aloc"@ {
        Opcode::ALOC
    } else if s == "inc"@ {
        Opcode::INC
    } else if s == "dec"@ {
        Opcode::DEC
    } else {
        Opcode::IGL
    }
}

impl From<u8> for Opcode {
    /// Decodes one byte to its opcode.
    fn from(v: u8) -> (r: Self)
        ensures
            r == opcode_of_u8(v),
    {
        match v {
            0 => Opcode::HLT,
            1 => Opcode::LOAD,
            2 => Opcode::ADD,
            3 => Opcode::SUB,
            4 => Opcode::MUL,
            5 => Opcode::DIV,
            6 => Opcode::JMP,
            7 => Opcode::JMPF,
            8 => Opcode::JMPB,
            9 => Opcode::EQ,
            10 => Opcode::NEQ,
            11 => Opcode::GT,
            12 => Opcode::LT,
            13 => Opcode::GTE,
            14 => Opcode::LTE,
            15 => Opcode::JEQ,
            16 => Opcode::ALOC,
            17 => Opcode::INC,
            18 => Opcode::DEC,
            _ => Opcode::IGL,
        }
    }
}

impl vstd::std_specs::convert::FromSpecImpl<u8> for Opcode {
    open spec fn obeys_from_spec() -> bool {
        true
    }

    open spec fn from_spec(v: u8) -> Self {
        opcode_of_u8(v)
    }
}

impl Opcode {
    /// Encodes the opcode to its byte.
    pub fn code(self) -> (r: u8)
        ensures
            r == opcode_num(self),
    {
        match self {
            Opcode::HLT => 0,
            Opcode::LOAD => 1,
            Opcode::ADD => 2,
            Opcode::SUB => 3,
            Opcode::MUL => 4,
            Opcode::DIV => 5,
            Opcode::JMP => 6,
            Opcode::JMPF => 7,
            Opcode::JMPB => 8,
            Opcode::EQ => 9,
            Opcode::NEQ => 10,
            Opcode::GT => 11,
            Opcode::LT => 12,
            Opcode::GTE => 13,
            Opcode::LTE => 14,
            Opcode::JEQ => 15,
            Opcode::ALOC => 16,
            Opcode::INC => 17,
            Opcode::DEC => 18,
            Opcode::IGL => 19,
        }
    }

    /// Looks an assembly mnemonic up in the opcode table.
    pub fn from_mnemonic(s: &str) -> (r: Opcode)
        ensures
            r == opcode_of_mnemonic(s@),
    {
        let v: String = s.to_owned();
        if v == "hlt".to_owned() {
            Opcode::HLT
        } else if v == "ld".to_owned() {
            Opcode::LOAD
        } else if v == "add".to_owned() {
            Opcode::ADD
        } else if v == "sub".to_owned() {
            Opcode::SUB
        } else if v == "mul".to_owned() {
            Opcode::MUL
        } else if v == "div".to_owned() {
            Opcode::DIV
        } else if v == "jmp".to_owned() {
            Opcode::JMP
        } else if v == "jmpf".to_owned() {
            Opcode::JMPF
        } else if v == "jmpb".to_owned() {
            Opcode::JMPB
        } else if v == "eq".to_owned() {
            Opcode::EQ
        } else if v == "neq".to_owned() {
            Opcode::NEQ
        } else if v == "gt".to_owned() {
            Opcode::GT
        } else if v == "lt".to_owned() {
            Opcode::LT
        } else if v == "gte".to_owned() {
            Opcode::GTE
        } else if v == "lte".to_owned() {
            Opcode::LTE
        } else if v == "jeq".to_owned() {
            Opcode::JEQ
        } else if v == "aloc".to_owned() {
            Opcode::ALOC
        } else if v == "inc".to_owned() {
            Opcode::INC
        } else if v == "dec".to_owned() {
            Opcode::DEC
        } else {
            Opcode::IGL
        }
    }
}

/// Every opcode survives the encode-decode round trip: decoding the byte
/// an opcode encodes to yields that opcode again, the illegal opcode
/// included.
pub proof fn lemma_opcode_round_trip(op: Opcode)
    ensures
        opcode_of_u8(opcode_num(op)) == op,
{
}

/// One fetched operation, as the machine's decoder hands it on.
pub struct Instruction {
    pub opcode: Opcode,
}

impl Instruction {
    /// Wraps a decoded opcode.
    pub fn new(opcode: Opcode) -> (r: Instruction)
        ensures
            r.opcode == opcode,
    {
        Instruction { opcode }
    }
}

} // verus!
