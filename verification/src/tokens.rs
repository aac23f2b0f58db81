//! Tokens, parsed instructions, and the four-byte instruction encoding.
//!
//! Byte 0 of an encoded instruction is the opcode's numeric code; operands
//! follow in declaration order (a register as one byte, an integer or a
//! resolved label offset as its low 16 bits, big-endian); the buffer is
//! right-padded with zeros to exactly four bytes. An operand list that
//! cannot fit, or a token that may not stand in its field, is fatal for
//! the assembly.

use vstd::arithmetic::div_mod::lemma_mod_multiples_vanish;
use vstd::prelude::*;

use crate::instruction::{opcode_num, Opcode};
use crate::symbols::{lookup_symbol, SymbolTable, SymbolV};

verus! {

/// One lexical token of the assembly grammar.
#[derive(Debug, PartialEq)]
pub enum Token {
    Op { code: Opcode },
    Register { reg_num: u8 },
    IntegerOperand { value: i32 },
    LabelDeclaration { name: String },
    LabelUsage { name: String },
    Directive { name: String },
    IrString { name: String },
}

/// The mathematical value of a token.
pub enum TokenV {
    Op { code: Opcode },
    Register { reg_num: u8 },
    IntegerOperand { value: i32 },
    LabelDeclaration { name: Seq<char> },
    LabelUsage { name: Seq<char> },
    Directive { name: Seq<char> },
    IrString { name: Seq<char> },
}

impl View for Token {
    type V = TokenV;

    open spec fn view(&self) -> TokenV {
        match self {
            Token::Op { code } => TokenV::Op { code: *code },
            Token::Register { reg_num } => TokenV::Register { reg_num: *reg_num },
            Token::IntegerOperand { value } => TokenV::IntegerOperand { value: *value },
            Token::LabelDeclaration { name } => TokenV::LabelDeclaration { name: name@ },
            Token::LabelUsage { name } => TokenV::LabelUsage { name: name@ },
            Token::Directive { name } => TokenV::Directive { name: name@ },
            Token::IrString { name } => TokenV::IrString { name: name@ },
        }
    }
}

/// The view of an optional token.
pub open spec fn opt_token_view(t: Option<Token>) -> Option<TokenV> {
    match t {
        Some(x) => Some(x@),
        None => None,
    }
}

/// One parsed line of assembly: an opcode or a directive, an optional
/// label, and up to three operands. A well-formed line carries exactly
/// one of opcode and directive.
#[derive(Debug, PartialEq)]
pub struct AsmInstruction {
    pub opcode: Option<Token>,
    pub operand1: Option<Token>,
    pub operand2: Option<Token>,
    pub operand3: Option<Token>,
    pub label: Option<Token>,
    pub directive: Option<Token>,
}

/// The mathematical value of a parsed instruction.
pub struct AsmInstructionV {
    pub opcode: Option<TokenV>,
    pub operand1: Option<TokenV>,
    pub operand2: Option<TokenV>,
    pub operand3: Option<TokenV>,
    pub label: Option<TokenV>,
    pub directive: Option<TokenV>,
}

impl View for AsmInstruction {
    type V = AsmInstructionV;

    open spec fn view(&self) -> AsmInstructionV {
        AsmInstructionV {
            opcode: opt_token_view(self.opcode),
            operand1: opt_token_view(self.operand1),
            operand2: opt_token_view(self.operand2),
            operand3: opt_token_view(self.operand3),
            label: opt_token_view(self.label),
            directive: opt_token_view(self.directive),
        }
    }
}

/// The low 16 bits of a 32-bit signed value, read as the nonnegative
/// two's-complement word the encoder materializes.
pub open spec fn low16(v: i32) -> int {
    (v as int) % 0x10000
}

/// What a register or integer operand contributes to the instruction's
/// bytes; any other token is illegal in a plain operand field.
pub open spec fn plain_operand_bytes(t: TokenV) -> Option<Seq<u8>> {
    match t {
        TokenV::Register { reg_num } => Some(seq![reg_num]),
        TokenV::IntegerOperand { value } => Some(
            seq![(low16(value) / 256) as u8, (low16(value) % 256) as u8],
        ),
        _ => None,
    }
}

/// What one operand token contributes to the instruction's bytes. A label
/// usage resolves through the symbol table to the low 16 bits of the
/// offset, big-endian; an unresolved label contributes nothing and the
/// padding fills its place.
pub open spec fn operand_bytes(t: TokenV, syms: Seq<SymbolV>) -> Option<Seq<u8>> {
    match t {
        TokenV::LabelUsage { name } => match lookup_symbol(syms, name) {
            Some(off) => Some(seq![((off as int / 256) % 256) as u8, (off as int % 256) as u8]),
            None => Some(Seq::<u8>::empty()),
        },
        _ => plain_operand_bytes(t),
    }
}

/// What an optional operand field contributes: an absent operand
/// contributes nothing.
pub open spec fn operand_field_bytes(t: Option<TokenV>, syms: Seq<SymbolV>) -> Option<Seq<u8>> {
    match t {
        None => Some(Seq::<u8>::empty()),
        Some(tok) => operand_bytes(tok, syms),
    }
}

/// What the opcode field contributes: the opcode's numeric code, one
/// byte. A non-opcode token in the opcode field is illegal; an absent
/// opcode contributes nothing.
pub open spec fn opcode_field_bytes(t: Option<TokenV>) -> Option<Seq<u8>> {
    match t {
        None => Some(Seq::<u8>::empty()),
        Some(TokenV::Op { code }) => Some(seq![opcode_num(code)]),
        Some(_) => None,
    }
}

/// The encoding of one parsed instruction: opcode byte, then operand
/// bytes in order, right-padded with zeros to exactly four bytes. `None`
/// when a field holds an illegal token or the operands overrun the
/// four-byte format.
pub open spec fn instr_bytes(iv: AsmInstructionV, syms: Seq<SymbolV>) -> Option<Seq<u8>> {
    match (
        opcode_field_bytes(iv.opcode),
        operand_field_bytes(iv.operand1, syms),
        operand_field_bytes(iv.operand2, syms),
        operand_field_bytes(iv.operand3, syms),
    ) {
        (Some(b0), Some(b1), Some(b2), Some(b3)) => {
            let joined = b0 + b1 + b2 + b3;
            if joined.len() > 4 {
                None
            } else {
                Some(joined + Seq::<u8>::new((4 - joined.len()) as nat, |i: int| 0u8))
            }
        },
        _ => None,
    }
}

/// An encoded instruction is exactly four bytes.
pub proof fn lemma_instr_bytes_len(iv: AsmInstructionV, syms: Seq<SymbolV>)
    requires
        instr_bytes(iv, syms) is Some,
    ensures
        instr_bytes(iv, syms).unwrap().len() == 4,
{
}

/// The encoding of a sequence of parsed instructions from position `i`
/// on: each instruction's four bytes, concatenated in source order.
pub open spec fn program_bytes_from(
    instrs: Seq<AsmInstructionV>,
    syms: Seq<SymbolV>,
    i: int,
) -> Option<Seq<u8>>
    decreases instrs.len() - i,
{
    if i < 0 || i >= instrs.len() {
        Some(Seq::<u8>::empty())
    } else {
        match (instr_bytes(instrs[i], syms), program_bytes_from(instrs, syms, i + 1)) {
            (Some(b), Some(rest)) => Some(b + rest),
            _ => None,
        }
    }
}

/// The encoding of a whole parsed program.
pub open spec fn program_bytes(instrs: Seq<AsmInstructionV>, syms: Seq<SymbolV>) -> Option<
    Seq<u8>,
> {
    program_bytes_from(instrs, syms, 0)
}

/// An encoded program is exactly four bytes per instruction.
pub proof fn lemma_program_bytes_len(instrs: Seq<AsmInstructionV>, syms: Seq<SymbolV>, i: int)
    requires
        0 <= i <= instrs.len(),
        program_bytes_from(instrs, syms, i) is Some,
    ensures
        program_bytes_from(instrs, syms, i).unwrap().len() == 4 * (instrs.len() - i),
    decreases instrs.len() - i,
{
    if i < instrs.len() {
        lemma_instr_bytes_len(instrs[i], syms);
        lemma_program_bytes_len(instrs, syms, i + 1);
    }
}

impl AsmInstruction {
    /// Builds a parsed instruction from its fields.
    pub fn new(
        directive: Option<Token>,
        label: Option<Token>,
        opcode: Option<Token>,
        operand1: Option<Token>,
        operand2: Option<Token>,
        operand3: Option<Token>,
    ) -> (r: AsmInstruction)
        ensures
            r@ == (AsmInstructionV {
                opcode: opt_token_view(opcode),
                operand1: opt_token_view(operand1),
                operand2: opt_token_view(operand2),
                operand3: opt_token_view(operand3),
                label: opt_token_view(label),
                directive: opt_token_view(directive),
            }),
    {
        AsmInstruction { directive, label, opcode, operand1, operand2, operand3 }
    }

    /// Whether the instruction carries a label declaration.
    pub fn is_label(&self) -> (r: bool)
        ensures
            r == (self@.label is Some),
    {
        self.label.is_some()
    }

    /// Whether the instruction carries an opcode.
    pub fn is_opcode(&self) -> (r: bool)
        ensures
            r == (self@.opcode is Some),
    {
        self.opcode.is_some()
    }

    /// Whether the instruction carries a directive.
    pub fn is_directive(&self) -> (r: bool)
        ensures
            r == (self@.directive is Some),
    {
        self.directive.is_some()
    }

    /// Whether any operand field is filled.
    pub fn has_operands(&self) -> (r: bool)
        ensures
            r == (self@.operand1 is Some || self@.operand2 is Some || self@.operand3 is Some),
    {
        self.operand1.is_some() || self.operand2.is_some() || self.operand3.is_some()
    }

    /// The declared label's name, when the label field holds one.
    pub fn label_name(&self) -> (r: Option<String>)
        ensures
            match self@.label {
                Some(TokenV::LabelDeclaration { name }) => r is Some && r.unwrap()@ == name,
                _ => r is None,
            },
    {
        match &self.label {
            Some(Token::LabelDeclaration { name }) => Some(name.clone()),
            _ => None,
        }
    }

    /// The directive's name, when the directive field holds one.
    pub fn directive_name(&self) -> (r: Option<String>)
        ensures
            match self@.directive {
                Some(TokenV::Directive { name }) => r is Some && r.unwrap()@ == name,
                _ => r is None,
            },
    {
        match &self.directive {
            Some(Token::Directive { name }) => Some(name.clone()),
            _ => None,
        }
    }

    /// The string constant in the first operand field, when one stands
    /// there.
    pub fn get_string_constant(&self) -> (r: Option<String>)
        ensures
            match self@.operand1 {
                Some(TokenV::IrString { name }) => r is Some && r.unwrap()@ == name,
                _ => r is None,
            },
    {
        match &self.operand1 {
            Some(Token::IrString { name }) => Some(name.clone()),
            _ => None,
        }
    }

    /// Appends a register or integer operand's bytes and reports success;
    /// any other token is illegal here and leaves the buffer unchanged.
    pub fn extract_operand(t: &Token, results: &mut Vec<u8>) -> (r: bool)
        ensures
            match plain_operand_bytes(t@) {
                Some(bs) => r && final(results)@ == old(results)@ + bs,
                None => !r && final(results)@ == old(results)@,
            },
    {
        let ghost before = results@;
        match t {
            Token::Register { reg_num } => {
                results.push(*reg_num);
                proof {
                    assert(results@ =~= before + plain_operand_bytes(t@).unwrap());
                }
                true
            },
            Token::IntegerOperand { value } => {
                let w: u32 = if *value >= 0 {
                    (*value as u32) % 65536
                } else {
                    proof {
                        lemma_mod_multiples_vanish(65536, *value as int, 65536);
                    }
                    (((*value as i64) + 0x1_0000_0000) as u32) % 65536
                };
                proof {
                    assert(w as int == low16(*value));
                }
                results.push((w / 256) as u8);
                results.push((w % 256) as u8);
                proof {
                    assert(results@ =~= before + plain_operand_bytes(t@).unwrap());
                }
                true
            },
            _ => {
                proof {
                    assert(results@ =~= before);
                }
                false
            },
        }
    }

    /// Encodes the instruction to exactly four bytes, resolving label
    /// usages through the table; `None` when a field holds an illegal
    /// token or the operands overrun the format.
    pub fn to_bytes(&self, symbols: &SymbolTable) -> (r: Option<Vec<u8>>)
        ensures
            match instr_bytes(self@, symbols@) {
                Some(bs) => r is Some && r.unwrap()@ == bs && bs.len() == 4,
                None => r is None,
            },
    {
        proof {
            if instr_bytes(self@, symbols@) is Some {
                lemma_instr_bytes_len(self@, symbols@);
            }
        }
        let mut results: Vec<u8> = Vec::new();
        match &self.opcode {
            Some(t) => match t {
                Token::Op { code } => {
                    results.push(code.code());
                },
                _ => {
                    return None;
                },
            },
            None => {},
        }
        proof {
            assert(results@ =~= opcode_field_bytes(self@.opcode).unwrap());
        }
        if let Some(t) = &self.operand1 {
            if !Self::emit_operand(t, symbols, &mut results) {
                return None;
            }
        }
        proof {
            assert(results@ =~= opcode_field_bytes(self@.opcode).unwrap() + operand_field_bytes(
                self@.operand1,
                symbols@,
            ).unwrap());
        }
        if let Some(t) = &self.operand2 {
            if !Self::emit_operand(t, symbols, &mut results) {
                return None;
            }
        }
        proof {
            assert(results@ =~= opcode_field_bytes(self@.opcode).unwrap() + operand_field_bytes(
                self@.operand1,
                symbols@,
            ).unwrap() + operand_field_bytes(self@.operand2, symbols@).unwrap());
        }
        if let Some(t) = &self.operand3 {
            if !Self::emit_operand(t, symbols, &mut results) {
                return None;
            }
        }
        let ghost joined = opcode_field_bytes(self@.opcode).unwrap() + operand_field_bytes(
            self@.operand1,
            symbols@,
        ).unwrap() + operand_field_bytes(self@.operand2, symbols@).unwrap() + operand_field_bytes(
            self@.operand3,
            symbols@,
        ).unwrap();
        proof {
            assert(results@ =~= joined);
        }
        if results.len() > 4 {
            return None;
        }
        while results.len() < 4
            invariant
                joined.len() <= 4,
                joined.len() <= results@.len() <= 4,
                results@ =~= joined + Seq::<u8>::new(
                    (results@.len() - joined.len()) as nat,
                    |i: int| 0u8,
                ),
            decreases 4 - results@.len(),
        {
            results.push(0);
            proof {
                assert(results@ =~= joined + Seq::<u8>::new(
                    (results@.len() - joined.len()) as nat,
                    |i: int| 0u8,
                ));
            }
        }
        proof {
            assert(results@ =~= joined + Seq::<u8>::new((4 - joined.len()) as nat, |i: int| 0u8));
            assert(results@ =~= instr_bytes(self@, symbols@).unwrap());
        }
        Some(results)
    }

    /// Appends one operand token's bytes, resolving a label usage through
    /// the table; reports false on a token that is illegal in an operand
    /// field, leaving the buffer unchanged.
    fn emit_operand(t: &Token, symbols: &SymbolTable, results: &mut Vec<u8>) -> (r: bool)
        ensures
            match operand_bytes(t@, symbols@) {
                Some(bs) => r && final(results)@ == old(results)@ + bs,
                None => !r && final(results)@ == old(results)@,
            },
    {
        let ghost before = results@;
        match t {
            Token::LabelUsage { name } => {
                match symbols.symbol_value(name.as_str()) {
                    Some(off) => {
                        results.push(((off / 256) % 256) as u8);
                        results.push((off % 256) as u8);
                        proof {
                            assert(results@ =~= before + operand_bytes(t@, symbols@).unwrap());
                        }
                    },
                    None => {
                        proof {
                            assert(results@ =~= before + operand_bytes(t@, symbols@).unwrap());
                        }
                    },
                }
                true
            },
            _ => Self::extract_operand(t, results),
        }
    }
}

/// An ordered sequence of parsed instructions.
#[derive(Debug, PartialEq)]
pub struct Program {
    pub instructions: Vec<AsmInstruction>,
}

impl View for Program {
    type V = Seq<AsmInstructionV>;

    open spec fn view(&self) -> Seq<AsmInstructionV> {
        self.instructions@.map_values(|i: AsmInstruction| i@)
    }
}

impl Program {
    /// Encodes every instruction in source order, four bytes each;
    /// `None` when any instruction refuses to encode.
    pub fn to_bytes(&self, symbols: &SymbolTable) -> (r: Option<Vec<u8>>)
        ensures
            match program_bytes(self@, symbols@) {
                Some(bs) => r is Some && r.unwrap()@ == bs && bs.len() == 4 * self@.len(),
                None => r is None,
            },
    {
        proof {
            if program_bytes(self@, symbols@) is Some {
                lemma_program_bytes_len(self@, symbols@, 0);
            }
        }
        let n = self.instructions.len();
        let mut out: Vec<u8> = Vec::new();
        let mut i: usize = 0;
        proof {
            if program_bytes_from(self@, symbols@, 0) is Some {
                assert(Seq::<u8>::empty() + program_bytes_from(self@, symbols@, 0).unwrap()
                    =~= program_bytes_from(self@, symbols@, 0).unwrap());
            }
        }
        while i < n
            invariant
                n == self.instructions.len(),
                0 <= i <= n,
                match program_bytes_from(self@, symbols@, i as int) {
                    Some(tail) => program_bytes(self@, symbols@) == Some(out@ + tail),
                    None => program_bytes(self@, symbols@) is None,
                },
            decreases n - i,
        {
            let ghost all = self@;
            let ghost prev = out@;
            proof {
                assert(all[i as int] == self.instructions@[i as int]@);
            }
            match self.instructions[i].to_bytes(symbols) {
                Some(mut bytes) => {
                    let ghost b = bytes@;
                    out.append(&mut bytes);
                    proof {
                        match program_bytes_from(all, symbols@, i as int + 1) {
                            Some(tail2) => {
                                assert(program_bytes_from(all, symbols@, i as int) == Some(
                                    b + tail2,
                                ));
                                assert(prev + (b + tail2) =~= (prev + b) + tail2);
                            },
                            None => {
                                assert(program_bytes_from(all, symbols@, i as int) is None);
                            },
                        }
                    }
                },
                None => {
                    proof {
                        assert(program_bytes_from(all, symbols@, i as int) is None);
                    }
                    return None;
                },
            }
            i = i + 1;
        }
        proof {
            assert(program_bytes_from(self@, symbols@, n as int) == Some(Seq::<u8>::empty()));
            assert(out@ + Seq::<u8>::empty() =~= out@);
        }
        Some(out)
    }
}

} // verus!
