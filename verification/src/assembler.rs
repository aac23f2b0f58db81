//! The two-pass assembler driver.
//!
//! Pass one walks the parsed program with a byte cursor that advances four
//! bytes per instruction, appending a symbol for every label declaration;
//! a `.asciiz` directive with a label and a string operand rewrites that
//! label's offset to the read-only cursor and appends the string's UTF-8
//! bytes and a terminating zero to the read-only buffer. Pass two emits
//! four code bytes per opcode-bearing instruction and reads directives
//! without operands as section headers. The output is a 64-byte header
//! (the magic prefix, then zeros) followed by the code bytes; the
//! read-only buffer stays on the assembler for inspection and is not part
//! of the output.

use vstd::prelude::*;
use vstd::string::StrSliceExecFns;
use vstd::utf8::encode_utf8;

use crate::parser::{parse_program_s, program};
use crate::symbols::{set_first_symbol, Symbol, SymbolTable, SymbolType, SymbolV};
use crate::tokens::{instr_bytes, AsmInstruction, AsmInstructionV, Program, TokenV};

verus! {

/// The header's length in bytes.
pub const PIE_HEADER_LENGTH: usize = 64;

/// The most instructions one assembly accepts: the pass-one byte cursor
/// is a 32-bit word advancing four bytes per instruction.
pub const MAX_INSTRUCTIONS: usize = 0x3fff_ffff;

/// Which pass the assembler is in.
#[derive(Debug, PartialEq, Eq, Structural, Copy, Clone)]
pub enum AssemblerPhase {
    First,
    Second,
}

impl Default for AssemblerPhase {
    /// The assembler starts in the first pass.
    fn default() -> (r: Self)
        ensures
            r == AssemblerPhase::First,
    {
        AssemblerPhase::First
    }
}

/// A section of the program text, named by a header directive.
#[derive(Debug, PartialEq, Clone, Copy)]
pub enum AssemblerSection {
    Data { starting_instruction: Option<u32> },
    Code { starting_instruction: Option<u32> },
    Unknown,
}

impl Default for AssemblerSection {
    /// Before any header is seen, the section is unknown.
    fn default() -> (r: Self)
        ensures
            r == AssemblerSection::Unknown,
    {
        AssemblerSection::Unknown
    }
}

/// The section a header name denotes; every name but `data` and `code`
/// is unknown.
pub open spec fn section_of_name(name: Seq<char>) -> AssemblerSection {
    if name == "data"@ {
        AssemblerSection::Data { starting_instruction: None }
    } else if name == "code"@ {
        AssemblerSection::Code { starting_instruction: None }
    } else {
        AssemblerSection::Unknown
    }
}

impl AssemblerSection {
    /// Reads a section header name.
    pub fn from_name(name: &str) -> (r: AssemblerSection)
        ensures
            r == section_of_name(name@),
    {
        let v: String = name.to_owned();
        if v == "data".to_owned() {
            AssemblerSection::Data { starting_instruction: None }
        } else if v == "code".to_owned() {
            AssemblerSection::Code { starting_instruction: None }
        } else {
            AssemblerSection::Unknown
        }
    }
}

/// The byte at position `i` of the header: the magic prefix, then zeros.
pub open spec fn header_byte(i: int) -> u8 {
    if i == 0 {
        45
    } else if i == 1 {
        50
    } else if i == 2 {
        49
    } else if i == 3 {
        45
    } else {
        0
    }
}

/// The 64-byte header every assembled image starts with.
pub open spec fn header_bytes() -> Seq<u8> {
    Seq::new(64, |i: int| header_byte(i))
}

/// The assembler's pass-one state: the symbol table, the read-only
/// buffer and its cursor, and whether the pass is still viable (it fails
/// only when the read-only section would outgrow its 32-bit offsets).
pub struct Pass1State {
    pub symbols: Seq<SymbolV>,
    pub ro: Seq<u8>,
    pub ro_offset: u32,
    pub ok: bool,
}

/// Pass one's label handling for one instruction: a label declaration
/// becomes a symbol at the current code cursor.
pub open spec fn label_step(st: Pass1State, iv: AsmInstructionV, cursor: u32) -> Pass1State {
    match iv.label {
        Some(TokenV::LabelDeclaration { name }) => Pass1State {
            symbols: st.symbols.push(
                SymbolV { name, offset: cursor, symbol_type: SymbolType::Label },
            ),
            ..st
        },
        _ => st,
    }
}

/// Pass one's directive handling for one instruction: a `.asciiz` with a
/// string operand and a label rewrites the label's offset to the
/// read-only cursor and appends the string's UTF-8 bytes and a zero; a
/// string without a label is discarded; anything else has no effect.
pub open spec fn asciiz_step(st: Pass1State, iv: AsmInstructionV) -> Pass1State {
    match iv.directive {
        Some(TokenV::Directive { name }) => if (iv.operand1 is Some || iv.operand2 is Some
            || iv.operand3 is Some) && name == "asciiz"@ {
            match iv.operand1 {
                Some(TokenV::IrString { name: content }) => match iv.label {
                    Some(TokenV::LabelDeclaration { name: lname }) => {
                        let bytes = encode_utf8(content);
                        if st.ro_offset + bytes.len() + 1 <= u32::MAX {
                            Pass1State {
                                symbols: set_first_symbol(st.symbols, lname, st.ro_offset),
                                ro: st.ro + bytes + seq![0u8],
                                ro_offset: (st.ro_offset + bytes.len() + 1) as u32,
                                ok: st.ok,
                            }
                        } else {
                            Pass1State { ok: false, ..st }
                        }
                    },
                    _ => st,
                },
                _ => st,
            }
        } else {
            st
        },
        _ => st,
    }
}

/// Pass one's whole effect for one instruction.
pub open spec fn pass1_step(st: Pass1State, iv: AsmInstructionV, cursor: u32) -> Pass1State {
    asciiz_step(label_step(st, iv, cursor), iv)
}

/// Pass one over the instructions from position `i`, the byte cursor at
/// `cursor`; stops where the pass fails.
pub open spec fn pass1_from(
    st: Pass1State,
    instrs: Seq<AsmInstructionV>,
    i: int,
    cursor: u32,
) -> Pass1State
    decreases instrs.len() - i,
{
    if !st.ok || i < 0 || i >= instrs.len() {
        st
    } else {
        pass1_from(
            pass1_step(st, instrs[i], cursor),
            instrs,
            i + 1,
            vstd::wrapping::u32_specs::wrapping_add(cursor, 4),
        )
    }
}

/// The assembler's pass-two state: the sections seen, the current one,
/// the instruction counter, the code bytes emitted so far, and whether
/// the pass is still viable (it fails on an instruction that refuses to
/// encode).
pub struct Pass2State {
    pub sections: Seq<AssemblerSection>,
    pub current_section: Option<AssemblerSection>,
    pub current_instruction: u32,
    pub code: Seq<u8>,
    pub ok: bool,
}

/// Pass two's whole effect for one instruction: an opcode-bearing
/// instruction emits its four bytes; a directive without operands names a
/// section (an unknown name has no effect); a directive with operands has
/// already taken effect in pass one. The instruction counter advances
/// except where encoding fails.
pub open spec fn pass2_step(st: Pass2State, iv: AsmInstructionV, syms: Seq<SymbolV>) -> Pass2State {
    let st1 = if iv.opcode is Some {
        match instr_bytes(iv, syms) {
            Some(b) => Pass2State { code: st.code + b, ..st },
            None => Pass2State { ok: false, ..st },
        }
    } else {
        st
    };
    if !st1.ok {
        st1
    } else {
        let st2 = match iv.directive {
            Some(TokenV::Directive { name }) => if iv.operand1 is Some || iv.operand2 is Some
                || iv.operand3 is Some {
                st1
            } else {
                match section_of_name(name) {
                    AssemblerSection::Unknown => st1,
                    sec => Pass2State {
                        sections: st1.sections.push(sec),
                        current_section: Some(sec),
                        ..st1
                    },
                }
            },
            _ => st1,
        };
        Pass2State {
            current_instruction: vstd::wrapping::u32_specs::wrapping_add(
                st2.current_instruction,
                1,
            ),
            ..st2
        }
    }
}

/// Pass two over the instructions from position `i`; stops where the
/// pass fails.
pub open spec fn pass2_from(
    st: Pass2State,
    instrs: Seq<AsmInstructionV>,
    i: int,
    syms: Seq<SymbolV>,
) -> Pass2State
    decreases instrs.len() - i,
{
    if !st.ok || i < 0 || i >= instrs.len() {
        st
    } else {
        pass2_from(pass2_step(st, instrs[i], syms), instrs, i + 1, syms)
    }
}

/// How many instructions from position `i` on carry an opcode.
pub open spec fn opcode_count_from(instrs: Seq<AsmInstructionV>, i: int) -> int
    decreases instrs.len() - i,
{
    if i < 0 || i >= instrs.len() {
        0
    } else {
        (if instrs[i].opcode is Some {
            1int
        } else {
            0int
        }) + opcode_count_from(instrs, i + 1)
    }
}

/// Pass two emits exactly four bytes per opcode-bearing instruction:
/// where the pass succeeds, the code grew by four bytes for each such
/// instruction it walked.
pub proof fn lemma_pass2_code_len(
    st: Pass2State,
    instrs: Seq<AsmInstructionV>,
    i: int,
    syms: Seq<SymbolV>,
)
    requires
        0 <= i <= instrs.len(),
        pass2_from(st, instrs, i, syms).ok,
    ensures
        pass2_from(st, instrs, i, syms).code.len() == st.code.len() + 4 * opcode_count_from(
            instrs,
            i,
        ),
    decreases instrs.len() - i,
{
    if i < instrs.len() && st.ok {
        let st1 = pass2_step(st, instrs[i], syms);
        if instrs[i].opcode is Some && instr_bytes(instrs[i], syms) is Some {
            crate::tokens::lemma_instr_bytes_len(instrs[i], syms);
        }
        lemma_pass2_code_len(st1, instrs, i + 1, syms);
    }
}

/// The mathematical value of the assembler's state.
pub struct AssemblerV {
    pub phase: AssemblerPhase,
    pub symbols: Seq<SymbolV>,
    pub ro: Seq<u8>,
    pub ro_offset: u32,
    pub sections: Seq<AssemblerSection>,
    pub current_section: Option<AssemblerSection>,
    pub current_instruction: u32,
}

/// The two-pass assembler. The symbol table, the read-only buffer and the
/// section list stay on the assembler after a call for inspection.
#[derive(Debug)]
pub struct Assembler {
    pub phase: AssemblerPhase,
    pub symbols: SymbolTable,
    pub ro: Vec<u8>,
    pub ro_offset: u32,
    pub sections: Vec<AssemblerSection>,
    pub current_section: Option<AssemblerSection>,
    pub current_instruction: u32,
}

impl View for Assembler {
    type V = AssemblerV;

    open spec fn view(&self) -> AssemblerV {
        AssemblerV {
            phase: self.phase,
            symbols: self.symbols@,
            ro: self.ro@,
            ro_offset: self.ro_offset,
            sections: self.sections@,
            current_section: self.current_section,
            current_instruction: self.current_instruction,
        }
    }
}

/// What one whole assemble call does to the assembler's state and what it
/// returns: a parse failure returns nothing and leaves the state alone;
/// otherwise pass one and pass two run in order, and on success the
/// output is the header followed by the code bytes.
pub open spec fn assemble_spec(a0: AssemblerV, s: Seq<char>) -> (AssemblerV, Option<Seq<u8>>) {
    match parse_program_s(s) {
        None => (a0, None),
        Some(instrs) => if instrs.len() > MAX_INSTRUCTIONS {
            (a0, None)
        } else {
            let st1 = pass1_from(
                Pass1State { symbols: a0.symbols, ro: a0.ro, ro_offset: a0.ro_offset, ok: true },
                instrs,
                0,
                0,
            );
            let a1 = AssemblerV {
                phase: AssemblerPhase::Second,
                symbols: st1.symbols,
                ro: st1.ro,
                ro_offset: st1.ro_offset,
                ..a0
            };
            if !st1.ok {
                (a1, None)
            } else {
                let st2 = pass2_from(
                    Pass2State {
                        sections: a0.sections,
                        current_section: a0.current_section,
                        current_instruction: a0.current_instruction,
                        code: Seq::<u8>::empty(),
                        ok: true,
                    },
                    instrs,
                    0,
                    st1.symbols,
                );
                let a2 = AssemblerV {
                    sections: st2.sections,
                    current_section: st2.current_section,
                    current_instruction: st2.current_instruction,
                    ..a1
                };
                if !st2.ok {
                    (a2, None)
                } else {
                    (a2, Some(header_bytes() + st2.code))
                }
            }
        },
    }
}

impl Assembler {
    /// A fresh assembler: first pass, nothing collected.
    pub fn new() -> (r: Assembler)
        ensures
            r@ == (AssemblerV {
                phase: AssemblerPhase::First,
                symbols: Seq::<SymbolV>::empty(),
                ro: Seq::<u8>::empty(),
                ro_offset: 0,
                sections: Seq::<AssemblerSection>::empty(),
                current_section: None,
                current_instruction: 0,
            }),
    {
        let r = Assembler {
            phase: AssemblerPhase::First,
            symbols: SymbolTable::new(),
            ro: Vec::new(),
            ro_offset: 0,
            sections: Vec::new(),
            current_section: None,
            current_instruction: 0,
        };
        proof {
            assert(r.ro@ =~= Seq::<u8>::empty());
            assert(r.sections@ =~= Seq::<AssemblerSection>::empty());
        }
        r
    }

    /// The 64-byte header: the magic prefix, zero-filled to length.
    pub fn write_pie_header(&self) -> (r: Vec<u8>)
        ensures
            r@ == header_bytes(),
    {
        let mut header: Vec<u8> = Vec::new();
        header.push(45);
        header.push(50);
        header.push(49);
        header.push(45);
        while header.len() < PIE_HEADER_LENGTH
            invariant
                4 <= header@.len() <= 64,
                forall|k: int| 0 <= k < header@.len() ==> header@[k] == header_byte(k),
            decreases 64 - header@.len(),
        {
            header.push(0);
        }
        proof {
            assert(header@ =~= header_bytes());
        }
        header
    }

    /// Pass one: walks the program with a four-byte cursor, collecting
    /// label symbols and applying `.asciiz` directives to the read-only
    /// buffer. False when the read-only section outgrows its offsets; the
    /// walk stops there.
    fn extract_labels(&mut self, p: &Program) -> (ok: bool)
        requires
            p.instructions@.len() <= MAX_INSTRUCTIONS,
        ensures
            ({
                let st0 = Pass1State {
                    symbols: old(self)@.symbols,
                    ro: old(self)@.ro,
                    ro_offset: old(self)@.ro_offset,
                    ok: true,
                };
                let stf = pass1_from(st0, p@, 0, 0);
                &&& final(self)@ == (AssemblerV {
                    symbols: stf.symbols,
                    ro: stf.ro,
                    ro_offset: stf.ro_offset,
                    ..old(self)@
                })
                &&& ok == stf.ok
            }),
    {
        let ghost st0 = Pass1State {
            symbols: self@.symbols,
            ro: self@.ro,
            ro_offset: self@.ro_offset,
            ok: true,
        };
        let n = p.instructions.len();
        let mut idx: usize = 0;
        let mut c: u32 = 0;
        while idx < n
            invariant
                n == p.instructions@.len() <= MAX_INSTRUCTIONS,
                0 <= idx <= n,
                c == 4 * idx,
                self.phase == old(self).phase,
                self.sections@ == old(self).sections@,
                self.current_section == old(self).current_section,
                self.current_instruction == old(self).current_instruction,
                st0 == (Pass1State {
                    symbols: old(self)@.symbols,
                    ro: old(self)@.ro,
                    ro_offset: old(self)@.ro_offset,
                    ok: true,
                }),
                pass1_from(st0, p@, 0, 0) == pass1_from(
                    Pass1State {
                        symbols: self@.symbols,
                        ro: self@.ro,
                        ro_offset: self@.ro_offset,
                        ok: true,
                    },
                    p@,
                    idx as int,
                    c,
                ),
            decreases n - idx,
        {
            let ghost cur = Pass1State {
                symbols: self@.symbols,
                ro: self@.ro,
                ro_offset: self@.ro_offset,
                ok: true,
            };
            let ghost iv = p@[idx as int];
            proof {
                assert(iv == p.instructions@[idx as int]@);
            }
            let instr = &p.instructions[idx];
            if instr.is_label() {
                match instr.label_name() {
                    Some(name) => {
                        let symbol = Symbol::new(name, c, SymbolType::Label);
                        self.symbols.add_symbol(symbol);
                    },
                    None => {},
                }
            }
            let ghost lab = label_step(cur, iv, c);
            proof {
                assert(lab == (Pass1State {
                    symbols: self@.symbols,
                    ro: self@.ro,
                    ro_offset: self@.ro_offset,
                    ok: true,
                }));
            }
            if instr.is_directive() && instr.has_operands() {
                match instr.directive_name() {
                    Some(dname) => {
                        if dname == "asciiz".to_owned() {
                            if !self.handle_asciiz(instr) {
                                proof {
                                    let stf = pass1_step(cur, iv, c);
                                    assert(!stf.ok);
                                    assert(stf == (Pass1State {
                                        symbols: self@.symbols,
                                        ro: self@.ro,
                                        ro_offset: self@.ro_offset,
                                        ok: false,
                                    }));
                                    assert(pass1_from(st0, p@, 0, 0) == pass1_from(
                                        stf,
                                        p@,
                                        idx as int + 1,
                                        vstd::wrapping::u32_specs::wrapping_add(c, 4),
                                    ));
                                    assert(pass1_from(st0, p@, 0, 0) == stf);
                                }
                                return false;
                            }
                        }
                    },
                    None => {},
                }
            }
            proof {
                assert(pass1_step(cur, iv, c) == (Pass1State {
                    symbols: self@.symbols,
                    ro: self@.ro,
                    ro_offset: self@.ro_offset,
                    ok: true,
                }));
                assert(vstd::wrapping::u32_specs::wrapping_add(c, 4) == c + 4);
            }
            c = c + 4;
            idx = idx + 1;
        }
        true
    }

    /// Pass one's `.asciiz` handling: a string constant with a label
    /// rewrites that label's offset to the read-only cursor and appends
    /// the string's UTF-8 bytes and a terminating zero to the read-only
    /// buffer; a string without a label is discarded, as is a directive
    /// without a string constant. False when the read-only section would
    /// outgrow its 32-bit offsets.
    fn handle_asciiz(&mut self, i: &AsmInstruction) -> (ok: bool)
        requires
            match i@.directive {
                Some(TokenV::Directive { name }) => name == "asciiz"@,
                _ => false,
            },
            i@.operand1 is Some || i@.operand2 is Some || i@.operand3 is Some,
        ensures
            ({
                let st0 = Pass1State {
                    symbols: old(self)@.symbols,
                    ro: old(self)@.ro,
                    ro_offset: old(self)@.ro_offset,
                    ok: true,
                };
                let stf = asciiz_step(st0, i@);
                &&& final(self)@ == (AssemblerV {
                    symbols: stf.symbols,
                    ro: stf.ro,
                    ro_offset: stf.ro_offset,
                    ..old(self)@
                })
                &&& ok == stf.ok
            }),
    {
        let content = match i.get_string_constant() {
            Some(s) => s,
            None => {
                return true;
            },
        };
        let lname = match i.label_name() {
            Some(name) => name,
            None => {
                return true;
            },
        };
        let mut bytes = content.as_str().as_bytes_vec();
        let cap: u64 = 0xffff_ffffu64 - (self.ro_offset as u64);
        if bytes.len() as u64 >= cap {
            return false;
        }
        let needed: u64 = self.ro_offset as u64 + bytes.len() as u64 + 1;
        self.symbols.set_symbol_offset(lname.as_str(), self.ro_offset);
        self.ro.append(&mut bytes);
        self.ro.push(0);
        self.ro_offset = needed as u32;
        proof {
            assert(self.ro@ =~= old(self)@.ro + encode_utf8(content@) + seq![0u8]);
        }
        true
    }

    /// Pass one, then the phase advances to the second.
    fn process_first_phase(&mut self, p: &Program) -> (ok: bool)
        requires
            p.instructions@.len() <= MAX_INSTRUCTIONS,
        ensures
            ({
                let st0 = Pass1State {
                    symbols: old(self)@.symbols,
                    ro: old(self)@.ro,
                    ro_offset: old(self)@.ro_offset,
                    ok: true,
                };
                let stf = pass1_from(st0, p@, 0, 0);
                &&& final(self)@ == (AssemblerV {
                    phase: AssemblerPhase::Second,
                    symbols: stf.symbols,
                    ro: stf.ro,
                    ro_offset: stf.ro_offset,
                    ..old(self)@
                })
                &&& ok == stf.ok
            }),
    {
        let ok = self.extract_labels(p);
        self.phase = AssemblerPhase::Second;
        ok
    }

    /// Reads a section header: a known name is recorded and becomes the
    /// current section; an unknown one has no effect.
    fn process_section_header(&mut self, header_name: &str)
        ensures
            final(self)@ == (match section_of_name(header_name@) {
                AssemblerSection::Unknown => old(self)@,
                sec => AssemblerV {
                    sections: old(self)@.sections.push(sec),
                    current_section: Some(sec),
                    ..old(self)@
                },
            }),
    {
        let new_section = AssemblerSection::from_name(header_name);
        match new_section {
            AssemblerSection::Unknown => {
                return ;
            },
            _ => {},
        }
        self.sections.push(new_section);
        self.current_section = Some(new_section);
    }

    /// Pass two's handling of one directive-bearing instruction: with
    /// operands it has no further effect (a `.asciiz` took effect in pass
    /// one); without operands it names a section.
    fn process_directive(&mut self, i: &AsmInstruction)
        ensures
            final(self)@ == (match i@.directive {
                Some(TokenV::Directive { name }) => if i@.operand1 is Some || i@.operand2 is Some
                    || i@.operand3 is Some {
                    old(self)@
                } else {
                    match section_of_name(name) {
                        AssemblerSection::Unknown => old(self)@,
                        sec => AssemblerV {
                            sections: old(self)@.sections.push(sec),
                            current_section: Some(sec),
                            ..old(self)@
                        },
                    }
                },
                _ => old(self)@,
            }),
    {
        let directive_name = match i.directive_name() {
            Some(d) => d,
            None => {
                return ;
            },
        };
        if i.has_operands() {
            // a directive with operands already took effect in pass one
        } else {
            self.process_section_header(directive_name.as_str());
        }
    }

    /// Pass two: emits four bytes per opcode-bearing instruction and
    /// reads section headers; `None` when an instruction refuses to
    /// encode, and the walk stops there.
    fn process_second_phase(&mut self, p: &Program) -> (r: Option<Vec<u8>>)
        ensures
            ({
                let st0 = Pass2State {
                    sections: old(self)@.sections,
                    current_section: old(self)@.current_section,
                    current_instruction: old(self)@.current_instruction,
                    code: Seq::<u8>::empty(),
                    ok: true,
                };
                let stf = pass2_from(st0, p@, 0, old(self)@.symbols);
                &&& final(self)@ == (AssemblerV {
                    sections: stf.sections,
                    current_section: stf.current_section,
                    current_instruction: stf.current_instruction,
                    ..old(self)@
                })
                &&& match r {
                    Some(v) => stf.ok && v@ == stf.code,
                    None => !stf.ok,
                }
            }),
    {
        let ghost syms = self@.symbols;
        let ghost st0 = Pass2State {
            sections: self@.sections,
            current_section: self@.current_section,
            current_instruction: self@.current_instruction,
            code: Seq::<u8>::empty(),
            ok: true,
        };
        let n = p.instructions.len();
        let mut body: Vec<u8> = Vec::new();
        let mut idx: usize = 0;
        while idx < n
            invariant
                n == p.instructions@.len(),
                0 <= idx <= n,
                self.phase == old(self).phase,
                self.symbols@ == old(self)@.symbols,
                self.ro@ == old(self)@.ro,
                self.ro_offset == old(self).ro_offset,
                syms == old(self)@.symbols,
                st0 == (Pass2State {
                    sections: old(self)@.sections,
                    current_section: old(self)@.current_section,
                    current_instruction: old(self)@.current_instruction,
                    code: Seq::<u8>::empty(),
                    ok: true,
                }),
                pass2_from(st0, p@, 0, syms) == pass2_from(
                    Pass2State {
                        sections: self@.sections,
                        current_section: self@.current_section,
                        current_instruction: self@.current_instruction,
                        code: body@,
                        ok: true,
                    },
                    p@,
                    idx as int,
                    syms,
                ),
            decreases n - idx,
        {
            let ghost cur = Pass2State {
                sections: self@.sections,
                current_section: self@.current_section,
                current_instruction: self@.current_instruction,
                code: body@,
                ok: true,
            };
            let ghost iv = p@[idx as int];
            proof {
                assert(iv == p.instructions@[idx as int]@);
            }
            let instr = &p.instructions[idx];
            if instr.is_opcode() {
                match instr.to_bytes(&self.symbols) {
                    Some(mut bytes) => {
                        body.append(&mut bytes);
                    },
                    None => {
                        proof {
                            let stf = pass2_step(cur, iv, syms);
                            assert(!stf.ok);
                            assert(stf == (Pass2State { ok: false, ..cur }));
                            assert(pass2_from(cur, p@, idx as int, syms) == pass2_from(
                                stf,
                                p@,
                                idx as int + 1,
                                syms,
                            ));
                            assert(pass2_from(stf, p@, idx as int + 1, syms) == stf);
                        }
                        return None;
                    },
                }
            }
            let ghost st1 = if iv.opcode is Some {
                Pass2State { code: cur.code + instr_bytes(iv, syms).unwrap(), ..cur }
            } else {
                cur
            };
            proof {
                assert(st1 == (Pass2State {
                    sections: self@.sections,
                    current_section: self@.current_section,
                    current_instruction: self@.current_instruction,
                    code: body@,
                    ok: true,
                }));
            }
            if instr.is_directive() {
                self.process_directive(instr);
            }
            self.current_instruction = self.current_instruction.wrapping_add(1);
            proof {
                assert(pass2_step(cur, iv, syms) == (Pass2State {
                    sections: self@.sections,
                    current_section: self@.current_section,
                    current_instruction: self@.current_instruction,
                    code: body@,
                    ok: true,
                }));
            }
            idx = idx + 1;
        }
        Some(body)
    }

    /// Assembles a source text: parse, pass one, pass two. On success the
    /// result is the 64-byte header followed by the code bytes, four per
    /// opcode-bearing instruction, so its length is at least 64 and the
    /// rest is a multiple of four. `None` on a parse failure, on a
    /// program too large for the 32-bit cursors, on an illegal operand
    /// token, and on operands that overrun the four-byte format.
    pub fn assemble(&mut self, raw: &str) -> (r: Option<Vec<u8>>)
        ensures
            ({
                let (af, out) = assemble_spec(old(self)@, raw@);
                &&& final(self)@ == af
                &&& match (r, out) {
                    (Some(v), Some(o)) => v@ == o,
                    (None, None) => true,
                    _ => false,
                }
            }),
            r is Some ==> r.unwrap()@.len() >= 64 && (r.unwrap()@.len() - 64) % 4 == 0,
            r is Some ==> parse_program_s(raw@) is Some && r.unwrap()@.len() == 64
                + 4 * opcode_count_from(parse_program_s(raw@).unwrap(), 0),
            r is Some ==> r.unwrap()@.subrange(0, 64) == header_bytes(),
    {
        match program(raw) {
            None => None,
            Some(p) => {
                if p.instructions.len() > MAX_INSTRUCTIONS {
                    return None;
                }
                let mut assembled_program = self.write_pie_header();
                let ok1 = self.process_first_phase(&p);
                if !ok1 {
                    return None;
                }
                match self.process_second_phase(&p) {
                    None => None,
                    Some(mut body) => {
                        let ghost instrs = p@;
                        let ghost syms = self@.symbols;
                        let ghost st0 = Pass2State {
                            sections: old(self)@.sections,
                            current_section: old(self)@.current_section,
                            current_instruction: old(self)@.current_instruction,
                            code: Seq::<u8>::empty(),
                            ok: true,
                        };
                        proof {
                            lemma_pass2_code_len(st0, instrs, 0, syms);
                            lemma_opcode_count_nonneg(instrs, 0);
                            vstd::arithmetic::div_mod::lemma_mod_multiples_vanish(
                                opcode_count_from(instrs, 0),
                                0,
                                4,
                            );
                        }
                        assembled_program.append(&mut body);
                        proof {
                            assert(assembled_program@.subrange(0, 64) =~= header_bytes());
                        }
                        Some(assembled_program)
                    },
                }
            },
        }
    }
}

/// No instruction counts negatively: the opcode count is nonnegative.
pub proof fn lemma_opcode_count_nonneg(instrs: Seq<AsmInstructionV>, i: int)
    ensures
        opcode_count_from(instrs, i) >= 0,
    decreases instrs.len() - i,
{
    if 0 <= i < instrs.len() {
        lemma_opcode_count_nonneg(instrs, i + 1);
    }
}

} // verus!
