//! The virtual machine: 32 signed 32-bit registers, a byte-addressed
//! program image behind a program counter, a growable zero-filled heap, a
//! remainder word latched by division, and an equal flag set by the
//! comparison operations and read by the conditional jump.
//!
//! One step reads the opcode byte at the program counter and then exactly
//! the operand bytes that opcode owns; every defined opcode that leaves
//! the machine running advances the counter by four bytes in all, except
//! a taken jump, which sets it. The machine stops (a step reports it is
//! done) at the end of the program, on a halt, on an illegal opcode, and
//! on any instruction it cannot carry out: operand bytes past the end of
//! the program, a register index outside the file, a division that is
//! impossible, a jump or heap size that does not fit the machine; in all
//! those cases the counter rests just past the opcode byte. Arithmetic
//! wraps as two's complement.

use vstd::prelude::*;

use crate::instruction::{opcode_of_u8, Opcode};

verus! {

/// The mathematical value of the machine's state.
pub struct VmView {
    pub registers: Seq<i32>,
    pub pc: nat,
    pub program: Seq<u8>,
    pub heap: Seq<u8>,
    pub remainder: u32,
    pub equal_flag: bool,
}

impl VmView {
    /// The machine's structural invariant: exactly 32 registers.
    pub open spec fn wf(self) -> bool {
        self.registers.len() == 32
    }
}

/// A 16-bit immediate: high byte first.
pub open spec fn imm16(hi: u8, lo: u8) -> u32 {
    ((hi as int) * 256 + (lo as int)) as u32
}

/// What a comparison opcode writes to the equal flag.
pub open spec fn compare_result(op: Opcode, a: i32, b: i32) -> bool {
    match op {
        Opcode::EQ => a == b,
        Opcode::NEQ => a != b,
        Opcode::GT => a > b,
        Opcode::LT => a < b,
        Opcode::GTE => a >= b,
        Opcode::LTE => a <= b,
        _ => false,
    }
}

/// What a wrapping arithmetic opcode computes.
pub open spec fn arith_result(op: Opcode, a: i32, b: i32) -> i32 {
    match op {
        Opcode::ADD => vstd::wrapping::i32_specs::wrapping_add(a, b),
        Opcode::SUB => vstd::wrapping::i32_specs::wrapping_sub(a, b),
        Opcode::MUL => vstd::wrapping::i32_specs::wrapping_mul(a, b),
        _ => 0,
    }
}

/// A signed word reread as its unsigned two's-complement bits.
pub open spec fn as_u32_bits(v: i32) -> u32 {
    if v >= 0 {
        v as u32
    } else {
        (v + 0x1_0000_0000) as u32
    }
}

/// One three-register wrapping arithmetic step (add, subtract,
/// multiply), the counter `pc1` just past the opcode byte.
pub open spec fn step_arith(v: VmView, pc1: nat, op: Opcode) -> (VmView, bool) {
    let halted = (VmView { pc: pc1, ..v }, false);
    if v.program.len() - pc1 >= 3 {
        let ra = v.program[pc1 as int];
        let rb = v.program[pc1 as int + 1];
        let rd = v.program[pc1 as int + 2];
        if ra < 32 && rb < 32 && rd < 32 {
            let a = v.registers[ra as int];
            let b = v.registers[rb as int];
            (
                VmView {
                    registers: v.registers.update(rd as int, arith_result(op, a, b)),
                    pc: (pc1 + 3) as nat,
                    ..v
                },
                true,
            )
        } else {
            halted
        }
    } else {
        halted
    }
}

/// The division step: quotient to the destination register, the
/// remainder word latched; impossible divisions (by zero, or the one
/// overflowing case) stop the machine.
pub open spec fn step_div(v: VmView, pc1: nat) -> (VmView, bool) {
    let halted = (VmView { pc: pc1, ..v }, false);
    if v.program.len() - pc1 >= 3 {
        let ra = v.program[pc1 as int];
        let rb = v.program[pc1 as int + 1];
        let rd = v.program[pc1 as int + 2];
        if ra < 32 && rb < 32 && rd < 32 {
            let a = v.registers[ra as int];
            let b = v.registers[rb as int];
            match (a.checked_div(b), a.checked_rem(b)) {
                (Some(q), Some(m)) => (
                    VmView {
                        registers: v.registers.update(rd as int, q),
                        remainder: as_u32_bits(m),
                        pc: (pc1 + 3) as nat,
                        ..v
                    },
                    true,
                ),
                _ => halted,
            }
        } else {
            halted
        }
    } else {
        halted
    }
}

/// One comparison step: the equal flag takes the comparison's result and
/// the counter consumes the padding byte.
pub open spec fn step_compare(v: VmView, pc1: nat, op: Opcode) -> (VmView, bool) {
    let halted = (VmView { pc: pc1, ..v }, false);
    if v.program.len() - pc1 >= 2 && pc1 + 3 <= usize::MAX {
        let ra = v.program[pc1 as int];
        let rb = v.program[pc1 as int + 1];
        if ra < 32 && rb < 32 {
            let a = v.registers[ra as int];
            let b = v.registers[rb as int];
            (VmView { equal_flag: compare_result(op, a, b), pc: (pc1 + 3) as nat, ..v }, true)
        } else {
            halted
        }
    } else {
        halted
    }
}

/// One increment or decrement step, wrapping.
pub open spec fn step_incdec(v: VmView, pc1: nat, op: Opcode) -> (VmView, bool) {
    let halted = (VmView { pc: pc1, ..v }, false);
    if v.program.len() - pc1 >= 1 && pc1 + 3 <= usize::MAX {
        let r = v.program[pc1 as int];
        if r < 32 {
            let a = v.registers[r as int];
            let b = if op is INC {
                vstd::wrapping::i32_specs::wrapping_add(a, 1)
            } else {
                vstd::wrapping::i32_specs::wrapping_sub(a, 1)
            };
            (VmView { registers: v.registers.update(r as int, b), pc: (pc1 + 3) as nat, ..v }, true)
        } else {
            halted
        }
    } else {
        halted
    }
}

/// An absolute jump through a register: a negative target stops the
/// machine.
pub open spec fn step_jmp(v: VmView, pc1: nat) -> (VmView, bool) {
    let halted = (VmView { pc: pc1, ..v }, false);
    if v.program.len() - pc1 >= 1 {
        let r = v.program[pc1 as int];
        if r < 32 {
            let t = v.registers[r as int];
            if t >= 0 {
                (VmView { pc: t as nat, ..v }, true)
            } else {
                halted
            }
        } else {
            halted
        }
    } else {
        halted
    }
}

/// A relative jump through a register, forward or backward from the
/// position after the operand byte; a negative distance, or a target
/// outside the machine word or before the start, stops the machine.
pub open spec fn step_jmp_rel(v: VmView, pc1: nat, forward: bool) -> (VmView, bool) {
    let halted = (VmView { pc: pc1, ..v }, false);
    if v.program.len() - pc1 >= 1 {
        let r = v.program[pc1 as int];
        if r < 32 {
            let t = v.registers[r as int];
            let base = pc1 + 1;
            if t >= 0 {
                if forward {
                    if base + t <= usize::MAX {
                        (VmView { pc: (base + t) as nat, ..v }, true)
                    } else {
                        halted
                    }
                } else {
                    if t <= base {
                        (VmView { pc: (base - t) as nat, ..v }, true)
                    } else {
                        halted
                    }
                }
            } else {
                halted
            }
        } else {
            halted
        }
    } else {
        halted
    }
}

/// The conditional jump: with the equal flag set it jumps like an
/// absolute jump; without it the counter consumes the instruction's
/// remaining three bytes.
pub open spec fn step_jeq(v: VmView, pc1: nat) -> (VmView, bool) {
    if v.equal_flag {
        step_jmp(v, pc1)
    } else {
        if pc1 + 3 <= usize::MAX {
            (VmView { pc: (pc1 + 3) as nat, ..v }, true)
        } else {
            (VmView { pc: pc1, ..v }, false)
        }
    }
}

/// The heap step: the heap's length moves by the register's value, new
/// bytes zero, a negative value shrinking it; a length that leaves
/// `[0, usize::MAX]` stops the machine.
pub open spec fn step_aloc(v: VmView, pc1: nat) -> (VmView, bool) {
    let halted = (VmView { pc: pc1, ..v }, false);
    if v.program.len() - pc1 >= 1 && pc1 + 3 <= usize::MAX {
        let r = v.program[pc1 as int];
        if r < 32 {
            let b = v.registers[r as int];
            let target = v.heap.len() + b;
            if 0 <= target <= usize::MAX {
                let heap = if b >= 0 {
                    v.heap + Seq::<u8>::new(b as nat, |i: int| 0u8)
                } else {
                    v.heap.subrange(0, target)
                };
                (VmView { heap, pc: (pc1 + 3) as nat, ..v }, true)
            } else {
                halted
            }
        } else {
            halted
        }
    } else {
        halted
    }
}

/// One fetch-decode-execute step: the machine after it, and whether it is
/// still running. At or past the end of the program nothing happens and
/// the machine reports done.
pub open spec fn step(v: VmView) -> (VmView, bool) {
    if v.pc >= v.program.len() {
        (v, false)
    } else {
        let op = opcode_of_u8(v.program[v.pc as int]);
        let pc1 = (v.pc + 1) as nat;
        let halted = (VmView { pc: pc1, ..v }, false);
        match op {
            Opcode::HLT => halted,
            Opcode::LOAD => {
                if v.program.len() - pc1 >= 3 {
                    let r = v.program[pc1 as int];
                    if r < 32 {
                        let imm = imm16(v.program[pc1 as int + 1], v.program[pc1 as int + 2]);
                        (
                            VmView {
                                registers: v.registers.update(r as int, imm as i32),
                                pc: (pc1 + 3) as nat,
                                ..v
                            },
                            true,
                        )
                    } else {
                        halted
                    }
                } else {
                    halted
                }
            },
            Opcode::ADD => step_arith(v, pc1, op),
            Opcode::SUB => step_arith(v, pc1, op),
            Opcode::MUL => step_arith(v, pc1, op),
            Opcode::DIV => step_div(v, pc1),
            Opcode::JMP => step_jmp(v, pc1),
            Opcode::JMPF => step_jmp_rel(v, pc1, true),
            Opcode::JMPB => step_jmp_rel(v, pc1, false),
            Opcode::EQ => step_compare(v, pc1, op),
            Opcode::NEQ => step_compare(v, pc1, op),
            Opcode::GT => step_compare(v, pc1, op),
            Opcode::LT => step_compare(v, pc1, op),
            Opcode::GTE => step_compare(v, pc1, op),
            Opcode::LTE => step_compare(v, pc1, op),
            Opcode::JEQ => step_jeq(v, pc1),
            Opcode::ALOC => step_aloc(v, pc1),
            Opcode::INC => step_incdec(v, pc1, op),
            Opcode::DEC => step_incdec(v, pc1, op),
            Opcode::IGL => halted,
        }
    }
}

/// Stepping preserves the machine's structural invariant.
pub proof fn lemma_step_wf(v: VmView)
    requires
        v.wf(),
    ensures
        step(v).0.wf(),
{
}

/// The machine after up to `fuel` steps, stopping early where a step
/// reports done.
pub open spec fn run_steps(v: VmView, fuel: nat) -> VmView
    decreases fuel,
{
    if fuel == 0 {
        v
    } else {
        let sr = step(v);
        if !sr.1 {
            sr.0
        } else {
            run_steps(sr.0, (fuel - 1) as nat)
        }
    }
}

/// The four-byte stride: any step that leaves the machine running and is
/// not a taken jump has advanced the program counter by exactly four
/// bytes. (A halt, an illegal opcode and every failure stop the machine,
/// so the step's report covers them.)
pub proof fn lemma_step_stride(v: VmView)
    requires
        v.wf(),
        v.pc < v.program.len(),
        step(v).1,
        ({
            let op = opcode_of_u8(v.program[v.pc as int]);
            &&& !(op is JMP)
            &&& !(op is JMPF)
            &&& !(op is JMPB)
            &&& !(op is JEQ && v.equal_flag)
        }),
    ensures
        step(v).0.pc == v.pc + 4,
{
}

/// The machine.
#[derive(Debug)]
pub struct VM {
    registers: Vec<i32>,
    pc: usize,
    program: Vec<u8>,
    heap: Vec<u8>,
    remainder: u32,
    equal_flag: bool,
}

impl View for VM {
    type V = VmView;

    closed spec fn view(&self) -> VmView {
        VmView {
            registers: self.registers@,
            pc: self.pc as nat,
            program: self.program@,
            heap: self.heap@,
            remainder: self.remainder,
            equal_flag: self.equal_flag,
        }
    }
}

impl VM {
    /// The machine's structural invariant.
    pub open spec fn wf(&self) -> bool {
        self@.wf()
    }

    /// A fresh machine: registers zeroed, nothing loaded.
    pub fn new() -> (r: VM)
        ensures
            r.wf(),
            r@ == (VmView {
                registers: Seq::new(32, |i: int| 0i32),
                pc: 0,
                program: Seq::<u8>::empty(),
                heap: Seq::<u8>::empty(),
                remainder: 0,
                equal_flag: false,
            }),
    {
        let mut registers: Vec<i32> = Vec::new();
        while registers.len() < 32
            invariant
                registers@.len() <= 32,
                forall|k: int| 0 <= k < registers@.len() ==> registers@[k] == 0i32,
            decreases 32 - registers@.len(),
        {
            registers.push(0);
        }
        let r = VM {
            registers,
            pc: 0,
            program: Vec::new(),
            heap: Vec::new(),
            remainder: 0,
            equal_flag: false,
        };
        proof {
            assert(r@.registers =~= Seq::new(32, |i: int| 0i32));
            assert(r@.program =~= Seq::<u8>::empty());
            assert(r@.heap =~= Seq::<u8>::empty());
        }
        r
    }

    /// The program image.
    pub fn get_program(&self) -> (r: &Vec<u8>)
        ensures
            r@ == self@.program,
    {
        &self.program
    }

    /// The register file, read-only.
    pub fn get_registers(&self) -> (r: &[i32])
        ensures
            r@ == self@.registers,
    {
        self.registers.as_slice()
    }

    /// The program counter.
    pub fn get_pc(&self) -> (r: usize)
        ensures
            r as nat == self@.pc,
    {
        self.pc
    }

    /// The equal flag.
    pub fn get_equal_flag(&self) -> (r: bool)
        ensures
            r == self@.equal_flag,
    {
        self.equal_flag
    }

    /// The remainder word latched by the last division.
    pub fn get_remainder(&self) -> (r: u32)
        ensures
            r == self@.remainder,
    {
        self.remainder
    }

    /// The heap.
    pub fn get_heap(&self) -> (r: &Vec<u8>)
        ensures
            r@ == self@.heap,
    {
        &self.heap
    }

    /// Appends one byte to the program image.
    pub fn add_byte(&mut self, byte: u8)
        requires
            old(self).wf(),
        ensures
            final(self).wf(),
            final(self)@ == (VmView { program: old(self)@.program.push(byte), ..old(self)@ }),
    {
        self.program.push(byte);
    }

    /// Replaces the program image and rewinds the counter; registers,
    /// heap, remainder and flag are kept.
    pub fn load_program(&mut self, bytes: Vec<u8>)
        requires
            old(self).wf(),
        ensures
            final(self).wf(),
            final(self)@ == (VmView { program: bytes@, pc: 0, ..old(self)@ }),
    {
        self.program = bytes;
        self.pc = 0;
    }

    /// Writes one register.
    pub fn set_register(&mut self, idx: usize, value: i32)
        requires
            old(self).wf(),
            idx < 32,
        ensures
            final(self).wf(),
            final(self)@ == (VmView {
                registers: old(self)@.registers.update(idx as int, value),
                ..old(self)@
            }),
    {
        self.registers[idx] = value;
    }

    /// Sets the equal flag.
    pub fn set_equal_flag(&mut self, value: bool)
        requires
            old(self).wf(),
        ensures
            final(self).wf(),
            final(self)@ == (VmView { equal_flag: value, ..old(self)@ }),
    {
        self.equal_flag = value;
    }

    /// Empties the program image and rewinds the counter; registers,
    /// heap, remainder and flag are kept.
    pub fn clear(&mut self)
        requires
            old(self).wf(),
        ensures
            final(self).wf(),
            final(self)@ == (VmView { program: Seq::<u8>::empty(), pc: 0, ..old(self)@ }),
    {
        self.program = Vec::new();
        self.pc = 0;
        proof {
            assert(self@.program =~= Seq::<u8>::empty());
        }
    }

    /// Steps until the machine reports done (or a step budget of
    /// `u64::MAX`, unreachable in practice, runs out).
    pub fn run(&mut self)
        requires
            old(self).wf(),
        ensures
            final(self).wf(),
            final(self)@ == run_steps(old(self)@, u64::MAX as nat),
    {
        let mut fuel: u64 = u64::MAX;
        let mut running = true;
        while running && fuel > 0
            invariant
                self.wf(),
                running ==> run_steps(old(self)@, u64::MAX as nat) == run_steps(
                    self@,
                    fuel as nat,
                ),
                !running ==> run_steps(old(self)@, u64::MAX as nat) == self@,
            decreases fuel,
        {
            let ghost prev = self@;
            let ghost f0 = fuel as nat;
            running = self.execute_instruction();
            proof {
                assert(run_steps(prev, f0) == if !step(prev).1 {
                    step(prev).0
                } else {
                    run_steps(step(prev).0, (f0 - 1) as nat)
                });
            }
            fuel = fuel - 1;
        }
    }

    /// Performs exactly one step.
    pub fn run_once(&mut self)
        requires
            old(self).wf(),
        ensures
            final(self).wf(),
            final(self)@ == step(old(self)@).0,
    {
        let _running = self.execute_instruction();
    }

    /// One fetch-decode-execute step; false when the machine is done.
    fn execute_instruction(&mut self) -> (r: bool)
        requires
            old(self).wf(),
        ensures
            final(self).wf(),
            ({
                let sr = step(old(self)@);
                final(self)@ == sr.0 && r == sr.1
            }),
    {
        if self.pc >= self.program.len() {
            return false;
        }
        let pc0 = self.pc;
        let opcode = Opcode::from(self.program[pc0]);
        let pc1 = pc0 + 1;
        self.pc = pc1;
        match opcode {
            Opcode::HLT => false,
            Opcode::IGL => false,
            Opcode::LOAD => {
                if self.program.len() - pc1 >= 3 {
                    let reg = self.program[pc1] as usize;
                    if reg < 32 {
                        let hi = self.program[pc1 + 1] as u32;
                        let lo = self.program[pc1 + 2] as u32;
                        let number = hi * 256 + lo;
                        self.registers[reg] = number as i32;
                        self.pc = pc1 + 3;
                        true
                    } else {
                        false
                    }
                } else {
                    false
                }
            },
            Opcode::ADD | Opcode::SUB | Opcode::MUL => {
                if self.program.len() - pc1 >= 3 {
                    let ra = self.program[pc1] as usize;
                    let rb = self.program[pc1 + 1] as usize;
                    let rd = self.program[pc1 + 2] as usize;
                    if ra < 32 && rb < 32 && rd < 32 {
                        let a = self.registers[ra];
                        let b = self.registers[rb];
                        let c = match opcode {
                            Opcode::ADD => a.wrapping_add(b),
                            Opcode::SUB => a.wrapping_sub(b),
                            _ => a.wrapping_mul(b),
                        };
                        self.registers[rd] = c;
                        self.pc = pc1 + 3;
                        true
                    } else {
                        false
                    }
                } else {
                    false
                }
            },
            Opcode::DIV => {
                if self.program.len() - pc1 >= 3 {
                    let ra = self.program[pc1] as usize;
                    let rb = self.program[pc1 + 1] as usize;
                    let rd = self.program[pc1 + 2] as usize;
                    if ra < 32 && rb < 32 && rd < 32 {
                        let a = self.registers[ra];
                        let b = self.registers[rb];
                        match (a.checked_div(b), a.checked_rem(b)) {
                            (Some(q), Some(m)) => {
                                self.registers[rd] = q;
                                self.remainder = if m >= 0 {
                                    m as u32
                                } else {
                                    ((m as i64) + 0x1_0000_0000i64) as u32
                                };
                                self.pc = pc1 + 3;
                                true
                            },
                            _ => false,
                        }
                    } else {
                        false
                    }
                } else {
                    false
                }
            },
            Opcode::JMP => {
                if self.program.len() - pc1 >= 1 {
                    let reg = self.program[pc1] as usize;
                    if reg < 32 {
                        let t = self.registers[reg];
                        if t >= 0 {
                            self.pc = t as usize;
                            true
                        } else {
                            false
                        }
                    } else {
                        false
                    }
                } else {
                    false
                }
            },
            Opcode::JMPF | Opcode::JMPB => {
                if self.program.len() - pc1 >= 1 {
                    let reg = self.program[pc1] as usize;
                    if reg < 32 {
                        let t = self.registers[reg];
                        let base = pc1 + 1;
                        if t >= 0 {
                            let forward = match opcode {
                                Opcode::JMPF => true,
                                _ => false,
                            };
                            if forward {
                                match base.checked_add(t as usize) {
                                    Some(np) => {
                                        self.pc = np;
                                        true
                                    },
                                    None => false,
                                }
                            } else {
                                if t as usize <= base {
                                    self.pc = base - t as usize;
                                    true
                                } else {
                                    false
                                }
                            }
                        } else {
                            false
                        }
                    } else {
                        false
                    }
                } else {
                    false
                }
            },
            Opcode::EQ | Opcode::NEQ | Opcode::GT | Opcode::LT | Opcode::GTE | Opcode::LTE => {
                if self.program.len() - pc1 >= 2 && pc1 <= usize::MAX - 3 {
                    let ra = self.program[pc1] as usize;
                    let rb = self.program[pc1 + 1] as usize;
                    if ra < 32 && rb < 32 {
                        let a = self.registers[ra];
                        let b = self.registers[rb];
                        self.equal_flag = match opcode {
                            Opcode::EQ => a == b,
                            Opcode::NEQ => a != b,
                            Opcode::GT => a > b,
                            Opcode::LT => a < b,
                            Opcode::GTE => a >= b,
                            _ => a <= b,
                        };
                        self.pc = pc1 + 3;
                        true
                    } else {
                        false
                    }
                } else {
                    false
                }
            },
            Opcode::JEQ => {
                if self.equal_flag {
                    if self.program.len() - pc1 >= 1 {
                        let reg = self.program[pc1] as usize;
                        if reg < 32 {
                            let t = self.registers[reg];
                            if t >= 0 {
                                self.pc = t as usize;
                                true
                            } else {
                                false
                            }
                        } else {
                            false
                        }
                    } else {
                        false
                    }
                } else {
                    if pc1 <= usize::MAX - 3 {
                        self.pc = pc1 + 3;
                        true
                    } else {
                        false
                    }
                }
            },
            Opcode::INC | Opcode::DEC => {
                if self.program.len() - pc1 >= 1 && pc1 <= usize::MAX - 3 {
                    let reg = self.program[pc1] as usize;
                    if reg < 32 {
                        let a = self.registers[reg];
                        let b = match opcode {
                            Opcode::INC => a.wrapping_add(1),
                            _ => a.wrapping_sub(1),
                        };
                        self.registers[reg] = b;
                        self.pc = pc1 + 3;
                        true
                    } else {
                        false
                    }
                } else {
                    false
                }
            },
            Opcode::ALOC => {
                if self.program.len() - pc1 >= 1 && pc1 <= usize::MAX - 3 {
                    let reg = self.program[pc1] as usize;
                    if reg < 32 {
                        let b = self.registers[reg];
                        if b >= 0 {
                            match self.heap.len().checked_add(b as usize) {
                                Some(target) => {
                                    let ghost before = self.heap@;
                                    while self.heap.len() < target
                                        invariant
                                            before.len() <= self.heap@.len() <= target,
                                            before == old(self)@.heap,
                                            target as int == before.len() + (b as int),
                                            self.registers@ == old(self)@.registers,
                                            self.program@ == old(self)@.program,
                                            self.pc == pc1,
                                            self.remainder == old(self)@.remainder,
                                            self.equal_flag == old(self)@.equal_flag,
                                            self.heap@ =~= before + Seq::<u8>::new(
                                                (self.heap@.len() - before.len()) as nat,
                                                |i: int| 0u8,
                                            ),
                                        decreases target - self.heap@.len(),
                                    {
                                        self.heap.push(0);
                                        proof {
                                            assert(self.heap@ =~= before + Seq::<u8>::new(
                                                (self.heap@.len() - before.len()) as nat,
                                                |i: int| 0u8,
                                            ));
                                        }
                                    }
                                    self.pc = pc1 + 3;
                                    true
                                },
                                None => false,
                            }
                        } else {
                            let shrink = (-(b as i64)) as usize;
                            if shrink <= self.heap.len() {
                                let target = self.heap.len() - shrink;
                                self.heap.truncate(target);
                                self.pc = pc1 + 3;
                                true
                            } else {
                                false
                            }
                        }
                    } else {
                        false
                    }
                } else {
                    false
                }
            },
        }
    }
}

} // verus!
