use iridium::instruction::Opcode;
use iridium::parser::program;
use iridium::symbols::{Symbol, SymbolTable, SymbolType};
use iridium::tokens::{AsmInstruction, Token};

#[test]
fn test_extract_register_operand() {
    let tok = Token::Register { reg_num: 5 };
    let mut v: Vec<u8> = vec![];
    let ok = AsmInstruction::extract_operand(&tok, &mut v);
    assert!(ok);
    assert_eq!(v.len(), 1);
    assert_eq!(v[0], 5);
}

#[test]
fn test_extract_integer_operand() {
    let tok = Token::IntegerOperand { value: 255 };
    let mut v: Vec<u8> = vec![];
    let ok = AsmInstruction::extract_operand(&tok, &mut v);
    assert!(ok);
    assert_eq!(v.len(), 2);
    assert_eq!(v[0], 0);
    assert_eq!(v[1], 255);
}

#[test]
fn test_extract_operand_rejects_string() {
    let tok = Token::IrString { name: "hello".to_string() };
    let mut v: Vec<u8> = vec![];
    let ok = AsmInstruction::extract_operand(&tok, &mut v);
    assert!(!ok);
    assert_eq!(v.len(), 0);
}

#[test]
fn test_extract_negative_integer_low_sixteen_bits() {
    let tok = Token::IntegerOperand { value: -1 };
    let mut v: Vec<u8> = vec![];
    let ok = AsmInstruction::extract_operand(&tok, &mut v);
    assert!(ok);
    assert_eq!(v, vec![255, 255]);
}

#[test]
fn test_halt_function_single_opcode_byte() {
    let inst = AsmInstruction {
        opcode: Some(Token::Op { code: Opcode::HLT }),
        operand1: None,
        operand2: None,
        operand3: None,
        label: None,
        directive: None,
    };

    let res = inst.to_bytes(&SymbolTable::new()).unwrap();
    assert_eq!(res.len(), 4);
    assert_eq!(res[0], 0);
}

#[test]
fn test_load_with_operands() {
    let inst = AsmInstruction {
        opcode: Some(Token::Op { code: Opcode::LOAD }),
        operand1: Some(Token::Register { reg_num: 0 }),
        operand2: Some(Token::IntegerOperand { value: 50 }),
        operand3: None,
        label: None,
        directive: None,
    };
    let res = inst.to_bytes(&SymbolTable::new()).unwrap();
    assert_eq!(res.len(), 4);
    assert_eq!(res, vec![1, 0, 0, 50]);
}

#[test]
fn test_add_with_all_registers() {
    let inst = AsmInstruction {
        opcode: Some(Token::Op { code: Opcode::ADD }),
        operand1: Some(Token::Register { reg_num: 0 }),
        operand2: Some(Token::Register { reg_num: 1 }),
        operand3: Some(Token::Register { reg_num: 2 }),
        label: None,
        directive: None,
    };
    let res = inst.to_bytes(&SymbolTable::new()).unwrap();
    assert_eq!(res.len(), 4);
    assert_eq!(res, vec![2, 0, 1, 2]);
}

#[test]
fn test_logical_operation_with_two_registers() {
    let inst = AsmInstruction {
        opcode: Some(Token::Op { code: Opcode::EQ }),
        operand1: Some(Token::Register { reg_num: 0 }),
        operand2: Some(Token::Register { reg_num: 1 }),
        operand3: None,
        label: None,
        directive: None,
    };
    let res = inst.to_bytes(&SymbolTable::new()).unwrap();
    assert_eq!(res.len(), 4);
    assert_eq!(res, vec![9, 0, 1, 0]);
}

#[test]
fn test_mem_operation_with_one_register() {
    let inst = AsmInstruction {
        opcode: Some(Token::Op { code: Opcode::ALOC }),
        operand1: Some(Token::Register { reg_num: 0 }),
        operand2: None,
        operand3: None,
        label: None,
        directive: None,
    };
    let res = inst.to_bytes(&SymbolTable::new()).unwrap();
    assert_eq!(res.len(), 4);
    assert_eq!(res, vec![16, 0, 0, 0]);
}

#[test]
fn test_program_to_bytes() {
    let result = program("ld $1 #100");
    assert!(result.is_some());
    let prg = result.unwrap();
    let symbols = SymbolTable::new();
    let bytes = prg.to_bytes(&symbols).unwrap();
    assert_eq!(bytes.len(), 4);
    assert_eq!(bytes, vec![1, 1, 0, 100]);
}

#[test]
fn test_program_with_logical_op_to_bytes() {
    let result = program("eq $0 $1");
    assert!(result.is_some());
    let prg = result.unwrap();
    let symbols = SymbolTable::new();
    let bytes = prg.to_bytes(&symbols).unwrap();
    assert_eq!(bytes.len(), 4);
    assert_eq!(bytes, vec![9, 0, 1, 0]);
}

#[test]
fn test_label_usage_resolves_through_table() {
    let prg = program("jmp @test").unwrap();
    let mut symbols = SymbolTable::new();
    symbols.add_symbol(Symbol::new("test".to_string(), 12, SymbolType::Label));
    let bytes = prg.to_bytes(&symbols).unwrap();
    assert_eq!(bytes, vec![6, 0, 12, 0]);
}

#[test]
fn test_unresolved_label_emits_padding_only() {
    let prg = program("jmp @missing").unwrap();
    let symbols = SymbolTable::new();
    let bytes = prg.to_bytes(&symbols).unwrap();
    assert_eq!(bytes, vec![6, 0, 0, 0]);
}

#[test]
fn test_string_operand_is_fatal_for_encoding() {
    let prg = program("hello: .asciiz 'x'").unwrap();
    let symbols = SymbolTable::new();
    assert!(prg.to_bytes(&symbols).is_none());
}

#[test]
fn test_oversized_operand_list_is_fatal() {
    let prg = program("ld $0 #1 #2").unwrap();
    let symbols = SymbolTable::new();
    assert!(prg.to_bytes(&symbols).is_none());
}
