use iridium::instruction::Opcode;
use iridium::parser::{
    directive, instruction, integer_operand, irstring, label_declaration, label_usage, opcode,
    program, register,
};
use iridium::tokens::{AsmInstruction, Token};

#[test]
fn test_opcode_parse_load() {
    let result = opcode("ld");
    assert_eq!(result.is_some(), true);
    let (token, rest) = result.unwrap();
    assert_eq!(token, Token::Op { code: Opcode::LOAD });
    assert_eq!(rest, "ld".len());
}

#[test]
fn test_opcode_parse_halt() {
    let result = opcode("hlt");
    assert!(result.is_some());
    let (token, rest) = result.unwrap();
    assert_eq!(token, Token::Op { code: Opcode::HLT });
    assert_eq!(rest, "hlt".len());
}

#[test]
fn test_unknown_mnemonic_is_illegal_not_failure() {
    let result = opcode("widget");
    assert!(result.is_some());
    let (token, _) = result.unwrap();
    assert_eq!(token, Token::Op { code: Opcode::IGL });
}

#[test]
fn test_registers_parsing() {
    let result = register("$0");
    assert_eq!(result.is_some(), true);
    let result = register("0");
    assert_eq!(result.is_some(), false);
    let result = register("$a");
    assert_eq!(result.is_some(), false);
}

#[test]
fn test_register_out_of_byte_range() {
    assert!(register("$255").is_some());
    assert!(register("$256").is_none());
}

#[test]
fn test_parse_integer_operand() {
    let result = integer_operand("#10");
    assert!(result.is_some());
    let (value, rest) = result.unwrap();
    assert_eq!(rest, "#10".len());
    assert_eq!(value, Token::IntegerOperand { value: 10 });
}

#[test]
fn test_parse_invalid_integer_operands() {
    let result = integer_operand("10");
    assert!(!result.is_some());

    let result = integer_operand("#a");
    assert!(!result.is_some());
}

#[test]
fn test_integer_operand_too_large() {
    assert!(integer_operand("#2147483647").is_some());
    assert!(integer_operand("#2147483648").is_none());
}

#[test]
fn test_parse_string_operand() {
    let result = irstring("'This is a test'");
    assert!(result.is_some());
    let (res_string, _) = result.unwrap();
    assert_eq!(
        res_string,
        Token::IrString { name: "This is a test".to_string() }
    );
}

#[test]
fn test_unterminated_string_operand() {
    assert!(irstring("'no closing quote").is_none());
}

#[test]
fn test_label_declaration() {
    let result = label_declaration("test:");
    assert!(result.is_some());
    let (label, _) = result.unwrap();
    assert_eq!(label, Token::LabelDeclaration { name: "test".to_string() });

    let result = label_declaration("invalid_label");
    assert!(!result.is_some());
}

#[test]
fn test_label_usage() {
    let result = label_usage("@test");
    assert!(result.is_some());
    let (label, _) = result.unwrap();
    assert_eq!(label, Token::LabelUsage { name: "test".to_string() });

    let result = label_usage("invalid_label_usage:");
    assert!(!result.is_some());
}

#[test]
fn test_parse_instruction_form_one() {
    let result = instruction("ld $0 #100");
    assert!(result.is_some());
    let (parsed, rest) = result.unwrap();
    assert_eq!(
        parsed,
        AsmInstruction {
            opcode: Some(Token::Op { code: Opcode::LOAD }),
            operand1: Some(Token::Register { reg_num: 0 }),
            operand2: Some(Token::IntegerOperand { value: 100 }),
            operand3: None,
            label: None,
            directive: None
        }
    );
    assert_eq!(rest, "ld $0 #100".len());
}

#[test]
fn test_string_directive() {
    let result = directive("test: .asciiz 'hello'");
    assert!(result.is_some());
    let (parsed, _) = result.unwrap();

    let correct_instruction = AsmInstruction::new(
        Some(Token::Directive { name: "asciiz".to_string() }),
        Some(Token::LabelDeclaration { name: "test".to_string() }),
        None,
        Some(Token::IrString { name: "hello".to_string() }),
        None,
        None,
    );

    assert_eq!(parsed, correct_instruction);
}

#[test]
fn test_directive_rejects_opcode_line() {
    assert!(directive("ld $0 #100").is_none());
}

#[test]
fn test_parse_program() {
    let result = program("ld $0 #100\nld $1 #55");
    assert!(result.is_some());
    let p = result.unwrap();
    assert_eq!(p.instructions.len(), 2);
}

#[test]
fn test_parse_program_rejects_leftover() {
    assert!(program("ld $0 #100 !!!").is_none());
}

#[test]
fn test_parse_program_rejects_empty() {
    assert!(program("").is_none());
    assert!(program("   \n\t ").is_none());
}

#[test]
fn test_label_attaches_across_newline() {
    let p = program("test:\ninc $0").unwrap();
    assert_eq!(p.instructions.len(), 1);
    let i = &p.instructions[0];
    assert_eq!(i.label, Some(Token::LabelDeclaration { name: "test".to_string() }));
    assert_eq!(i.opcode, Some(Token::Op { code: Opcode::INC }));
}
