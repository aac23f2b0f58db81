use iridium::instruction::{Instruction, Opcode};

#[test]
fn test_create_hlt() {
    let opcode = Opcode::HLT;
    assert_eq!(opcode, Opcode::HLT);
}

#[test]
fn test_create_instruction() {
    let instruction = Instruction::new(Opcode::HLT);
    assert_eq!(instruction.opcode, Opcode::HLT);
}

#[test]
fn test_create_hlt_opcode_from_string() {
    let op = Opcode::from_mnemonic("hlt");
    assert_eq!(op, Opcode::HLT);
}

#[test]
fn test_logical_opcodes_from_string() {
    let op = Opcode::from_mnemonic("jmp");
    assert_eq!(op, Opcode::JMP);
}

#[test]
fn test_parse_invalid_opcode_from_string() {
    let op = Opcode::from_mnemonic("invalid one");
    assert_eq!(op, Opcode::IGL);
}

#[test]
fn test_every_byte_decodes_and_reencodes() {
    for i in 0..=255u32 {
        let b = i as u8;
        let op = Opcode::from(b);
        let c = op.code();
        if b <= 18 {
            assert_eq!(c, b);
            assert_ne!(op, Opcode::IGL);
        } else {
            assert_eq!(op, Opcode::IGL);
            assert_eq!(c, 19);
        }
    }
}

#[test]
fn test_every_mnemonic_maps_to_its_opcode() {
    let table = [
        ("hlt", Opcode::HLT),
        ("ld", Opcode::LOAD),
        ("add", Opcode::ADD),
        ("sub", Opcode::SUB),
        ("mul", Opcode::MUL),
        ("div", Opcode::DIV),
        ("jmp", Opcode::JMP),
        ("jmpf", Opcode::JMPF),
        ("jmpb", Opcode::JMPB),
        ("eq", Opcode::EQ),
        ("neq", Opcode::NEQ),
        ("gt", Opcode::GT),
        ("lt", Opcode::LT),
        ("gte", Opcode::GTE),
        ("lte", Opcode::LTE),
        ("jeq", Opcode::JEQ),
        ("aloc", Opcode::ALOC),
        ("inc", Opcode::INC),
        ("dec", Opcode::DEC),
    ];
    for (name, op) in table {
        assert_eq!(Opcode::from_mnemonic(name), op);
    }
}
