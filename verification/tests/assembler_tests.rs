use iridium::assembler::Assembler;
use iridium::symbols::{Symbol, SymbolTable, SymbolType};

#[test]
fn test_symbol_table() {
    let mut sym = SymbolTable::new();
    let new_symbol = Symbol::new("test".to_string(), 32, SymbolType::Label);
    sym.add_symbol(new_symbol);
    let value = sym.symbol_value("test");
    assert!(value.is_some());
    let value = sym.symbol_value("wrong");
    assert!(value.is_none());
}

#[test]
fn test_symbol_lookup_returns_first_inserted() {
    let mut sym = SymbolTable::new();
    sym.add_symbol(Symbol::new("test".to_string(), 32, SymbolType::Label));
    sym.add_symbol(Symbol::new("test".to_string(), 64, SymbolType::Label));
    assert_eq!(sym.symbol_value("test"), Some(32));
}

#[test]
fn test_symbol_offset_rewrite_is_observable() {
    let mut sym = SymbolTable::new();
    sym.add_symbol(Symbol::new("test".to_string(), 32, SymbolType::Label));
    let found = sym.set_symbol_offset("test", 7);
    assert!(found);
    assert_eq!(sym.symbol_value("test"), Some(7));
    let found = sym.set_symbol_offset("missing", 1);
    assert!(!found);
    assert_eq!(sym.symbol_value("missing"), None);
}

#[test]
fn test_assemble_program() {
    let mut assembler = Assembler::new();
    let test_string =
        "load $0 #100\nload $1 #1\nload $2 #0\ntest: inc $0\nneq $0 $2\njmpe @test\nhlt";
    let program = assembler.assemble(test_string).unwrap();
    assert_eq!(program.len(), 92);
}

#[test]
fn test_assembled_header_magic_and_zero_fill() {
    let mut assembler = Assembler::new();
    let out = assembler.assemble("hlt").unwrap();
    assert_eq!(out.len(), 68);
    assert_eq!(&out[0..4], &[45, 50, 49, 45]);
    for k in 4..64 {
        assert_eq!(out[k], 0);
    }
    assert_eq!(&out[64..], &[0, 0, 0, 0]);
}

#[test]
fn test_assemble_single_instruction_code_bytes() {
    let mut assembler = Assembler::new();
    let out = assembler.assemble("ld $0 #100").unwrap();
    assert_eq!(out.len(), 68);
    assert_eq!(&out[64..], &[1, 0, 0, 100]);
}

#[test]
fn test_assemble_fails_on_garbage() {
    let mut assembler = Assembler::new();
    assert!(assembler.assemble("!!!").is_none());
    assert!(assembler.assemble("").is_none());
    assert!(assembler.assemble("ld $0 #100 !!!").is_none());
}

#[test]
fn test_assemble_fails_on_string_in_opcode_line() {
    let mut assembler = Assembler::new();
    assert!(assembler.assemble("ld 'oops'").is_none());
}

#[test]
fn test_asciiz_fills_read_only_buffer() {
    let mut assembler = Assembler::new();
    let out = assembler.assemble(".data\nhello: .asciiz 'Hello'\n.code\nhlt").unwrap();
    // only `hlt` emits code: the directives and the string live outside it
    assert_eq!(out.len(), 68);
    assert_eq!(assembler.ro, b"Hello\0".to_vec());
    // the label was rewritten from its code offset to the read-only offset
    assert_eq!(assembler.symbols.symbol_value("hello"), Some(0));
}

#[test]
fn test_asciiz_without_label_is_discarded() {
    let mut assembler = Assembler::new();
    let out = assembler.assemble(".data\n.asciiz 'dropped'\n.code\nhlt").unwrap();
    assert_eq!(out.len(), 68);
    assert!(assembler.ro.is_empty());
}

#[test]
fn test_two_strings_advance_read_only_cursor() {
    let mut assembler = Assembler::new();
    assembler.assemble("a: .asciiz 'hi'\nb: .asciiz 'yo'\nhlt").unwrap();
    assert_eq!(assembler.ro, b"hi\0yo\0".to_vec());
    assert_eq!(assembler.symbols.symbol_value("a"), Some(0));
    assert_eq!(assembler.symbols.symbol_value("b"), Some(3));
}

#[test]
fn test_label_offsets_count_four_bytes_per_instruction() {
    let mut assembler = Assembler::new();
    let out = assembler.assemble("ld $0 #1\nld $1 #2\ntarget: hlt\njmp @target").unwrap();
    // target sits at code offset 8; the usage materializes it big-endian
    assert_eq!(&out[64..], &[1, 0, 0, 1, 1, 1, 0, 2, 0, 0, 0, 0, 6, 0, 8, 0]);
}

#[test]
fn test_assemble_output_length_shape() {
    let mut assembler = Assembler::new();
    let out = assembler.assemble("ld $0 #1\nadd $0 $0 $1\nhlt").unwrap();
    assert!(out.len() >= 64);
    assert_eq!((out.len() - 64) % 4, 0);
}
