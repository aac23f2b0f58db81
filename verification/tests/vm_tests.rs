use iridium::assembler::Assembler;
use iridium::vm::VM;

fn get_test_vm() -> VM {
    VM::new()
}

#[test]
fn test_opcode_hlt() {
    let mut test_vm = get_test_vm();
    let test_bytes = vec![0, 0, 0, 0];
    test_vm.load_program(test_bytes);
    test_vm.run_once();
    assert_eq!(test_vm.get_pc(), 1);
}

#[test]
fn test_opcode_igl() {
    let mut test_vm = get_test_vm();
    let test_bytes = vec![200, 0, 0, 0];
    test_vm.load_program(test_bytes);
    test_vm.run_once();
    assert_eq!(test_vm.get_pc(), 1);
}

#[test]
fn test_opcode_load() {
    let mut test_vm = get_test_vm();
    test_vm.load_program(vec![1, 0, 2, 246]);
    test_vm.run_once();
    assert_eq!(test_vm.get_registers()[0], 758);
}

#[test]
fn test_opcode_add() {
    let mut test_vm = get_test_vm();
    test_vm.load_program(vec![2, 0, 1, 2]);
    test_vm.set_register(0, 2);
    test_vm.set_register(1, 3);
    test_vm.run_once();
    assert_eq!(test_vm.get_registers()[2], 5);
}

#[test]
fn test_opcode_sub() {
    let mut test_vm = get_test_vm();
    test_vm.load_program(vec![3, 0, 1, 2]);
    test_vm.set_register(0, 8);
    test_vm.set_register(1, 3);
    test_vm.run_once();
    assert_eq!(test_vm.get_registers()[2], 5);
}

#[test]
fn test_opcode_mul() {
    let mut test_vm = get_test_vm();
    test_vm.load_program(vec![4, 0, 1, 2]);
    test_vm.set_register(0, 8);
    test_vm.set_register(1, 3);
    test_vm.run_once();
    assert_eq!(test_vm.get_registers()[2], 24);
}

#[test]
fn test_opcode_div() {
    let mut test_vm = get_test_vm();
    test_vm.load_program(vec![5, 0, 1, 2]);
    test_vm.set_register(0, 11);
    test_vm.set_register(1, 3);
    test_vm.run_once();
    assert_eq!(test_vm.get_registers()[2], 3);
    assert_eq!(test_vm.get_remainder(), 2);
}

#[test]
fn test_opcode_jmp() {
    let mut vm = get_test_vm();
    vm.load_program(vec![6, 8, 0, 0]);
    vm.set_register(8, 2);
    vm.run_once();
    assert_eq!(vm.get_pc(), 2);
}

#[test]
fn test_opcode_jmp_f_b() {
    let mut vm = get_test_vm();
    vm.load_program(vec![7, 0, 0, 0, 8, 1]);
    vm.set_register(0, 2);
    vm.set_register(1, 3);
    vm.run_once();
    assert_eq!(vm.get_pc(), 4);
    vm.run_once();
    assert_eq!(vm.get_pc(), 3);
}

#[test]
fn test_opcode_eq() {
    let mut vm = get_test_vm();
    vm.load_program(vec![9, 0, 1, 0, 9, 0, 2]);
    vm.set_register(0, 5);
    vm.set_register(1, 5);
    vm.set_register(2, 7);
    vm.run_once();
    assert_eq!(vm.get_equal_flag(), true);
    vm.run_once();
    assert_eq!(vm.get_equal_flag(), false);
}

#[test]
fn test_opcode_neq() {
    let mut vm = get_test_vm();
    vm.load_program(vec![10, 0, 1, 0, 10, 0, 2]);
    vm.set_register(0, 3);
    vm.set_register(1, 4);
    vm.set_register(2, 3);
    vm.run_once();
    assert_eq!(vm.get_equal_flag(), true);
    vm.run_once();
    assert_eq!(vm.get_equal_flag(), false);
}

#[test]
fn test_opcode_gt() {
    let mut vm = get_test_vm();
    vm.load_program(vec![11, 0, 1, 0, 11, 0, 2]);
    vm.set_register(0, 2);
    vm.set_register(1, 1);
    vm.set_register(2, 2);
    vm.run_once();
    assert_eq!(vm.get_equal_flag(), true);
    vm.run_once();
    assert_eq!(vm.get_equal_flag(), false);
}

#[test]
fn test_opcode_lt() {
    let mut vm = get_test_vm();
    vm.load_program(vec![12, 0, 1, 0, 12, 0, 2]);
    vm.set_register(0, 5);
    vm.set_register(1, 10);
    vm.set_register(2, 5);
    vm.run_once();
    assert_eq!(vm.get_equal_flag(), true);
    vm.run_once();
    assert_eq!(vm.get_equal_flag(), false);
}

#[test]
fn test_opcode_gte() {
    let mut vm = get_test_vm();
    vm.load_program(vec![13, 0, 1, 0, 13, 0, 2, 0, 13, 0, 3, 0]);
    vm.set_register(0, 4);
    vm.set_register(1, 4);
    vm.set_register(2, 2);
    vm.set_register(3, 7);
    vm.run_once();
    assert_eq!(vm.get_equal_flag(), true);
    vm.run_once();
    assert_eq!(vm.get_equal_flag(), true);
    vm.run_once();
    assert_eq!(vm.get_equal_flag(), false);
}

#[test]
fn test_opcode_lte() {
    let mut vm = get_test_vm();
    vm.load_program(vec![14, 0, 1, 0, 14, 0, 2, 0, 14, 0, 3]);
    vm.set_register(0, 5);
    vm.set_register(1, 5);
    vm.set_register(2, 10);
    vm.set_register(3, 2);
    vm.run_once();
    assert_eq!(vm.get_equal_flag(), true);
    vm.run_once();
    assert_eq!(vm.get_equal_flag(), true);
    vm.run_once();
    assert_eq!(vm.get_equal_flag(), false);
}

#[test]
fn test_opcode_jeq() {
    let mut vm = get_test_vm();
    vm.load_program(vec![15, 0, 0, 0]);
    vm.set_equal_flag(true);
    vm.set_register(0, 3);
    vm.run_once();
    assert_eq!(vm.get_pc(), 3);
}

#[test]
fn test_opcode_jeq_not_taken_consumes_four_bytes() {
    let mut vm = get_test_vm();
    vm.load_program(vec![15, 0, 0, 0, 0, 0, 0, 0]);
    vm.set_equal_flag(false);
    vm.set_register(0, 3);
    vm.run_once();
    assert_eq!(vm.get_pc(), 4);
}

#[test]
fn test_opcode_aloc() {
    let mut vm = get_test_vm();
    vm.set_register(0, 1024);
    vm.load_program(vec![16, 0, 0, 0]);
    vm.run_once();
    assert_eq!(vm.get_heap().len(), 1024);
}

#[test]
fn test_opcode_aloc_negative_shrinks() {
    let mut vm = get_test_vm();
    vm.set_register(0, 1024);
    vm.set_register(1, -512);
    vm.load_program(vec![16, 0, 0, 0, 16, 1, 0, 0]);
    vm.run_once();
    vm.run_once();
    assert_eq!(vm.get_heap().len(), 512);
}

#[test]
fn test_opcode_inc() {
    let mut vm = get_test_vm();
    vm.set_register(0, 1);
    vm.load_program(vec![17, 0]);
    vm.run_once();
    assert_eq!(vm.get_registers()[0], 2);
}

#[test]
fn test_opcode_dec() {
    let mut vm = get_test_vm();
    vm.set_register(0, 2);
    vm.load_program(vec![18, 0]);
    vm.run_once();
    assert_eq!(vm.get_registers()[0], 1);
}

#[test]
fn test_arithmetic_wraps() {
    let mut vm = get_test_vm();
    vm.set_register(0, i32::MAX);
    vm.load_program(vec![17, 0, 0, 0]);
    vm.run_once();
    assert_eq!(vm.get_registers()[0], i32::MIN);
}

#[test]
fn test_divide_by_zero_stops_machine() {
    let mut vm = get_test_vm();
    vm.set_register(0, 11);
    vm.load_program(vec![5, 0, 1, 2]);
    vm.run_once();
    // the step reported done with the counter just past the opcode byte
    assert_eq!(vm.get_pc(), 1);
    assert_eq!(vm.get_registers()[2], 0);
    assert_eq!(vm.get_remainder(), 0);
}

#[test]
fn test_register_index_out_of_range_stops_machine() {
    let mut vm = get_test_vm();
    vm.load_program(vec![2, 200, 0, 0]);
    vm.run_once();
    assert_eq!(vm.get_pc(), 1);
}

#[test]
fn test_truncated_instruction_stops_machine() {
    let mut vm = get_test_vm();
    vm.load_program(vec![1, 0]);
    vm.run_once();
    assert_eq!(vm.get_pc(), 1);
    assert_eq!(vm.get_registers()[0], 0);
}

#[test]
fn test_negative_jump_target_stops_machine() {
    let mut vm = get_test_vm();
    vm.set_register(0, -5);
    vm.load_program(vec![6, 0, 0, 0]);
    vm.run_once();
    assert_eq!(vm.get_pc(), 1);
}

#[test]
fn test_empty_program_reports_done() {
    let mut vm = get_test_vm();
    vm.run_once();
    assert_eq!(vm.get_pc(), 0);
}

#[test]
fn test_add_byte_appends_to_program() {
    let mut vm = get_test_vm();
    vm.add_byte(1);
    vm.add_byte(0);
    vm.add_byte(1);
    vm.add_byte(244);
    assert_eq!(vm.get_program(), &vec![1u8, 0, 1, 244]);
    vm.run_once();
    assert_eq!(vm.get_registers()[0], 500);
}

#[test]
fn test_clear_keeps_registers_and_heap() {
    let mut vm = get_test_vm();
    vm.set_register(0, 64);
    vm.load_program(vec![16, 0, 0, 0]);
    vm.run_once();
    vm.clear();
    assert_eq!(vm.get_program().len(), 0);
    assert_eq!(vm.get_pc(), 0);
    assert_eq!(vm.get_registers()[0], 64);
    assert_eq!(vm.get_heap().len(), 64);
}

#[test]
fn test_run_assembled_program() {
    let mut assembler = Assembler::new();
    let text = "load $0 #100\nload $1 #1\nload $2 #0\ntest: inc $0\nneq $0 $2\njmpe @test\nhlt";
    let image = assembler.assemble(text).unwrap();
    let mut vm = VM::new();
    vm.load_program(image[64..].to_vec());
    vm.run();
    // `load` is an unknown mnemonic: the very first opcode byte is the
    // illegal one and stops the run before any register changes
    assert_eq!(vm.get_registers()[0], 0);
    assert_eq!(vm.get_pc(), 1);
}

#[test]
fn test_run_counts_to_ten() {
    let mut assembler = Assembler::new();
    let text = "ld $0 #0\nld $1 #1\nld $2 #10\nloop: add $0 $1 $0\neq $0 $2\njeq @done\njmp $3\ndone: hlt";
    let image = assembler.assemble(text).unwrap();
    let mut vm = VM::new();
    vm.load_program(image[64..].to_vec());
    vm.set_register(3, 12);
    vm.run();
    assert_eq!(vm.get_registers()[0], 10);
}
