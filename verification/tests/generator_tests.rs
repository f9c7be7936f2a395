use rvm::generator::{AssemblyError, Generator, Label, OPCommand, DEFAULT_CODE_CAPACITY};
use rvm::op::OP;

fn instruction_set() -> Vec<OPCommand> {
    vec![
        OPCommand::new("push", OP::PUSH, 1),
        OPCommand::new("pop", OP::POP, 0),
        OPCommand::new("print", OP::PRINT, 0),
        OPCommand::new("add", OP::ADD, 0),
        OPCommand::new("store", OP::STORE, 1),
        OPCommand::new("load", OP::LOAD, 1),
        OPCommand::new("alloc", OP::ALLOC, 0),
        OPCommand::new("put", OP::PUT, 0),
        OPCommand::new("get", OP::GET, 0),
        OPCommand::new("ret", OP::RET, 0),
        OPCommand::new("pop_ret", OP::POPRET, 0),
        OPCommand::new("call", OP::CALL, 2),
        OPCommand::new("goto", OP::GOTO, 1),
    ]
}

fn assemble(source: &str) -> (Generator, Result<(), AssemblyError>) {
    let mut generator = Generator::new(instruction_set());
    let result = generator.generate_byte_code(&String::from(source));
    (generator, result)
}

fn names(labels: &Vec<Label>) -> Vec<(String, usize)> {
    labels.iter().map(|l| (l.label.clone(), l.location)).collect()
}

#[test]
fn command_and_label_hold_what_they_were_given() {
    let command = OPCommand::new("call", OP::CALL, 2);
    assert_eq!(command.name, "call");
    assert_eq!(command.op, OP::CALL);
    assert_eq!(command.arguments, 2);
    let label = Label::new(String::from("@main"), 7);
    assert_eq!(label.label, "@main");
    assert_eq!(label.location, 7);
}

#[test]
fn new_generator_is_empty() {
    let generator = Generator::new(instruction_set());
    assert!(generator.byte_code.is_empty());
    assert!(generator.functions.is_empty());
    assert!(generator.tags.is_empty());
    assert_eq!(generator.capacity, DEFAULT_CODE_CAPACITY);
    assert_eq!(generator.instruction_set.len(), 13);
}

#[test]
fn push_and_print_assemble_to_three_words() {
    let (generator, result) = assemble("@main push 5 print");
    assert_eq!(result, Ok(()));
    assert_eq!(generator.byte_code, vec![0, 5, 2]);
    assert_eq!(names(&generator.functions), vec![(String::from("@main"), 0)]);
    assert!(generator.tags.is_empty());
}

#[test]
fn call_scenario_assembles_bit_for_bit() {
    let (generator, result) =
        assemble("@adder pop_ret @main push 10 push 20 call @adder 0 print");
    assert_eq!(result, Ok(()));
    assert_eq!(generator.byte_code, vec![10, 0, 10, 0, 20, 11, 0, 0, 2]);
    assert_eq!(
        names(&generator.functions),
        vec![(String::from("@adder"), 0), (String::from("@main"), 1)]
    );
}

#[test]
fn every_instruction_has_its_opcode() {
    let (generator, result) = assemble(
        "@main push 1 pop print add store 2 load 3 alloc put get ret pop_ret call @main 4 goto 5",
    );
    assert_eq!(result, Ok(()));
    assert_eq!(
        generator.byte_code,
        vec![0, 1, 1, 2, 3, 4, 2, 5, 3, 6, 7, 8, 9, 10, 11, 0, 4, 12, 5]
    );
}

#[test]
fn tags_and_functions_are_separate_tables() {
    let (generator, result) = assemble("@main push 1 #loop pop goto #loop @x call @x 0 goto @main");
    assert_eq!(result, Ok(()));
    assert_eq!(generator.byte_code, vec![0, 1, 1, 12, 2, 11, 5, 0, 12, 0]);
    assert_eq!(
        names(&generator.functions),
        vec![(String::from("@main"), 0), (String::from("@x"), 5)]
    );
    assert_eq!(names(&generator.tags), vec![(String::from("#loop"), 2)]);
}

#[test]
fn whitespace_of_any_kind_separates_words() {
    let (generator, result) = assemble("\n@main\tpush\r\n5\u{a0}print\n");
    assert_eq!(result, Ok(()));
    assert_eq!(generator.byte_code, vec![0, 5, 2]);
}

#[test]
fn empty_source_assembles_to_nothing() {
    let (generator, result) = assemble("   ");
    assert_eq!(result, Ok(()));
    assert!(generator.byte_code.is_empty());
    assert!(generator.functions.is_empty());
}

#[test]
fn assembling_twice_gives_the_same_image() {
    let source = "@adder pop_ret @main push 10 push 20 #t call @adder 0 print goto #t";
    let (first, first_result) = assemble(source);
    let (second, second_result) = assemble(source);
    assert_eq!(first_result, second_result);
    assert_eq!(first.byte_code, second.byte_code);
    assert_eq!(names(&first.functions), names(&second.functions));
    assert_eq!(names(&first.tags), names(&second.tags));
    let (third, third_result) = assemble("@main push 1 frobnicate");
    let (fourth, fourth_result) = assemble("@main push 1 frobnicate");
    assert_eq!(third_result, fourth_result);
    assert_eq!(third.byte_code, fourth.byte_code);
}

#[test]
fn unknown_mnemonic_is_rejected() {
    let (generator, result) = assemble("@main push 1 frobnicate 2");
    assert_eq!(result, Err(AssemblyError::UnknownMnemonic(String::from("frobnicate"))));
    assert!(generator.byte_code.is_empty());
    assert!(generator.functions.is_empty());
}

#[test]
fn mnemonics_are_matched_exactly() {
    let (_, result) = assemble("@main PUSH 1");
    assert_eq!(result, Err(AssemblyError::UnknownMnemonic(String::from("PUSH"))));
    let (_, result) = assemble("@main 5");
    assert_eq!(result, Err(AssemblyError::UnknownMnemonic(String::from("5"))));
}

#[test]
fn missing_operand_is_rejected() {
    let (generator, result) = assemble("@main push");
    assert_eq!(result, Err(AssemblyError::InsufficientOperands(String::from("push"))));
    assert!(generator.byte_code.is_empty());
    let (_, result) = assemble("@f ret @main call @f");
    assert_eq!(result, Err(AssemblyError::InsufficientOperands(String::from("call"))));
}

#[test]
fn undeclared_label_is_rejected() {
    let (generator, result) = assemble("@main call @nowhere 0 print");
    assert_eq!(result, Err(AssemblyError::UnresolvedLabel(String::from("@nowhere"))));
    assert!(generator.byte_code.is_empty());
    assert!(generator.functions.is_empty());
    let (_, result) = assemble("@main goto #nowhere");
    assert_eq!(result, Err(AssemblyError::UnresolvedLabel(String::from("#nowhere"))));
}

#[test]
fn forward_reference_is_rejected() {
    let (_, result) = assemble("@main call @later 0 @later ret");
    assert_eq!(result, Err(AssemblyError::UnresolvedLabel(String::from("@later"))));
    let (_, result) = assemble("@main goto #end push 1 #end");
    assert_eq!(result, Err(AssemblyError::UnresolvedLabel(String::from("#end"))));
}

#[test]
fn a_tag_is_not_a_function_and_a_function_is_not_a_tag() {
    let (_, result) = assemble("#x @main goto @x");
    assert_eq!(result, Err(AssemblyError::UnresolvedLabel(String::from("@x"))));
    let (_, result) = assemble("@x ret @main goto #x");
    assert_eq!(result, Err(AssemblyError::UnresolvedLabel(String::from("#x"))));
}

#[test]
fn operand_that_is_no_number_is_rejected() {
    let (generator, result) = assemble("@main push five");
    assert_eq!(result, Err(AssemblyError::InvalidNumericOperand(String::from("five"))));
    assert!(generator.byte_code.is_empty());
    let (_, result) = assemble("@main push -1");
    assert_eq!(result, Err(AssemblyError::InvalidNumericOperand(String::from("-1"))));
    let (_, result) = assemble("@main push 18446744073709551616");
    assert_eq!(
        result,
        Err(AssemblyError::InvalidNumericOperand(String::from("18446744073709551616")))
    );
}

#[test]
fn operand_may_be_the_largest_word() {
    let (generator, result) = assemble("@main push 18446744073709551615 push +3");
    assert_eq!(result, Ok(()));
    assert_eq!(generator.byte_code, vec![0, u64::MAX, 0, 3]);
}

#[test]
fn an_operand_is_never_read_as_an_instruction() {
    let (_, result) = assemble("@main push print");
    assert_eq!(result, Err(AssemblyError::InvalidNumericOperand(String::from("print"))));
}

#[test]
fn duplicate_label_is_rejected() {
    let (generator, result) = assemble("@main push 1 @main print");
    assert_eq!(result, Err(AssemblyError::DuplicateLabel(String::from("@main"))));
    assert!(generator.byte_code.is_empty());
    let (_, result) = assemble("@main #a #a");
    assert_eq!(result, Err(AssemblyError::DuplicateLabel(String::from("#a"))));
}

#[test]
fn code_beyond_the_capacity_is_rejected() {
    let mut generator = Generator::new(instruction_set());
    generator.capacity = 3;
    assert_eq!(generator.generate_byte_code(&String::from("@main push 1 pop")), Ok(()));
    assert_eq!(generator.byte_code, vec![0, 1, 1]);
    assert_eq!(
        generator.generate_byte_code(&String::from("print")),
        Err(AssemblyError::CodeOverflow)
    );
    assert_eq!(generator.byte_code, vec![0, 1, 1]);
    let mut small = Generator::new(instruction_set());
    small.capacity = 1;
    assert_eq!(
        small.generate_byte_code(&String::from("@main push 1")),
        Err(AssemblyError::CodeOverflow)
    );
    assert!(small.byte_code.is_empty());
    assert!(small.functions.is_empty());
}

#[test]
fn default_capacity_holds_exactly_that_many_words() {
    let mut source = String::from("@main");
    for _ in 0..DEFAULT_CODE_CAPACITY {
        source.push_str(" pop");
    }
    let (generator, result) = assemble(&source);
    assert_eq!(result, Ok(()));
    assert_eq!(generator.byte_code.len(), DEFAULT_CODE_CAPACITY);
    source.push_str(" pop");
    let (generator, result) = assemble(&source);
    assert_eq!(result, Err(AssemblyError::CodeOverflow));
    assert!(generator.byte_code.is_empty());
}

#[test]
fn a_second_text_continues_the_first() {
    let mut generator = Generator::new(instruction_set());
    assert_eq!(generator.generate_byte_code(&String::from("@f ret")), Ok(()));
    assert_eq!(generator.generate_byte_code(&String::from("@main call @f 0")), Ok(()));
    assert_eq!(generator.byte_code, vec![9, 11, 0, 0]);
    assert_eq!(
        names(&generator.functions),
        vec![(String::from("@f"), 0), (String::from("@main"), 1)]
    );
}

#[test]
fn a_failed_text_leaves_the_earlier_image() {
    let mut generator = Generator::new(instruction_set());
    assert_eq!(generator.generate_byte_code(&String::from("@f ret #t")), Ok(()));
    assert_eq!(
        generator.generate_byte_code(&String::from("@main #u push 1 call @g 0")),
        Err(AssemblyError::UnresolvedLabel(String::from("@g")))
    );
    assert_eq!(generator.byte_code, vec![9]);
    assert_eq!(names(&generator.functions), vec![(String::from("@f"), 0)]);
    assert_eq!(names(&generator.tags), vec![(String::from("#t"), 1)]);
}

#[test]
fn the_table_decides_names_and_arities() {
    let table = vec![OPCommand::new("emit", OP::PRINT, 0), OPCommand::new("lit", OP::PUSH, 1)];
    let mut generator = Generator::new(table);
    assert_eq!(generator.generate_byte_code(&String::from("@main lit 9 emit")), Ok(()));
    assert_eq!(generator.byte_code, vec![0, 9, 2]);
    assert_eq!(
        generator.generate_byte_code(&String::from("push 1")),
        Err(AssemblyError::UnknownMnemonic(String::from("push")))
    );
}

#[test]
fn the_first_matching_row_wins() {
    let table = vec![OPCommand::new("x", OP::POP, 0), OPCommand::new("x", OP::PUSH, 1)];
    let mut generator = Generator::new(table);
    assert_eq!(generator.generate_byte_code(&String::from("x x")), Ok(()));
    assert_eq!(generator.byte_code, vec![1, 1]);
}

#[test]
fn lookups_find_what_was_declared() {
    let (mut generator, result) = assemble("@main push 1 #here @other ret");
    assert_eq!(result, Ok(()));
    assert_eq!(generator.get_function_location(&String::from("@main")), Some(0));
    assert_eq!(generator.get_function_location(&String::from("@other")), Some(2));
    assert_eq!(generator.get_function_location(&String::from("#here")), None);
    assert_eq!(generator.get_tag_location(&String::from("#here")), Some(2));
    assert_eq!(generator.get_tag_location(&String::from("@main")), None);
    assert_eq!(generator.get_instruction_index(&String::from("push")), Some(0));
    assert_eq!(generator.get_instruction_index(&String::from("goto")), Some(12));
    assert_eq!(generator.get_instruction_index(&String::from("nop")), None);
    assert_eq!(generator.put(77), Ok(()));
    assert_eq!(generator.byte_code, vec![0, 1, 9, 77]);
}
