use rvm::generator::{Generator, OPCommand};
use rvm::liamc::ast::{Expression, Operator, Program, Statement};
use rvm::liamc::compiler::Compiler;
use rvm::machine::Status;
use rvm::op::OP;
use rvm::vm::VM;

#[test]
fn program_holds_its_statements() {
    let program = Program::new(vec![Statement::Print { literal: 1 }, Statement::Print { literal: 2 }]);
    assert_eq!(program.statements, vec![Statement::Print { literal: 1 }, Statement::Print { literal: 2 }]);
}

#[test]
fn expressions_nest() {
    let sum = Expression::BinaryExpression {
        lhs: Box::new(Expression::LiteralExpression { literal: 1 }),
        op: Operator::Add,
        rhs: Box::new(Expression::LiteralExpression { literal: 2 }),
    };
    assert!(matches!(sum, Expression::BinaryExpression { op: Operator::Add, .. }));
}

#[test]
fn new_compiler_has_generated_nothing() {
    assert_eq!(Compiler::new().generated_code, "");
}

#[test]
fn empty_program_compiles_to_the_entry_label() {
    let mut compiler = Compiler::new();
    compiler.compile(Program::new(Vec::new()));
    assert_eq!(compiler.generated_code, "@main\n");
}

#[test]
fn print_compiles_to_push_and_print() {
    let mut compiler = Compiler::new();
    compiler.compile(Program::new(vec![Statement::Print { literal: 5 }]));
    assert_eq!(compiler.generated_code, "@main\npush 5\nprint");
}

#[test]
fn negative_literal_keeps_its_sign() {
    let mut compiler = Compiler::new();
    compiler.compile(Program::new(vec![Statement::Print { literal: -12 }]));
    assert_eq!(compiler.generated_code, "@main\npush -12\nprint");
}

#[test]
fn statements_follow_one_another_without_a_separator() {
    let mut compiler = Compiler::new();
    compiler.compile(Program::new(vec![Statement::Print { literal: 1 }, Statement::Print { literal: 2 }]));
    assert_eq!(compiler.generated_code, "@main\npush 1\nprintpush 2\nprint");
}

#[test]
fn compiled_print_runs_and_prints() {
    let mut compiler = Compiler::new();
    compiler.compile(Program::new(vec![Statement::Print { literal: 5 }]));
    let mut generator = Generator::new(vec![
        OPCommand::new("push", OP::PUSH, 1),
        OPCommand::new("print", OP::PRINT, 0),
    ]);
    assert_eq!(generator.generate_byte_code(&compiler.generated_code), Ok(()));
    let mut vm = VM::new(generator).ok().unwrap();
    assert_eq!(vm.run(10), Ok(Status::Halted));
    assert_eq!(vm.output, vec![5]);
}
