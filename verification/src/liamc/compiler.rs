//! From the syntax tree to assembly text.

use vstd::prelude::*;
use vstd::string::*;
use crate::liamc::ast::{Program, Statement};
use crate::text::{signed_decimal, spec_signed_decimal};

verus! {

/// The assembly text of one statement. A print statement pushes its number
/// and prints it; nothing follows the final `print`.
pub open spec fn statement_text(statement: Statement) -> Seq<char> {
    match statement {
        Statement::Print { literal } => "push "@ + spec_signed_decimal(literal as int) + "\n"@
            + "print"@,
    }
}

/// The assembly text of the first `n` of `statements`, one after another.
pub open spec fn statements_text(statements: Seq<Statement>, n: nat) -> Seq<char>
    decreases n,
{
    if n == 0 {
        Seq::empty()
    } else {
        statements_text(statements, (n - 1) as nat) + statement_text(statements[n - 1])
    }
}

/// The assembly text of a program: the entry label on a line of its own,
/// then the text of the statements.
pub open spec fn program_text(statements: Seq<Statement>) -> Seq<char> {
    "@main\n"@ + statements_text(statements, statements.len())
}

/// Collects the assembly text of what it compiles.
pub struct Compiler {
    pub generated_code: String,
}

impl Compiler {
    /// A compiler that has generated nothing.
    pub fn new() -> (compiler: Self)
        ensures
            compiler.generated_code@ == Seq::<char>::empty(),
    {
        Compiler { generated_code: String::new() }
    }

    /// Appends the assembly text of `program` to the generated code.
    pub fn compile(&mut self, program: Program)
        ensures
            final(self).generated_code@ == old(self).generated_code@ + program_text(
                program.statements@,
            ),
    {
        self.generated_code.append("@main\n");
        self.eval_program(program);
        assert(self.generated_code@ =~= old(self).generated_code@ + program_text(
            program.statements@,
        ));
    }

    /// Appends the assembly text of the statements of `program`.
    fn eval_program(&mut self, program: Program)
        ensures
            final(self).generated_code@ == old(self).generated_code@ + statements_text(
                program.statements@,
                program.statements@.len(),
            ),
    {
        let mut i: usize = 0;
        assert(self.generated_code@ =~= old(self).generated_code@ + statements_text(
            program.statements@,
            0,
        ));
        while i < program.statements.len()
            invariant
                i <= program.statements.len(),
                self.generated_code@ == old(self).generated_code@ + statements_text(
                    program.statements@,
                    i as nat,
                ),
            decreases program.statements.len() - i,
        {
            self.eval_statement(program.statements[i]);
            i += 1;
            assert(self.generated_code@ =~= old(self).generated_code@ + statements_text(
                program.statements@,
                i as nat,
            ));
        }
    }

    /// Appends the assembly text of `statement`.
    fn eval_statement(&mut self, statement: Statement)
        ensures
            final(self).generated_code@ == old(self).generated_code@ + statement_text(statement),
    {
        match statement {
            Statement::Print { literal } => self.eval_print_statement(literal),
        }
    }

    /// Appends the assembly text that prints `literal`.
    fn eval_print_statement(&mut self, literal: i32)
        ensures
            final(self).generated_code@ == old(self).generated_code@ + statement_text(
                Statement::Print { literal },
            ),
    {
        let number = signed_decimal(literal);
        self.generated_code.append("push ");
        self.generated_code.append(number.as_str());
        self.generated_code.append("\n");
        self.generated_code.append("print");
        assert(self.generated_code@ =~= old(self).generated_code@ + statement_text(
            Statement::Print { literal },
        ));
    }
}

} // verus!
