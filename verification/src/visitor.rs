//! A visitor interface for passes that walk a whole program and either
//! succeed or report one error message.

use vstd::prelude::*;
use crate::interpreter::resolver::Resolver;
use crate::parser::ast::Program;

verus! {

/// A pass over a whole program.
pub trait Visitor {
    /// Walks the program, reporting the first failure as a message.
    fn visit_program(&mut self, program: &Program) -> Result<(), String>;
}

impl Visitor for Resolver {
    /// Resolution as a program pass.
    fn visit_program(&mut self, program: &Program) -> Result<(), String> {
        self.resolve_program(program)
    }
}

} // verus!
