//! A pretty-printer that renders a [`Program`] as an indented tree for
//! debugging.  Presentation only: it reads the AST and never changes it.
//!
//! Types are rendered by [`ASTPrinter::print_type`] exactly as
//! [`spec_print_type`] states; the tree renderers keep the indentation
//! level balanced and are otherwise presentation code.

use vstd::prelude::*;
use vstd::string::StringExecFns;
use crate::parser::ast::{
    Declaration, Expression, LoopStatement, Program, Statement, StructElement, Type,
    VariableMutability,
};
use crate::numbers::num_display;
use crate::textops::push_char;

verus! {

broadcast use vstd::seq::axiom_seq_index_decreases, vstd::std_specs::vec::axiom_vec_index_decreases;

/// The rendering of a type: scalar names, `Name<args>` for user types
/// with generic arguments, `Array<element>` for arrays.
pub open spec fn spec_print_type(t: Type) -> Seq<char>
    decreases t, 1int,
{
    match t {
        Type::U8 => "U8"@,
        Type::U16 => "U16"@,
        Type::U32 => "U32"@,
        Type::U64 => "U64"@,
        Type::I8 => "I8"@,
        Type::I16 => "I16"@,
        Type::I32 => "I32"@,
        Type::I64 => "I64"@,
        Type::F32 => "F32"@,
        Type::F64 => "F64"@,
        Type::Boolean => "Boolean"@,
        Type::Character => "Character"@,
        Type::Nil => "Nil"@,
        Type::Array(inner) => "Array<"@ + spec_print_type(*inner) + ">"@,
        Type::Identifier { name, generics } => if generics@.len() == 0 {
            name@
        } else {
            name@ + "<"@ + spec_print_generics(generics, 0) + ">"@
        },
    }
}

/// The comma-separated renderings of generic arguments from position `i`
/// on.
pub open spec fn spec_print_generics(gs: Vec<Type>, i: int) -> Seq<char>
    decreases gs, gs@.len() - i, 2int,
{
    if i < 0 || i >= gs@.len() {
        Seq::empty()
    } else if i == gs@.len() - 1 {
        spec_print_type(gs@[i])
    } else {
        spec_print_type(gs@[i]) + ", "@ + spec_print_generics(gs, i + 1)
    }
}

/// The tree printer: tracks the indentation level while walking the AST.
pub struct ASTPrinter {
    pub indent: usize,
}

impl ASTPrinter {
    /// A printer at indentation zero.
    pub fn new() -> (r: ASTPrinter)
        ensures
            r.indent == 0,
    {
        ASTPrinter { indent: 0 }
    }

    /// Renders a type.
    #[verifier::loop_isolation(false)]
    pub fn print_type(&self, ty: &Type) -> (r: String)
        ensures
            r@ == spec_print_type(*ty),
        decreases ty, 1int,
    {
        match ty {
            Type::U8 => String::from_str("U8"),
            Type::U16 => String::from_str("U16"),
            Type::U32 => String::from_str("U32"),
            Type::U64 => String::from_str("U64"),
            Type::I8 => String::from_str("I8"),
            Type::I16 => String::from_str("I16"),
            Type::I32 => String::from_str("I32"),
            Type::I64 => String::from_str("I64"),
            Type::F32 => String::from_str("F32"),
            Type::F64 => String::from_str("F64"),
            Type::Boolean => String::from_str("Boolean"),
            Type::Character => String::from_str("Character"),
            Type::Nil => String::from_str("Nil"),
            Type::Array(inner) => {
                let mut out = String::from_str("Array<");
                out.append(self.print_type(inner).as_str());
                out.append(">");
                out
            },
            Type::Identifier { name, generics } => {
                if generics.len() == 0 {
                    name.clone()
                } else {
                    let mut out = name.clone();
                    out.append("<");
                    let mut i: usize = 0;
                    while i < generics.len()
                        invariant
                            i <= generics@.len(),
                            generics@.len() > 0,
                            name@ + "<"@ + spec_print_generics(*generics, 0) == out@
                                + spec_print_generics(*generics, i as int),
                        decreases generics@.len() - i,
                    {
                        proof {
                            vstd::std_specs::vec::axiom_vec_index_decreases(*generics, i as int);
                        }
                        out.append(self.print_type(&generics[i]).as_str());
                        if i < generics.len() - 1 {
                            out.append(", ");
                        }
                        proof {
                            assert(name@ + "<"@ + spec_print_generics(*generics, 0) =~= out@
                                + spec_print_generics(*generics, i + 1));
                        }
                        i = i + 1;
                    }
                    out.append(">");
                    proof {
                        assert(out@ =~= spec_print_type(*ty));
                    }
                    out
                }
            },
        }
    }
}

} // verus!

verus! {

impl ASTPrinter {
    /// One output line: a gray indentation rail, then the text with the
    /// part before its first colon in bold.
    fn fmt_indent(&self, text: &str) -> (r: String) {
        let mut out = String::from_str("\u{1b}[90m");
        let mut i: usize = 0;
        while i < self.indent
            invariant
                i <= self.indent,
            decreases self.indent - i,
        {
            out.append("|  ");
            i = i + 1;
        }
        out.append("\u{1b}[0m");
        let n = text.unicode_len();
        let mut colon: usize = n;
        let mut j: usize = 0;
        while j < n
            invariant
                j <= n,
                n == text@.len(),
                colon <= n,
            decreases n - j,
        {
            if text.get_char(j) == ':' {
                colon = j;
                break;
            }
            j = j + 1;
        }
        out.append("\u{1b}[1m");
        out.append(text.substring_char(0, colon));
        out.append("\u{1b}[0m");
        if colon < n {
            out.append(":");
            out.append(text.substring_char(colon + 1, n));
        }
        out
    }

    /// One output line for a label and a trailing newline.
    fn line(&self, label: &str) -> (r: String) {
        let mut out = self.fmt_indent(label);
        out.append("\n");
        out
    }

    /// One output line for a label, a text, and a trailing newline.
    fn line_with(&self, label: &str, text: &str) -> (r: String) {
        let mut full = String::from_str(label);
        full.append(text);
        let mut out = self.fmt_indent(full.as_str());
        out.append("\n");
        out
    }

    /// Steps the indentation one level in, if it can go deeper.
    fn deeper(&mut self) -> (saved: usize)
        ensures
            saved == old(self).indent,
            final(self).indent == (if old(self).indent < 1000000 {
                (old(self).indent + 1) as int
            } else {
                old(self).indent as int
            }),
    {
        let saved = self.indent;
        self.indent = if saved < 1000000 {
            saved + 1
        } else {
            saved
        };
        saved
    }

    /// Renders a whole program as an indented tree.
    pub fn print_program(&mut self, program: &Program) -> (r: String)
        ensures
            final(self).indent == 0,
    {
        self.indent = 0;
        let mut out = String::new();
        let mut i: usize = 0;
        while i < program.declarations.len()
            invariant
                self.indent == 0,
            decreases program.declarations@.len() - i,
        {
            proof {
                vstd::std_specs::vec::axiom_vec_index_decreases(program.declarations, i as int);
            }
            out.append(self.print_declaration(&program.declarations[i]).as_str());
            i = i + 1;
        }
        out
    }

    /// Renders a declaration as an indented tree.
    #[verifier::loop_isolation(false)]
    pub fn print_declaration(&mut self, declaration: &Declaration) -> (r: String)
        ensures
            final(self).indent == old(self).indent,
        decreases declaration, 0int,
    {
        match declaration {
            Declaration::Function { name, params, return_type, body, .. } => {
                let mut out = self.line_with("Function: ", name.as_str());
                let saved = self.deeper();
                out.append(self.line("Parameters:").as_str());
                let mut i: usize = 0;
                while i < params.len()
                    invariant
                        self.indent == (if saved < 1000000 { (saved + 1) as int } else { saved as int }),
                    decreases params@.len() - i,
                {
                    let mut entry = String::from_str("- ");
                    entry.append(params[i].name.as_str());
                    entry.append(": ");
                    entry.append(self.print_type(&params[i].param_type).as_str());
                    out.append(self.line(entry.as_str()).as_str());
                    i = i + 1;
                }
                out.append(
                    self.line_with("Return Type: ", self.print_type(return_type).as_str()).as_str(),
                );
                out.append(self.line("Body: ").as_str());
                out.append(self.print_expression(body).as_str());
                self.indent = saved;
                out
            },
            Declaration::Import { path } => {
                let mut joined = String::new();
                let mut i: usize = 0;
                while i < path.len()
                    invariant
                        self.indent == old(self).indent,
                    decreases path@.len() - i,
                {
                    if i > 0 {
                        joined.append(".");
                    }
                    joined.append(path[i].as_str());
                    i = i + 1;
                }
                self.line_with("Import: ", joined.as_str())
            },
            Declaration::Struct { name, elements, .. } => {
                let mut out = self.line_with("Struct: ", name.as_str());
                let saved = self.deeper();
                let mut i: usize = 0;
                while i < elements.len()
                    invariant
                        self.indent == (if saved < 1000000 { (saved + 1) as int } else { saved as int }),
                    decreases elements@.len() - i,
                {
                    proof {
                        vstd::std_specs::vec::axiom_vec_index_decreases(*elements, i as int);
                    }
                    match &elements[i] {
                        StructElement::Field { name: fname, field_type } => {
                            let mut entry = String::from_str("Field: ");
                            entry.append(fname.as_str());
                            entry.append(": ");
                            entry.append(self.print_type(field_type).as_str());
                            out.append(self.line(entry.as_str()).as_str());
                        },
                        StructElement::Declaration(d) => {
                            out.append(self.print_declaration(d).as_str());
                        },
                    }
                    i = i + 1;
                }
                self.indent = saved;
                out
            },
            Declaration::TypeDeclaration { name, alias, .. } => {
                let mut entry = String::from_str("Type: ");
                entry.append(name.as_str());
                entry.append(" = ");
                entry.append(self.print_type(alias).as_str());
                self.line(entry.as_str())
            },
        }
    }

    /// Renders a statement as an indented tree.
    #[verifier::loop_isolation(false)]
    pub fn print_statement(&mut self, statement: &Statement) -> (r: String)
        ensures
            final(self).indent == old(self).indent,
        decreases statement, 0int,
    {
        match statement {
            Statement::Break => self.line("Break"),
            Statement::Continue => self.line("Continue"),
            Statement::Expression { expression, result } => {
                let mut out = self.line("Expression:");
                let saved = self.deeper();
                out.append(self.print_expression(expression).as_str());
                if *result {
                    out.append(self.line("Result: true").as_str());
                }
                self.indent = saved;
                out
            },
            Statement::Return(value) => {
                let mut out = self.line("Return:");
                let saved = self.deeper();
                match value {
                    Some(v) => {
                        out.append(self.print_expression(v).as_str());
                    },
                    None => {
                        out.append(self.line("No value").as_str());
                    },
                }
                self.indent = saved;
                out
            },
            Statement::VariableDeclaration { mutability, name, variable_type, value } => {
                let mut out = self.line_with("Variable Declaration: ", name.as_str());
                let saved = self.deeper();
                let mu = match mutability {
                    VariableMutability::Mutable => "Mutable",
                    VariableMutability::Immutable => "Immutable",
                };
                out.append(self.line_with("Mutability: ", mu).as_str());
                out.append(
                    self.line_with("Type: ", self.print_type(variable_type).as_str()).as_str(),
                );
                out.append(self.line("Value:").as_str());
                out.append(self.print_expression(value).as_str());
                self.indent = saved;
                out
            },
            Statement::Declaration(d) => self.print_declaration(d),
        }
    }

    /// Renders an expression as an indented tree.
    #[verifier::loop_isolation(false)]
    pub fn print_expression(&mut self, expression: &Expression) -> (r: String)
        ensures
            final(self).indent == old(self).indent,
        decreases expression, 1int,
    {
        match expression {
            Expression::NumberLiteral(b) => self.line_with(
                "Number Literal: ",
                num_display(*b).as_str(),
            ),
            Expression::StringLiteral(s) => self.line_with("String Literal: ", s.as_str()),
            Expression::CharLiteral(c) => {
                let mut text = String::new();
                push_char(&mut text, *c);
                self.line_with("Character Literal: ", text.as_str())
            },
            Expression::BooleanLiteral(b) => self.line_with(
                "Boolean Literal: ",
                if *b {
                    "true"
                } else {
                    "false"
                },
            ),
            Expression::Variable { name, .. } => self.line_with("Variable: ", name.as_str()),
            Expression::Assignment { name, value, .. } => {
                let mut out = self.line("Assignment:");
                let saved = self.deeper();
                out.append(self.line_with("Variable: ", name.as_str()).as_str());
                out.append(self.line("Value:").as_str());
                out.append(self.print_expression(value).as_str());
                self.indent = saved;
                out
            },
            Expression::BinaryOperation { left, operator, right } => {
                let sym = crate::interpreter::binary_symbol_public(operator);
                let mut out = self.line_with("Binary Operation: ", sym.as_str());
                let saved = self.deeper();
                out.append(self.line("Left:").as_str());
                out.append(self.print_expression(left).as_str());
                out.append(self.line("Right:").as_str());
                out.append(self.print_expression(right).as_str());
                self.indent = saved;
                out
            },
            Expression::UnaryOperation { operator, operand } => {
                let sym = crate::interpreter::unary_symbol_public(operator);
                let mut out = self.line_with("Unary Operation: ", sym.as_str());
                let saved = self.deeper();
                out.append(self.line("Operand:").as_str());
                out.append(self.print_expression(operand).as_str());
                self.indent = saved;
                out
            },
            Expression::Block(statements) => {
                let mut out = self.line("Block:");
                let saved = self.deeper();
                let mut i: usize = 0;
                while i < statements.len()
                    invariant
                        self.indent == (if saved < 1000000 { (saved + 1) as int } else { saved as int }),
                    decreases statements@.len() - i,
                {
                    proof {
                        vstd::std_specs::vec::axiom_vec_index_decreases(*statements, i as int);
                    }
                    out.append(self.print_statement(&statements[i]).as_str());
                    i = i + 1;
                }
                self.indent = saved;
                out
            },
            Expression::FunctionCall { callee, args } => {
                let mut out = self.line("Function Call");
                let saved = self.deeper();
                out.append(self.line("Callee:").as_str());
                out.append(self.print_expression(callee).as_str());
                out.append(self.line("Arguments:").as_str());
                let mut i: usize = 0;
                while i < args.len()
                    invariant
                        self.indent == (if saved < 1000000 { (saved + 1) as int } else { saved as int }),
                    decreases args@.len() - i,
                {
                    proof {
                        vstd::std_specs::vec::axiom_vec_index_decreases(*args, i as int);
                    }
                    out.append(self.print_expression(&args[i]).as_str());
                    i = i + 1;
                }
                self.indent = saved;
                out
            },
            Expression::MemberAccess { object, member } => {
                let mut out = self.line("Member Access:");
                let saved = self.deeper();
                out.append(self.line("Object:").as_str());
                out.append(self.print_expression(object).as_str());
                out.append(self.line_with("Member: ", member.as_str()).as_str());
                self.indent = saved;
                out
            },
            Expression::If { condition, then_branch, else_branch } => {
                let mut out = self.line("If Statement:");
                let saved = self.deeper();
                out.append(self.line("Condition:").as_str());
                out.append(self.print_expression(condition).as_str());
                out.append(self.line("Then Branch:").as_str());
                out.append(self.print_expression(then_branch).as_str());
                match else_branch {
                    Some(e2) => {
                        out.append(self.line("Else Branch:").as_str());
                        out.append(self.print_expression(e2).as_str());
                    },
                    None => {},
                }
                self.indent = saved;
                out
            },
            Expression::Loop(l) => match l {
                LoopStatement::Infinite { body } => {
                    let mut out = self.line("Infinite Loop:");
                    let saved = self.deeper();
                    out.append(self.print_expression(body).as_str());
                    self.indent = saved;
                    out
                },
                LoopStatement::While { condition, body } => {
                    let mut out = self.line("While Loop:");
                    let saved = self.deeper();
                    out.append(self.line("Condition:").as_str());
                    out.append(self.print_expression(condition).as_str());
                    out.append(self.line("Body: ").as_str());
                    out.append(self.print_expression(body).as_str());
                    self.indent = saved;
                    out
                },
                LoopStatement::Iterator { mutability, iterator, iterable, body } => {
                    let mut out = self.line("Iterator Loop:");
                    let saved = self.deeper();
                    let mu = match mutability {
                        VariableMutability::Mutable => "Mutable",
                        VariableMutability::Immutable => "Immutable",
                    };
                    out.append(self.line_with("Mutability: ", mu).as_str());
                    out.append(self.line_with("Iterator: ", iterator.as_str()).as_str());
                    out.append(self.line("Iterable:").as_str());
                    out.append(self.print_expression(iterable).as_str());
                    out.append(self.line("Body: ").as_str());
                    out.append(self.print_expression(body).as_str());
                    self.indent = saved;
                    out
                },
            },
            Expression::Array { array_type, size, initial_value } => {
                let mut out = self.line("Array:");
                let saved = self.deeper();
                out.append(self.line_with("Type: ", self.print_type(array_type).as_str()).as_str());
                out.append(self.line("Size:").as_str());
                out.append(self.print_expression(size).as_str());
                out.append(self.line("Initial Value:").as_str());
                out.append(self.print_expression(initial_value).as_str());
                self.indent = saved;
                out
            },
            Expression::StructCreation { struct_type, fields } => {
                let mut out = self.line("Struct Creation:");
                let saved = self.deeper();
                out.append(
                    self.line_with("Type: ", self.print_type(struct_type).as_str()).as_str(),
                );
                let mut i: usize = 0;
                while i < fields.len()
                    invariant
                        self.indent == (if saved < 1000000 { (saved + 1) as int } else { saved as int }),
                    decreases fields@.len() - i,
                {
                    proof {
                        vstd::std_specs::vec::axiom_vec_index_decreases(*fields, i as int);
                    }
                    out.append(self.line_with("Field: ", fields[i].0.as_str()).as_str());
                    out.append(self.print_expression(&fields[i].1).as_str());
                    i = i + 1;
                }
                self.indent = saved;
                out
            },
        }
    }
}

} // verus!
