//! Parsed assembly statements, as the assembler front end hands them to
//! the bytecode compiler.

use vstd::prelude::*;

verus! {

/// An operand of a command: a literal number, a bare word (used for the
/// condition flags of a jump), or a `$label` reference.
#[derive(Debug, PartialEq, Eq)]
pub enum Argument {
    LiteralNumber(i64),
    LiteralStr(String),
    Reference(String),
}

/// One line of an assembly program.
#[derive(Debug, PartialEq, Eq)]
pub enum Statement {
    /// A `#` or `;` comment, with its text.
    Comment(String),
    EmptyLine,
    /// `name:` — binds the label to the index of the next opcode.
    LabelDefinition(String),
    /// `name = value` — binds the label to a literal value.
    ValueDeclaration(String, i64),
    /// A command with no operands.
    Command0(String),
    /// A command with one operand.
    Command1(String, Argument),
    /// A command with two operands.
    Command2(String, Argument, Argument),
}

impl Clone for Argument {
    /// Cloning keeps the argument's kind and contents.
    fn clone(&self) -> (r: Argument)
        ensures
            r == *self,
    {
        match self {
            Argument::LiteralNumber(n) => Argument::LiteralNumber(*n),
            Argument::LiteralStr(s) => Argument::LiteralStr(s.clone()),
            Argument::Reference(s) => Argument::Reference(s.clone()),
        }
    }
}

impl Clone for Statement {
    /// Cloning keeps the statement's kind and contents.
    fn clone(&self) -> (r: Statement)
        ensures
            r == *self,
    {
        match self {
            Statement::Comment(s) => Statement::Comment(s.clone()),
            Statement::EmptyLine => Statement::EmptyLine,
            Statement::LabelDefinition(s) => Statement::LabelDefinition(s.clone()),
            Statement::ValueDeclaration(s, v) => Statement::ValueDeclaration(s.clone(), *v),
            Statement::Command0(c) => Statement::Command0(c.clone()),
            Statement::Command1(c, a) => Statement::Command1(c.clone(), a.clone()),
            Statement::Command2(c, a, b) => Statement::Command2(c.clone(), a.clone(), b.clone()),
        }
    }
}

} // verus!
