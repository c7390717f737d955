//! The bytecode compiler: turns parsed statements into a bytecode image.
//!
//! Compilation is two passes. The first pass walks the statements,
//! checks that each is a recognizable command, counts emitted opcodes,
//! and builds the label table: a label definition binds its name to the
//! index of the next opcode, a value declaration binds its name to a
//! literal; a later binding of the same name wins. The second pass turns
//! each command into its opcode, resolving `$label` references against
//! the finished table, so references may point forward.

use vstd::prelude::*;

use crate::bytecode::ByteCode;
use crate::bytecode::ConditionFlags;
use crate::bytecode::OpCode;
use crate::statement::Argument;
use crate::statement::Statement;

verus! {

/// The ways compilation can fail.
#[derive(Debug, PartialEq, Eq)]
pub enum CompilationError {
    /// A `$label` reference with no definition.
    UnresolvedReference(String),
    /// A statement that is no known command, with the statement itself.
    UnrecognizedStatement(Statement),
    /// A jump condition letter other than `z` or `f`.
    UnrecognizedConditionFlags(char),
}

impl Clone for CompilationError {
    /// Cloning keeps the error's kind and contents.
    fn clone(&self) -> (r: CompilationError)
        ensures
            r == *self,
    {
        match self {
            CompilationError::UnresolvedReference(s) => CompilationError::UnresolvedReference(
                s.clone(),
            ),
            CompilationError::UnrecognizedStatement(s) => CompilationError::UnrecognizedStatement(
                s.clone(),
            ),
            CompilationError::UnrecognizedConditionFlags(c) => {
                CompilationError::UnrecognizedConditionFlags(*c)
            },
        }
    }
}

/// The label table: later bindings shadow earlier ones.
pub type LabelTable = Vec<(String, i64)>;

/// The value bound to `name`, searching the newest bindings first.
pub open spec fn spec_lookup(table: Seq<(String, i64)>, name: Seq<char>) -> Option<i64>
    decreases table.len(),
{
    if table.len() == 0 {
        None
    } else if table.last().0@ == name {
        Some(table.last().1)
    } else {
        spec_lookup(table.drop_last(), name)
    }
}

/// What a `$label` reference or literal operand resolves to.
pub open spec fn spec_resolve(argument: Argument, table: Seq<(String, i64)>) -> Result<
    i64,
    CompilationError,
> {
    match argument {
        Argument::LiteralNumber(n) => Ok(n),
        Argument::Reference(name) => match spec_lookup(table, name@) {
            Some(value) => Ok(value),
            None => Err(CompilationError::UnresolvedReference(name)),
        },
        Argument::LiteralStr(s) => Err(CompilationError::UnresolvedReference(s)),
    }
}

/// The condition flags a jump argument denotes: `z` demands a zero top
/// of stack, `f` demands the forked flag; the first other letter is the
/// error.
pub open spec fn spec_jump_flags(s: Seq<char>) -> Result<ConditionFlags, char>
    decreases s.len(),
{
    if s.len() == 0 {
        Ok(ConditionFlags { zero: false, fork: false })
    } else {
        match spec_jump_flags(s.drop_last()) {
            Err(c) => Err(c),
            Ok(flags) => {
                if s.last() == 'z' {
                    Ok(ConditionFlags { zero: true, fork: flags.fork })
                } else if s.last() == 'f' {
                    Ok(ConditionFlags { zero: flags.zero, fork: true })
                } else {
                    Err(s.last())
                }
            },
        }
    }
}

/// Whether a statement is a command that emits an opcode (the count of
/// these before a label definition is the label's value).
pub open spec fn spec_emits(s: Statement) -> bool {
    s is Command0 || s is Command1 || s is Command2
}

/// How many opcodes a sequence of statements emits.
pub open spec fn spec_count_ops(stmts: Seq<Statement>) -> int
    decreases stmts.len(),
{
    if stmts.len() == 0 {
        0
    } else {
        spec_count_ops(stmts.drop_last()) + if spec_emits(stmts.last()) {
            1int
        } else {
            0int
        }
    }
}

/// The label table a sequence of statements defines.
pub open spec fn spec_table(stmts: Seq<Statement>) -> Seq<(String, i64)>
    decreases stmts.len(),
{
    if stmts.len() == 0 {
        Seq::empty()
    } else {
        let prefix = spec_table(stmts.drop_last());
        match stmts.last() {
            Statement::LabelDefinition(name) => prefix.push(
                (name, 0i64.wrapping_add_unsigned(spec_count_ops(stmts.drop_last()) as u64)),
            ),
            Statement::ValueDeclaration(name, value) => prefix.push((name, value)),
            _ => prefix,
        }
    }
}

/// Whether a statement is one of the known command shapes. An operand
/// that would be meaningless for the command (a bare word where a number
/// or label is needed) makes the statement unrecognized.
pub open spec fn spec_recognized(s: Statement) -> bool {
    match s {
        Statement::Comment(_) => true,
        Statement::EmptyLine => true,
        Statement::LabelDefinition(_) => true,
        Statement::ValueDeclaration(_, _) => true,
        Statement::Command0(c) => {
            ||| c@ == "ADD"@
            ||| c@ == "DUMP_DEBUG"@
            ||| c@ == "JMP"@
            ||| c@ == "JSR"@
            ||| c@ == "DUP"@
            ||| c@ == "RET"@
            ||| c@ == "POP"@
            ||| c@ == "FORK"@
            ||| c@ == "HALT"@
            ||| c@ == "PANIC"@
        },
        Statement::Command1(c, arg) => {
            ||| ((c@ == "PUSH"@ || c@ == "BURY"@ || c@ == "DREDGE"@ || c@ == "STORE"@ || c@
                == "STORE_REL"@ || c@ == "LOAD"@ || c@ == "LOAD_REL"@) && !(arg is LiteralStr))
            ||| (c@ == "JMP"@ && (arg is LiteralStr || arg is Reference))
            ||| (c@ == "JSR"@ && arg is Reference)
            ||| (c@ == "JOIN"@ && arg is LiteralNumber)
        },
        Statement::Command2(c, arg0, arg1) => c@ == "JMP"@ && arg0 is LiteralStr && arg1
            is Reference,
    }
}

/// The error the first pass raises for one statement, if any: an
/// unrecognized command, or bad condition flags on a one-operand jump
/// (a two-operand jump's flags are parsed in the second pass, after its
/// target resolves).
pub open spec fn spec_statement_error(s: Statement) -> Option<CompilationError> {
    if !spec_recognized(s) {
        Some(CompilationError::UnrecognizedStatement(s))
    } else {
        match s {
            Statement::Command1(c, Argument::LiteralStr(flags)) => {
                if c@ == "JMP"@ {
                    match spec_jump_flags(flags@) {
                        Err(bad) => Some(CompilationError::UnrecognizedConditionFlags(bad)),
                        Ok(_) => None,
                    }
                } else {
                    None
                }
            },
            _ => None,
        }
    }
}

/// The first error of the first pass over a sequence of statements.
pub open spec fn spec_pass1_error(stmts: Seq<Statement>) -> Option<CompilationError>
    decreases stmts.len(),
{
    if stmts.len() == 0 {
        None
    } else {
        match spec_pass1_error(stmts.drop_last()) {
            Some(e) => Some(e),
            None => spec_statement_error(stmts.last()),
        }
    }
}

/// The opcode a recognized statement compiles to against a finished
/// label table, `None` for the statements that emit nothing, or the
/// second pass's error.
pub open spec fn spec_compile_action(s: Statement, table: Seq<(String, i64)>) -> Result<
    Option<OpCode>,
    CompilationError,
> {
    match s {
        Statement::Comment(_) => Ok(None),
        Statement::EmptyLine => Ok(None),
        Statement::LabelDefinition(_) => Ok(None),
        Statement::ValueDeclaration(_, _) => Ok(None),
        Statement::Command0(c) => {
            if c@ == "ADD"@ {
                Ok(Some(OpCode::Add))
            } else if c@ == "DUMP_DEBUG"@ {
                Ok(Some(OpCode::DumpDebug))
            } else if c@ == "JMP"@ {
                Ok(Some(OpCode::Jump(ConditionFlags { zero: false, fork: false }, None)))
            } else if c@ == "JSR"@ {
                Ok(Some(OpCode::JumpToSubroutine(None)))
            } else if c@ == "DUP"@ {
                Ok(Some(OpCode::Duplicate))
            } else if c@ == "RET"@ {
                Ok(Some(OpCode::Return))
            } else if c@ == "POP"@ {
                Ok(Some(OpCode::Pop))
            } else if c@ == "FORK"@ {
                Ok(Some(OpCode::Fork))
            } else if c@ == "HALT"@ {
                Ok(Some(OpCode::Halt))
            } else if c@ == "PANIC"@ {
                Ok(Some(OpCode::Panic))
            } else {
                Err(CompilationError::UnrecognizedStatement(s))
            }
        },
        Statement::Command1(c, arg) => {
            if c@ == "PUSH"@ && !(arg is LiteralStr) {
                match spec_resolve(arg, table) {
                    Ok(v) => Ok(Some(OpCode::Push(v))),
                    Err(e) => Err(e),
                }
            } else if c@ == "JMP"@ && arg is LiteralStr {
                match spec_jump_flags(arg->LiteralStr_0@) {
                    Ok(flags) => Ok(Some(OpCode::Jump(flags, None))),
                    Err(bad) => Err(CompilationError::UnrecognizedConditionFlags(bad)),
                }
            } else if c@ == "JMP"@ && arg is Reference {
                match spec_resolve(arg, table) {
                    Ok(v) => Ok(
                        Some(OpCode::Jump(ConditionFlags { zero: false, fork: false }, Some(v))),
                    ),
                    Err(e) => Err(e),
                }
            } else if c@ == "JSR"@ && arg is Reference {
                match spec_resolve(arg, table) {
                    Ok(v) => Ok(Some(OpCode::JumpToSubroutine(Some(v)))),
                    Err(e) => Err(e),
                }
            } else if c@ == "BURY"@ && !(arg is LiteralStr) {
                match spec_resolve(arg, table) {
                    Ok(v) => Ok(Some(OpCode::Bury(v))),
                    Err(e) => Err(e),
                }
            } else if c@ == "DREDGE"@ && !(arg is LiteralStr) {
                match spec_resolve(arg, table) {
                    Ok(v) => Ok(Some(OpCode::Dredge(v))),
                    Err(e) => Err(e),
                }
            } else if c@ == "JOIN"@ && arg is LiteralNumber {
                Ok(Some(OpCode::Join(arg->LiteralNumber_0)))
            } else if c@ == "STORE"@ && !(arg is LiteralStr) {
                match spec_resolve(arg, table) {
                    Ok(v) => Ok(Some(OpCode::Store(0u64.wrapping_add_signed(v)))),
                    Err(e) => Err(e),
                }
            } else if c@ == "STORE_REL"@ && !(arg is LiteralStr) {
                match spec_resolve(arg, table) {
                    Ok(v) => Ok(Some(OpCode::StoreRelative(0u64.wrapping_add_signed(v)))),
                    Err(e) => Err(e),
                }
            } else if c@ == "LOAD"@ && !(arg is LiteralStr) {
                match spec_resolve(arg, table) {
                    Ok(v) => Ok(Some(OpCode::Load(0u64.wrapping_add_signed(v)))),
                    Err(e) => Err(e),
                }
            } else if c@ == "LOAD_REL"@ && !(arg is LiteralStr) {
                match spec_resolve(arg, table) {
                    Ok(v) => Ok(Some(OpCode::LoadRelative(0u64.wrapping_add_signed(v)))),
                    Err(e) => Err(e),
                }
            } else {
                Err(CompilationError::UnrecognizedStatement(s))
            }
        },
        Statement::Command2(c, arg0, arg1) => {
            if c@ == "JMP"@ && arg0 is LiteralStr && arg1 is Reference {
                // The target resolves before the flags parse, so an
                // unresolved reference outranks bad flags here.
                match spec_resolve(arg1, table) {
                    Ok(v) => match spec_jump_flags(arg0->LiteralStr_0@) {
                        Ok(flags) => Ok(Some(OpCode::Jump(flags, Some(v)))),
                        Err(bad) => Err(CompilationError::UnrecognizedConditionFlags(bad)),
                    },
                    Err(e) => Err(e),
                }
            } else {
                Err(CompilationError::UnrecognizedStatement(s))
            }
        },
    }
}

/// The opcodes a sequence of statements compiles to against a finished
/// label table, or the second pass's first error.
pub open spec fn spec_compile_all(stmts: Seq<Statement>, table: Seq<(String, i64)>) -> Result<
    Seq<OpCode>,
    CompilationError,
>
    decreases stmts.len(),
{
    if stmts.len() == 0 {
        Ok(Seq::empty())
    } else {
        match spec_compile_all(stmts.drop_last(), table) {
            Err(e) => Err(e),
            Ok(prefix) => match spec_compile_action(stmts.last(), table) {
                Err(e) => Err(e),
                Ok(None) => Ok(prefix),
                Ok(Some(op)) => Ok(prefix.push(op)),
            },
        }
    }
}

/// What compiling a program comes to: the first pass's error if it has
/// one, else the second pass's outcome against the program's table.
pub open spec fn spec_to_bytecode(stmts: Seq<Statement>) -> Result<Seq<OpCode>, CompilationError> {
    match spec_pass1_error(stmts) {
        Some(e) => Err(e),
        None => spec_compile_all(stmts, spec_table(stmts)),
    }
}

/// True iff the string and the literal hold the same characters.
fn str_is(s: &String, lit: &str) -> (r: bool)
    ensures
        r == (s@ == lit@),
{
    let owned: String = lit.to_owned();
    *s == owned
}

/// Parse a jump-condition argument: `z` demands a zero top of stack,
/// `f` demands the forked flag; any other letter is an error naming it.
pub fn parse_jump_arg(arg: &str) -> (r: Result<ConditionFlags, CompilationError>)
    ensures
        (match spec_jump_flags(arg@) {
            Ok(flags) => r == Ok::<ConditionFlags, CompilationError>(flags),
            Err(bad) => r == Err::<ConditionFlags, CompilationError>(
                CompilationError::UnrecognizedConditionFlags(bad),
            ),
        }),
{
    let mut flags = ConditionFlags::empty();
    let n = arg.unicode_len();
    let mut i: usize = 0;
    while i < n
        invariant
            0 <= i <= n,
            n == arg@.len(),
            spec_jump_flags(arg@.take(i as int)) == Ok::<ConditionFlags, char>(flags),
        decreases n - i,
    {
        let c = arg.get_char(i);
        proof {
            assert(arg@.take(i + 1).drop_last() =~= arg@.take(i as int));
            assert(arg@.take(i + 1).last() == arg@[i as int]);
        }
        if c == 'z' {
            flags = ConditionFlags { zero: true, fork: flags.fork };
        } else if c == 'f' {
            flags = ConditionFlags { zero: flags.zero, fork: true };
        } else {
            proof {
                lemma_jump_flags_prefix_error(arg@, i + 1);
            }
            return Err(CompilationError::UnrecognizedConditionFlags(c));
        }
        i += 1;
    }
    proof {
        assert(arg@.take(n as int) =~= arg@);
    }
    Ok(flags)
}

/// An error in a prefix of the flags is the error of the whole string.
proof fn lemma_jump_flags_prefix_error(s: Seq<char>, k: int)
    requires
        0 <= k <= s.len(),
        spec_jump_flags(s.take(k)) is Err,
    ensures
        spec_jump_flags(s) == spec_jump_flags(s.take(k)),
    decreases s.len() - k,
{
    if k < s.len() {
        assert(s.take(k + 1).drop_last() =~= s.take(k));
        lemma_jump_flags_prefix_error(s, k + 1);
    } else {
        assert(s.take(k) =~= s);
    }
}

/// The value bound to `name` in the label table, newest binding first.
fn lookup(table: &LabelTable, name: &String) -> (r: Option<i64>)
    ensures
        r == spec_lookup(table@, name@),
{
    let mut i = table.len();
    proof {
        assert(table@.take(i as int) =~= table@);
    }
    while i > 0
        invariant
            i <= table@.len(),
            spec_lookup(table@, name@) == spec_lookup(table@.take(i as int), name@),
        decreases i,
    {
        i = i - 1;
        proof {
            assert(table@.take(i + 1).drop_last() =~= table@.take(i as int));
            assert(table@.take(i + 1).last() == table@[i as int]);
        }
        let entry = &table[i];
        if str_is(&entry.0, name.as_str()) {
            return Some(entry.1);
        }
    }
    None
}

/// Resolve an operand: a literal number is itself; a `$label` reference
/// is its table binding, or an `UnresolvedReference` error naming it.
/// Bare words never reach resolution: the first pass rejects them.
pub fn resolve(argument: &Argument, label_table: &LabelTable) -> (r: Result<
    i64,
    CompilationError,
>)
    requires
        !(argument is LiteralStr),
    ensures
        r == spec_resolve(*argument, label_table@),
{
    match argument {
        Argument::LiteralNumber(n) => Ok(*n),
        Argument::Reference(name) => match lookup(label_table, name) {
            Some(value) => Ok(value),
            None => Err(CompilationError::UnresolvedReference(name.clone())),
        },
        Argument::LiteralStr(s) => Err(CompilationError::UnresolvedReference(s.clone())),
    }
}

/// The first pass's verdict on one statement: recognize the command
/// shape, and parse the flags of a one-operand jump.
fn check_statement(statement: &Statement) -> (r: Result<(), CompilationError>)
    ensures
        (match spec_statement_error(*statement) {
            Some(e) => r == Err::<(), CompilationError>(e),
            None => r == Ok::<(), CompilationError>(()),
        }),
{
    match statement {
        Statement::Comment(_) => Ok(()),
        Statement::EmptyLine => Ok(()),
        Statement::LabelDefinition(_) => Ok(()),
        Statement::ValueDeclaration(_, _) => Ok(()),
        Statement::Command0(c) => {
            if str_is(c, "ADD") || str_is(c, "DUMP_DEBUG") || str_is(c, "JMP") || str_is(c, "JSR")
                || str_is(c, "DUP") || str_is(c, "RET") || str_is(c, "POP") || str_is(c, "FORK")
                || str_is(c, "HALT") || str_is(c, "PANIC") {
                Ok(())
            } else {
                Err(CompilationError::UnrecognizedStatement(statement.clone()))
            }
        },
        Statement::Command1(c, arg) => {
            let plain_operand = !(matches!(arg, Argument::LiteralStr(_)));
            if (str_is(c, "PUSH") || str_is(c, "BURY") || str_is(c, "DREDGE") || str_is(c, "STORE")
                || str_is(c, "STORE_REL") || str_is(c, "LOAD") || str_is(c, "LOAD_REL"))
                && plain_operand {
                Ok(())
            } else if str_is(c, "JMP") && (matches!(arg, Argument::LiteralStr(_)) || matches!(
                arg,
                Argument::Reference(_),
            )) {
                match arg {
                    Argument::LiteralStr(flags) => match parse_jump_arg(flags.as_str()) {
                        Ok(_) => Ok(()),
                        Err(e) => Err(e),
                    },
                    _ => Ok(()),
                }
            } else if str_is(c, "JSR") && matches!(arg, Argument::Reference(_)) {
                Ok(())
            } else if str_is(c, "JOIN") && matches!(arg, Argument::LiteralNumber(_)) {
                Ok(())
            } else {
                Err(CompilationError::UnrecognizedStatement(statement.clone()))
            }
        },
        Statement::Command2(c, arg0, arg1) => {
            if str_is(c, "JMP") && matches!(arg0, Argument::LiteralStr(_)) && matches!(
                arg1,
                Argument::Reference(_),
            ) {
                Ok(())
            } else {
                Err(CompilationError::UnrecognizedStatement(statement.clone()))
            }
        },
    }
}

/// The second pass on one statement: its opcode against the finished
/// label table, `None` for statements that emit nothing.
pub fn compile_action(statement: &Statement, label_table: &LabelTable) -> (r: Result<
    Option<OpCode>,
    CompilationError,
>)
    ensures
        r == spec_compile_action(*statement, label_table@),
{
    match statement {
        Statement::Comment(_) => Ok(None),
        Statement::EmptyLine => Ok(None),
        Statement::LabelDefinition(_) => Ok(None),
        Statement::ValueDeclaration(_, _) => Ok(None),
        Statement::Command0(c) => {
            if str_is(c, "ADD") {
                Ok(Some(OpCode::Add))
            } else if str_is(c, "DUMP_DEBUG") {
                Ok(Some(OpCode::DumpDebug))
            } else if str_is(c, "JMP") {
                Ok(Some(OpCode::Jump(ConditionFlags::empty(), None)))
            } else if str_is(c, "JSR") {
                Ok(Some(OpCode::JumpToSubroutine(None)))
            } else if str_is(c, "DUP") {
                Ok(Some(OpCode::Duplicate))
            } else if str_is(c, "RET") {
                Ok(Some(OpCode::Return))
            } else if str_is(c, "POP") {
                Ok(Some(OpCode::Pop))
            } else if str_is(c, "FORK") {
                Ok(Some(OpCode::Fork))
            } else if str_is(c, "HALT") {
                Ok(Some(OpCode::Halt))
            } else if str_is(c, "PANIC") {
                Ok(Some(OpCode::Panic))
            } else {
                Err(CompilationError::UnrecognizedStatement(statement.clone()))
            }
        },
        Statement::Command1(c, arg) => {
            let plain_operand = !(matches!(arg, Argument::LiteralStr(_)));
            if str_is(c, "PUSH") && plain_operand {
                match resolve(arg, label_table) {
                    Ok(v) => Ok(Some(OpCode::Push(v))),
                    Err(e) => Err(e),
                }
            } else if str_is(c, "JMP") && matches!(arg, Argument::LiteralStr(_)) {
                match arg {
                    Argument::LiteralStr(flag_text) => match parse_jump_arg(flag_text.as_str()) {
                        Ok(flags) => Ok(Some(OpCode::Jump(flags, None))),
                        Err(e) => Err(e),
                    },
                    _ => Err(CompilationError::UnrecognizedStatement(statement.clone())),
                }
            } else if str_is(c, "JMP") && matches!(arg, Argument::Reference(_)) {
                match resolve(arg, label_table) {
                    Ok(v) => Ok(Some(OpCode::Jump(ConditionFlags::empty(), Some(v)))),
                    Err(e) => Err(e),
                }
            } else if str_is(c, "JSR") && matches!(arg, Argument::Reference(_)) {
                match resolve(arg, label_table) {
                    Ok(v) => Ok(Some(OpCode::JumpToSubroutine(Some(v)))),
                    Err(e) => Err(e),
                }
            } else if str_is(c, "BURY") && plain_operand {
                match resolve(arg, label_table) {
                    Ok(v) => Ok(Some(OpCode::Bury(v))),
                    Err(e) => Err(e),
                }
            } else if str_is(c, "DREDGE") && plain_operand {
                match resolve(arg, label_table) {
                    Ok(v) => Ok(Some(OpCode::Dredge(v))),
                    Err(e) => Err(e),
                }
            } else if str_is(c, "JOIN") && matches!(arg, Argument::LiteralNumber(_)) {
                match arg {
                    Argument::LiteralNumber(n) => Ok(Some(OpCode::Join(*n))),
                    _ => Err(CompilationError::UnrecognizedStatement(statement.clone())),
                }
            } else if str_is(c, "STORE") && plain_operand {
                match resolve(arg, label_table) {
                    Ok(v) => Ok(Some(OpCode::Store(0u64.wrapping_add_signed(v)))),
                    Err(e) => Err(e),
                }
            } else if str_is(c, "STORE_REL") && plain_operand {
                match resolve(arg, label_table) {
                    Ok(v) => Ok(Some(OpCode::StoreRelative(0u64.wrapping_add_signed(v)))),
                    Err(e) => Err(e),
                }
            } else if str_is(c, "LOAD") && plain_operand {
                match resolve(arg, label_table) {
                    Ok(v) => Ok(Some(OpCode::Load(0u64.wrapping_add_signed(v)))),
                    Err(e) => Err(e),
                }
            } else if str_is(c, "LOAD_REL") && plain_operand {
                match resolve(arg, label_table) {
                    Ok(v) => Ok(Some(OpCode::LoadRelative(0u64.wrapping_add_signed(v)))),
                    Err(e) => Err(e),
                }
            } else {
                Err(CompilationError::UnrecognizedStatement(statement.clone()))
            }
        },
        Statement::Command2(c, arg0, arg1) => {
            if str_is(c, "JMP") && matches!(arg0, Argument::LiteralStr(_)) && matches!(
                arg1,
                Argument::Reference(_),
            ) {
                match resolve(arg1, label_table) {
                    Ok(v) => match arg0 {
                        Argument::LiteralStr(flag_text) => {
                            match parse_jump_arg(flag_text.as_str()) {
                                Ok(flags) => Ok(Some(OpCode::Jump(flags, Some(v)))),
                                Err(e) => Err(e),
                            }
                        },
                        _ => Err(CompilationError::UnrecognizedStatement(statement.clone())),
                    },
                    Err(e) => Err(e),
                }
            } else {
                Err(CompilationError::UnrecognizedStatement(statement.clone()))
            }
        },
    }
}

/// Compile a program: check every statement and build the label table,
/// then emit every command's opcode with references resolved against the
/// finished table. The result is exactly [`spec_to_bytecode`] of the
/// statements.
pub fn to_bytecode(statements: &Vec<Statement>) -> (r: Result<ByteCode, CompilationError>)
    ensures
        (match spec_to_bytecode(statements@) {
            Ok(ops) => (r matches Ok(bc) && bc@ == ops),
            Err(e) => (r matches Err(e2) && e2 == e),
        }),
{
    let ghost stmts = statements@;
    let mut table: LabelTable = Vec::new();
    let mut op_count: usize = 0;
    let mut i: usize = 0;
    while i < statements.len()
        invariant
            0 <= i <= stmts.len(),
            stmts == statements@,
            spec_pass1_error(stmts.take(i as int)) is None,
            table@ == spec_table(stmts.take(i as int)),
            op_count == spec_count_ops(stmts.take(i as int)),
            op_count <= i,
        decreases statements@.len() - i,
    {
        let statement = &statements[i];
        proof {
            assert(stmts.take(i + 1).drop_last() =~= stmts.take(i as int));
            assert(stmts.take(i + 1).last() == stmts[i as int]);
        }
        match check_statement(statement) {
            Ok(()) => {},
            Err(e) => {
                proof {
                    lemma_pass1_prefix_error(stmts, i + 1);
                }
                return Err(e);
            },
        }
        match statement {
            Statement::LabelDefinition(name) => {
                table.push((name.clone(), 0i64.wrapping_add_unsigned(op_count as u64)));
            },
            Statement::ValueDeclaration(name, value) => {
                table.push((name.clone(), *value));
            },
            Statement::Command0(_) => {
                op_count += 1;
            },
            Statement::Command1(_, _) => {
                op_count += 1;
            },
            Statement::Command2(_, _, _) => {
                op_count += 1;
            },
            _ => {},
        }
        i += 1;
    }
    proof {
        assert(stmts.take(stmts.len() as int) =~= stmts);
    }
    let mut ops: Vec<OpCode> = Vec::new();
    let mut j: usize = 0;
    while j < statements.len()
        invariant
            0 <= j <= stmts.len(),
            stmts == statements@,
            spec_pass1_error(stmts) is None,
            table@ == spec_table(stmts),
            spec_compile_all(stmts.take(j as int), table@) == Ok::<Seq<OpCode>, CompilationError>(
                ops@,
            ),
        decreases statements@.len() - j,
    {
        proof {
            assert(stmts.take(j + 1).drop_last() =~= stmts.take(j as int));
            assert(stmts.take(j + 1).last() == stmts[j as int]);
        }
        match compile_action(&statements[j], &table) {
            Ok(Some(op)) => {
                ops.push(op);
            },
            Ok(None) => {},
            Err(e) => {
                proof {
                    lemma_compile_all_prefix_error(stmts, table@, j + 1);
                }
                return Err(e);
            },
        }
        j += 1;
    }
    proof {
        assert(stmts.take(stmts.len() as int) =~= stmts);
    }
    Ok(ByteCode::new(ops))
}

/// An error in the first pass of a prefix is the verdict on the whole
/// program.
proof fn lemma_pass1_prefix_error(stmts: Seq<Statement>, k: int)
    requires
        0 <= k <= stmts.len(),
        spec_pass1_error(stmts.take(k)) is Some,
    ensures
        spec_pass1_error(stmts) == spec_pass1_error(stmts.take(k)),
    decreases stmts.len() - k,
{
    if k < stmts.len() {
        assert(stmts.take(k + 1).drop_last() =~= stmts.take(k));
        lemma_pass1_prefix_error(stmts, k + 1);
    } else {
        assert(stmts.take(k) =~= stmts);
    }
}

/// An error in the second pass of a prefix is the verdict on the whole
/// program.
proof fn lemma_compile_all_prefix_error(stmts: Seq<Statement>, table: Seq<(String, i64)>, k: int)
    requires
        0 <= k <= stmts.len(),
        spec_compile_all(stmts.take(k), table) is Err,
    ensures
        spec_compile_all(stmts, table) == spec_compile_all(stmts.take(k), table),
    decreases stmts.len() - k,
{
    if k < stmts.len() {
        assert(stmts.take(k + 1).drop_last() =~= stmts.take(k));
        lemma_compile_all_prefix_error(stmts, table, k + 1);
    } else {
        assert(stmts.take(k) =~= stmts);
    }
}

} // verus!
