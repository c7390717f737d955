use flock::compile_action;
use flock::parse_jump_arg;
use flock::resolve;
use flock::to_bytecode;
use flock::Argument;
use flock::CompilationError;
use flock::ConditionFlags;
use flock::OpCode;
use flock::Statement;

fn cmd0(name: &str) -> Statement {
    Statement::Command0(name.to_string())
}

fn cmd1(name: &str, arg: Argument) -> Statement {
    Statement::Command1(name.to_string(), arg)
}

fn num(v: i64) -> Argument {
    Argument::LiteralNumber(v)
}

fn reference(name: &str) -> Argument {
    Argument::Reference(name.to_string())
}

fn word(text: &str) -> Argument {
    Argument::LiteralStr(text.to_string())
}

fn ops_of(statements: Vec<Statement>) -> Vec<OpCode> {
    let bytecode = to_bytecode(&statements).unwrap();
    let mut ops = Vec::new();
    let mut i = 0;
    while let Some(op) = bytecode.get(i) {
        ops.push(*op);
        i += 1;
    }
    ops
}

#[test]
fn simple_program_compiles() {
    let ops = ops_of(vec![
        cmd1("PUSH", num(2)),
        cmd1("PUSH", num(3)),
        cmd0("ADD"),
        cmd0("HALT"),
    ]);
    assert_eq!(ops, vec![OpCode::Push(2), OpCode::Push(3), OpCode::Add, OpCode::Halt]);
}

#[test]
fn comments_and_blank_lines_emit_nothing() {
    let ops = ops_of(vec![
        Statement::Comment(" a note".to_string()),
        Statement::EmptyLine,
        cmd0("HALT"),
    ]);
    assert_eq!(ops, vec![OpCode::Halt]);
}

#[test]
fn label_resolves_to_opcode_index() {
    // The label binds to the index of the next opcode, skipping
    // non-emitting lines; references may point forward.
    let ops = ops_of(vec![
        cmd1("JMP", reference("end")),
        cmd0("ADD"),
        Statement::Comment("x".to_string()),
        Statement::LabelDefinition("end".to_string()),
        cmd0("HALT"),
    ]);
    assert_eq!(
        ops,
        vec![
            OpCode::Jump(ConditionFlags::empty(), Some(2)),
            OpCode::Add,
            OpCode::Halt,
        ]
    );
}

#[test]
fn value_declaration_binds_literal() {
    let ops = ops_of(vec![
        Statement::ValueDeclaration("x".to_string(), 5),
        cmd1("PUSH", reference("x")),
        cmd0("HALT"),
    ]);
    assert_eq!(ops, vec![OpCode::Push(5), OpCode::Halt]);
}

#[test]
fn later_binding_wins() {
    let ops = ops_of(vec![
        Statement::ValueDeclaration("x".to_string(), 1),
        Statement::ValueDeclaration("x".to_string(), 2),
        cmd1("PUSH", reference("x")),
    ]);
    assert_eq!(ops, vec![OpCode::Push(2)]);
}

#[test]
fn all_plain_commands() {
    let ops = ops_of(vec![
        cmd0("ADD"),
        cmd0("DUMP_DEBUG"),
        cmd0("JMP"),
        cmd0("JSR"),
        cmd0("DUP"),
        cmd0("RET"),
        cmd0("POP"),
        cmd0("FORK"),
        cmd0("HALT"),
        cmd0("PANIC"),
    ]);
    assert_eq!(
        ops,
        vec![
            OpCode::Add,
            OpCode::DumpDebug,
            OpCode::Jump(ConditionFlags::empty(), None),
            OpCode::JumpToSubroutine(None),
            OpCode::Duplicate,
            OpCode::Return,
            OpCode::Pop,
            OpCode::Fork,
            OpCode::Halt,
            OpCode::Panic,
        ]
    );
}

#[test]
fn jump_with_flags_pops_target() {
    let ops = ops_of(vec![cmd1("JMP", word("zf"))]);
    assert_eq!(
        ops,
        vec![OpCode::Jump(ConditionFlags::zero().union(ConditionFlags::fork()), None)]
    );
}

#[test]
fn two_operand_jump() {
    let ops = ops_of(vec![
        Statement::LabelDefinition("top".to_string()),
        cmd0("ADD"),
        Statement::Command2("JMP".to_string(), word("z"), reference("top")),
    ]);
    assert_eq!(ops, vec![OpCode::Add, OpCode::Jump(ConditionFlags::zero(), Some(0))]);
}

#[test]
fn memory_commands_take_addresses() {
    let ops = ops_of(vec![
        Statement::ValueDeclaration("cell".to_string(), 0x100),
        cmd1("STORE", reference("cell")),
        cmd1("STORE_REL", num(0x10)),
        cmd1("LOAD", num(0x100)),
        cmd1("LOAD_REL", num(0x20)),
        cmd1("JOIN", num(1)),
        cmd1("BURY", num(2)),
        cmd1("DREDGE", num(1)),
    ]);
    assert_eq!(
        ops,
        vec![
            OpCode::Store(0x100),
            OpCode::StoreRelative(0x10),
            OpCode::Load(0x100),
            OpCode::LoadRelative(0x20),
            OpCode::Join(1),
            OpCode::Bury(2),
            OpCode::Dredge(1),
        ]
    );
}

#[test]
fn jump_and_subroutine_references() {
    let ops = ops_of(vec![
        Statement::LabelDefinition("start".to_string()),
        cmd1("JSR", reference("sub")),
        cmd1("JMP", reference("start")),
        Statement::LabelDefinition("sub".to_string()),
        cmd0("RET"),
    ]);
    assert_eq!(
        ops,
        vec![
            OpCode::JumpToSubroutine(Some(2)),
            OpCode::Jump(ConditionFlags::empty(), Some(0)),
            OpCode::Return,
        ]
    );
}

#[test]
fn unresolved_reference_is_an_error() {
    let result = to_bytecode(&vec![cmd1("PUSH", reference("nowhere"))]);
    assert_eq!(
        result.unwrap_err(),
        CompilationError::UnresolvedReference("nowhere".to_string())
    );
}

#[test]
fn unknown_command_is_an_error() {
    let result = to_bytecode(&vec![cmd0("FROB")]);
    assert_eq!(result.unwrap_err(), CompilationError::UnrecognizedStatement(cmd0("FROB")));
}

#[test]
fn bad_condition_letter_is_an_error() {
    let result = to_bytecode(&vec![cmd1("JMP", word("q"))]);
    assert_eq!(result.unwrap_err(), CompilationError::UnrecognizedConditionFlags('q'));
}

#[test]
fn unrecognized_statement_outranks_unresolved_reference() {
    // The first pass sees the unknown command before the second pass
    // would see the dangling reference.
    let result = to_bytecode(&vec![cmd1("PUSH", reference("nowhere")), cmd0("FROB")]);
    assert_eq!(result.unwrap_err(), CompilationError::UnrecognizedStatement(cmd0("FROB")));
}

#[test]
fn parse_jump_arg_parses_letters() {
    assert_eq!(parse_jump_arg("z").unwrap(), ConditionFlags::zero());
    assert_eq!(parse_jump_arg("f").unwrap(), ConditionFlags::fork());
    assert_eq!(
        parse_jump_arg("zf").unwrap(),
        ConditionFlags::zero().union(ConditionFlags::fork())
    );
    assert_eq!(parse_jump_arg("").unwrap(), ConditionFlags::empty());
    assert_eq!(
        parse_jump_arg("zx").unwrap_err(),
        CompilationError::UnrecognizedConditionFlags('x')
    );
}

#[test]
fn resolve_literal_and_reference() {
    let table = vec![("a".to_string(), 3i64), ("b".to_string(), 4i64)];
    assert_eq!(resolve(&num(9), &table).unwrap(), 9);
    assert_eq!(resolve(&reference("b"), &table).unwrap(), 4);
    assert_eq!(
        resolve(&reference("c"), &table).unwrap_err(),
        CompilationError::UnresolvedReference("c".to_string())
    );
}

#[test]
fn compile_action_emits_nothing_for_labels() {
    let table = Vec::new();
    let action = compile_action(&Statement::LabelDefinition("x".to_string()), &table);
    assert_eq!(action.unwrap(), None);
    let action = compile_action(&cmd1("PUSH", num(1)), &table);
    assert_eq!(action.unwrap(), Some(OpCode::Push(1)));
}

#[test]
fn compiled_program_runs() {
    // End to end: assemble a program and run it on the machine.
    let statements = vec![
        cmd1("PUSH", num(2)),
        cmd1("PUSH", num(3)),
        cmd0("ADD"),
        cmd0("HALT"),
    ];
    let bytecode = to_bytecode(&statements).unwrap();
    let result = flock::run(bytecode);
    assert!(result.is_ok());
}

#[test]
fn bare_word_operand_is_unrecognized() {
    let result = to_bytecode(&vec![cmd1("PUSH", word("oops"))]);
    assert!(matches!(result.unwrap_err(), CompilationError::UnrecognizedStatement(_)));
}
