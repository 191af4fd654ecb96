use brilirs::basic_block::BBProgram;
use brilirs::interp::{execute_main, RunReport, RunStatus};
use brilirs::positional::Position;
use brilirs::program::{
    Argument, Code, ConstOps, EffectOps, Function, Instruction, Literal, Program, Type, ValueOps,
};
use brilirs::error::InterpError;

fn names(items: &[&str]) -> Vec<String> {
    items.iter().map(|s| s.to_string()).collect()
}

fn constant(dest: &str, ty: Type, value: Literal) -> Code {
    Code::Instruction(Instruction::Constant {
        op: ConstOps::Const,
        dest: dest.to_string(),
        const_type: ty,
        value,
        pos: None,
    })
}

fn value(op: ValueOps, dest: &str, ty: Type, args: &[&str]) -> Code {
    Code::Instruction(Instruction::Value {
        op,
        dest: dest.to_string(),
        op_type: ty,
        args: names(args),
        funcs: vec![],
        labels: vec![],
        pos: None,
    })
}

fn value_at(op: ValueOps, dest: &str, ty: Type, args: &[&str], row: u64) -> Code {
    Code::Instruction(Instruction::Value {
        op,
        dest: dest.to_string(),
        op_type: ty,
        args: names(args),
        funcs: vec![],
        labels: vec![],
        pos: Some(Position { col: 1, row }),
    })
}

fn call_value(dest: &str, ty: Type, func: &str, args: &[&str]) -> Code {
    Code::Instruction(Instruction::Value {
        op: ValueOps::Call,
        dest: dest.to_string(),
        op_type: ty,
        args: names(args),
        funcs: names(&[func]),
        labels: vec![],
        pos: Some(Position { col: 3, row: 30 }),
    })
}

fn phi(dest: &str, ty: Type, args: &[&str], labels: &[&str]) -> Code {
    Code::Instruction(Instruction::Value {
        op: ValueOps::Phi,
        dest: dest.to_string(),
        op_type: ty,
        args: names(args),
        funcs: vec![],
        labels: names(labels),
        pos: None,
    })
}

fn effect(op: EffectOps, args: &[&str]) -> Code {
    Code::Instruction(Instruction::Effect {
        op,
        args: names(args),
        funcs: vec![],
        labels: vec![],
        pos: None,
    })
}

fn jump(label: &str) -> Code {
    Code::Instruction(Instruction::Effect {
        op: EffectOps::Jump,
        args: vec![],
        funcs: vec![],
        labels: names(&[label]),
        pos: None,
    })
}

fn branch(cond: &str, yes: &str, no: &str) -> Code {
    Code::Instruction(Instruction::Effect {
        op: EffectOps::Branch,
        args: names(&[cond]),
        funcs: vec![],
        labels: names(&[yes, no]),
        pos: None,
    })
}

fn call_effect(func: &str, args: &[&str]) -> Code {
    Code::Instruction(Instruction::Effect {
        op: EffectOps::Call,
        args: names(args),
        funcs: names(&[func]),
        labels: vec![],
        pos: None,
    })
}

fn label(name: &str) -> Code {
    Code::Label { label: name.to_string(), pos: None }
}

fn function(name: &str, args: Vec<(&str, Type)>, ret: Option<Type>, instrs: Vec<Code>) -> Function {
    Function {
        name: name.to_string(),
        args: args
            .into_iter()
            .map(|(n, t)| Argument { name: n.to_string(), arg_type: t })
            .collect(),
        return_type: ret,
        instrs,
        pos: Some(Position { col: 1, row: 1 }),
    }
}

fn program(functions: Vec<Function>) -> Program {
    Program { imports: vec![], functions }
}

fn ptr_int() -> Type {
    Type::Pointer(Box::new(Type::Int))
}

fn run(p: Program, args: &[&str]) -> RunReport {
    let bb = BBProgram::new(p).unwrap();
    execute_main(&bb, &names(args), &vec![], false, 1_000_000)
}

fn main_of(instrs: Vec<Code>) -> Program {
    program(vec![function("main", vec![], None, instrs)])
}

fn failure(report: &RunReport) -> &InterpError {
    match &report.status {
        RunStatus::Failed(e) => &e.e,
        other => panic!("expected a failure, found {:?}", other),
    }
}

fn memory_program(with_free: bool) -> Program {
    let mut body = vec![
        constant("three", Type::Int, Literal::Int(3)),
        value(ValueOps::Alloc, "v", ptr_int(), &["three"]),
        constant("x", Type::Int, Literal::Int(5)),
        effect(EffectOps::Store, &["v", "x"]),
        value(ValueOps::Load, "y", Type::Int, &["v"]),
        effect(EffectOps::Print, &["y"]),
    ];
    if with_free {
        body.push(effect(EffectOps::Free, &["v"]));
    }
    body.push(effect(EffectOps::Return, &[]));
    main_of(body)
}

#[test]
fn store_load_print_free_prints_five_and_leaves_the_heap_empty() {
    let report = run(memory_program(true), &[]);
    assert_eq!(report.out, "5\n");
    assert!(matches!(report.status, RunStatus::Finished));
}

#[test]
fn a_missing_free_prints_five_and_reports_a_leak() {
    let report = run(memory_program(false), &[]);
    assert_eq!(report.out, "5\n");
    assert!(matches!(failure(&report), InterpError::MemLeak));
    match &report.status {
        RunStatus::Failed(e) => assert_eq!(e.pos, Some(Position { col: 1, row: 1 })),
        _ => unreachable!(),
    }
}

fn branching_program() -> Program {
    program(vec![function(
        "main",
        vec![("a", Type::Int)],
        None,
        vec![
            constant("zero", Type::Int, Literal::Int(0)),
            value(ValueOps::Eq, "br_cond", Type::Bool, &["a", "zero"]),
            branch("br_cond", "zero", "nonzero"),
            label("zero"),
            effect(EffectOps::Print, &["a"]),
            effect(EffectOps::Return, &[]),
            label("nonzero"),
            constant("x", Type::Int, Literal::Int(99)),
            effect(EffectOps::Print, &["x"]),
            effect(EffectOps::Return, &[]),
        ],
    )])
}

#[test]
fn a_branch_on_a_zero_argument_prints_the_argument() {
    let report = run(branching_program(), &["0"]);
    assert_eq!(report.out, "0\n");
    assert!(matches!(report.status, RunStatus::Finished));
}

#[test]
fn a_branch_on_a_nonzero_argument_prints_ninety_nine() {
    let report = run(branching_program(), &["7"]);
    assert_eq!(report.out, "99\n");
    assert!(matches!(report.status, RunStatus::Finished));
}

#[test]
fn a_value_call_of_a_function_that_returns_nothing_is_a_fault() {
    let p = program(vec![
        function(
            "main",
            vec![],
            None,
            vec![call_value("x", Type::Int, "f", &[]), effect(EffectOps::Print, &["x"])],
        ),
        function("f", vec![], Some(Type::Int), vec![effect(EffectOps::Return, &[])]),
    ]);
    let report = run(p, &[]);
    assert_eq!(report.out, "");
    match failure(&report) {
        InterpError::NoRetValForFunc(name) => assert_eq!(name, "f"),
        other => panic!("unexpected error {:?}", other),
    }
    match &report.status {
        RunStatus::Failed(e) => assert_eq!(e.pos, Some(Position { col: 3, row: 30 })),
        _ => unreachable!(),
    }
}

#[test]
fn division_by_zero_fails_at_the_position_of_the_division() {
    let p = main_of(vec![
        constant("a", Type::Int, Literal::Int(7)),
        constant("z", Type::Int, Literal::Int(0)),
        value_at(ValueOps::Div, "q", Type::Int, &["a", "z"], 12),
        effect(EffectOps::Print, &["q"]),
    ]);
    let report = run(p, &[]);
    assert!(matches!(failure(&report), InterpError::DivisionByZero));
    match &report.status {
        RunStatus::Failed(e) => assert_eq!(e.pos, Some(Position { col: 1, row: 12 })),
        _ => unreachable!(),
    }
}

#[test]
fn integer_arithmetic_wraps_around() {
    let p = main_of(vec![
        constant("max", Type::Int, Literal::Int(i64::MAX)),
        constant("min", Type::Int, Literal::Int(i64::MIN)),
        constant("one", Type::Int, Literal::Int(1)),
        constant("two", Type::Int, Literal::Int(2)),
        constant("neg", Type::Int, Literal::Int(-1)),
        value(ValueOps::Add, "a", Type::Int, &["max", "one"]),
        value(ValueOps::Sub, "b", Type::Int, &["min", "one"]),
        value(ValueOps::Mul, "c", Type::Int, &["max", "two"]),
        value(ValueOps::Div, "d", Type::Int, &["min", "neg"]),
        effect(EffectOps::Print, &["a", "b", "c", "d"]),
    ]);
    let report = run(p, &[]);
    assert_eq!(
        report.out,
        "-9223372036854775808 9223372036854775807 -2 -9223372036854775808\n"
    );
    assert!(matches!(report.status, RunStatus::Finished));
}

#[test]
fn division_rounds_towards_zero() {
    let p = main_of(vec![
        constant("a", Type::Int, Literal::Int(-7)),
        constant("b", Type::Int, Literal::Int(2)),
        constant("c", Type::Int, Literal::Int(7)),
        constant("d", Type::Int, Literal::Int(-2)),
        value(ValueOps::Div, "q", Type::Int, &["a", "b"]),
        value(ValueOps::Div, "r", Type::Int, &["c", "d"]),
        value(ValueOps::Div, "s", Type::Int, &["a", "d"]),
        effect(EffectOps::Print, &["q", "r", "s"]),
    ]);
    assert_eq!(run(p, &[]).out, "-3 -3 3\n");
}

#[test]
fn comparisons_and_connectives_print_true_and_false() {
    let p = main_of(vec![
        constant("a", Type::Int, Literal::Int(1)),
        constant("b", Type::Int, Literal::Int(2)),
        value(ValueOps::Lt, "lt", Type::Bool, &["a", "b"]),
        value(ValueOps::Gt, "gt", Type::Bool, &["a", "b"]),
        value(ValueOps::Le, "le", Type::Bool, &["a", "a"]),
        value(ValueOps::Ge, "ge", Type::Bool, &["a", "b"]),
        value(ValueOps::Eq, "eq", Type::Bool, &["b", "b"]),
        value(ValueOps::And, "and", Type::Bool, &["lt", "gt"]),
        value(ValueOps::Or, "or", Type::Bool, &["lt", "gt"]),
        value(ValueOps::Not, "not", Type::Bool, &["lt"]),
        effect(EffectOps::Print, &["lt", "gt", "le", "ge", "eq", "and", "or", "not"]),
    ]);
    assert_eq!(run(p, &[]).out, "true false true false true false true false\n");
}

#[test]
fn a_phi_in_the_first_block_has_no_last_label() {
    let p = main_of(vec![
        label("entry"),
        constant("a", Type::Int, Literal::Int(1)),
        phi("x", Type::Int, &["a"], &["entry"]),
    ]);
    assert!(matches!(failure(&run(p, &[])), InterpError::NoLastLabel));
}

#[test]
fn a_phi_picks_the_argument_of_the_block_control_came_from() {
    let body = |first: &str| {
        vec![
            constant("one", Type::Int, Literal::Int(1)),
            constant("two", Type::Int, Literal::Int(2)),
            jump(first),
            label("left"),
            jump("join"),
            label("right"),
            jump("join"),
            label("join"),
            phi("x", Type::Int, &["one", "two"], &["left", "right"]),
            effect(EffectOps::Print, &["x"]),
        ]
    };
    assert_eq!(run(main_of(body("left")), &[]).out, "1\n");
    assert_eq!(run(main_of(body("right")), &[]).out, "2\n");
}

#[test]
fn a_phi_that_does_not_list_the_last_block_fails_with_its_label() {
    let p = main_of(vec![
        constant("one", Type::Int, Literal::Int(1)),
        jump("left"),
        label("left"),
        jump("join"),
        label("other"),
        jump("join"),
        label("join"),
        phi("x", Type::Int, &["one"], &["other"]),
    ]);
    match failure(&run(p, &[])) {
        InterpError::PhiMissingLabel(l) => assert_eq!(l, "left"),
        other => panic!("unexpected error {:?}", other),
    }
}

#[test]
fn a_phi_after_an_unlabelled_block_has_no_last_label() {
    let p = main_of(vec![
        constant("one", Type::Int, Literal::Int(1)),
        jump("join"),
        label("join"),
        phi("x", Type::Int, &["one"], &["join"]),
    ]);
    assert!(matches!(failure(&run(p, &[])), InterpError::NoLastLabel));
}

#[test]
fn calls_pass_arguments_and_return_values() {
    let p = program(vec![
        function(
            "main",
            vec![("n", Type::Int)],
            None,
            vec![
                call_value("r", Type::Int, "fact", &["n"]),
                effect(EffectOps::Print, &["r"]),
                call_effect("show", &["n", "r"]),
            ],
        ),
        function(
            "fact",
            vec![("n", Type::Int)],
            Some(Type::Int),
            vec![
                constant("one", Type::Int, Literal::Int(1)),
                value(ValueOps::Le, "done", Type::Bool, &["n", "one"]),
                branch("done", "base", "rec"),
                label("base"),
                effect(EffectOps::Return, &["one"]),
                label("rec"),
                value(ValueOps::Sub, "m", Type::Int, &["n", "one"]),
                call_value("sub", Type::Int, "fact", &["m"]),
                value(ValueOps::Mul, "res", Type::Int, &["n", "sub"]),
                effect(EffectOps::Return, &["res"]),
            ],
        ),
        function(
            "show",
            vec![("a", Type::Int), ("b", Type::Int)],
            None,
            vec![effect(EffectOps::Print, &["a", "b"])],
        ),
    ]);
    let report = run(p, &["10"]);
    assert_eq!(report.out, "3628800\n10 3628800\n");
    assert!(matches!(report.status, RunStatus::Finished));
}

#[test]
fn deep_recursion_grows_the_stack() {
    let p = program(vec![
        function(
            "main",
            vec![("n", Type::Int)],
            None,
            vec![call_value("r", Type::Int, "sum", &["n"]), effect(EffectOps::Print, &["r"])],
        ),
        function(
            "sum",
            vec![("n", Type::Int)],
            Some(Type::Int),
            vec![
                constant("zero", Type::Int, Literal::Int(0)),
                constant("one", Type::Int, Literal::Int(1)),
                value(ValueOps::Le, "done", Type::Bool, &["n", "zero"]),
                branch("done", "base", "rec"),
                label("base"),
                effect(EffectOps::Return, &["zero"]),
                label("rec"),
                value(ValueOps::Sub, "m", Type::Int, &["n", "one"]),
                call_value("sub", Type::Int, "sum", &["m"]),
                value(ValueOps::Add, "res", Type::Int, &["n", "sub"]),
                effect(EffectOps::Return, &["res"]),
            ],
        ),
    ]);
    assert_eq!(run(p, &["500"]).out, "125250\n");
}

#[test]
fn a_call_with_the_wrong_number_of_arguments_fails() {
    let p = program(vec![
        function(
            "main",
            vec![],
            None,
            vec![constant("a", Type::Int, Literal::Int(1)), call_effect("f", &["a", "a"])],
        ),
        function("f", vec![("x", Type::Int)], None, vec![effect(EffectOps::Nop, &[])]),
    ]);
    assert!(matches!(failure(&run(p, &[])), InterpError::BadNumFuncArgs(1, 2)));
}

#[test]
fn characters_convert_compare_and_print() {
    let p = main_of(vec![
        constant("a", Type::Char, Literal::Char('a')),
        constant("b", Type::Char, Literal::Char('\u{e9}')),
        value(ValueOps::Char2int, "i", Type::Int, &["b"]),
        constant("j", Type::Int, Literal::Int(0x1F600)),
        value(ValueOps::Int2char, "c", Type::Char, &["j"]),
        value(ValueOps::Clt, "lt", Type::Bool, &["a", "b"]),
        value(ValueOps::Ceq, "eq", Type::Bool, &["a", "b"]),
        value(ValueOps::Cge, "ge", Type::Bool, &["b", "a"]),
        effect(EffectOps::Print, &["a", "b", "i", "c", "lt", "eq", "ge"]),
    ]);
    assert_eq!(run(p, &[]).out, "a \u{e9} 233 \u{1F600} true false true\n");
}

#[test]
fn an_integer_that_is_no_code_point_does_not_become_a_character() {
    for bad in [-1i64, 0xD800, 0xDFFF, 0x110000, i64::MAX] {
        let p = main_of(vec![
            constant("j", Type::Int, Literal::Int(bad)),
            value(ValueOps::Int2char, "c", Type::Char, &["j"]),
        ]);
        match failure(&run(p, &[])) {
            InterpError::ToCharError(i) => assert_eq!(*i, bad),
            other => panic!("unexpected error {:?}", other),
        }
    }
    for good in [0i64, 0xD7FF, 0xE000, 0x10FFFF] {
        let p = main_of(vec![
            constant("j", Type::Int, Literal::Int(good)),
            value(ValueOps::Int2char, "c", Type::Char, &["j"]),
            value(ValueOps::Char2int, "k", Type::Int, &["c"]),
            effect(EffectOps::Print, &["k"]),
        ]);
        assert_eq!(run(p, &[]).out, format!("{}\n", good));
    }
}

#[test]
fn pointers_print_with_base_and_offset() {
    let p = main_of(vec![
        constant("n", Type::Int, Literal::Int(4)),
        constant("k", Type::Int, Literal::Int(-3)),
        value(ValueOps::Alloc, "p", ptr_int(), &["n"]),
        value(ValueOps::PtrAdd, "q", ptr_int(), &["p", "k"]),
        effect(EffectOps::Print, &["p", "q"]),
        effect(EffectOps::Free, &["p"]),
    ]);
    let report = run(p, &[]);
    assert_eq!(
        report.out,
        "Pointer { base: 0, offset: 0 } Pointer { base: 0, offset: -3 }\n"
    );
    assert!(matches!(report.status, RunStatus::Finished));
}

#[test]
fn a_load_before_any_store_fails() {
    let p = main_of(vec![
        constant("n", Type::Int, Literal::Int(2)),
        constant("one", Type::Int, Literal::Int(1)),
        value(ValueOps::Alloc, "p", ptr_int(), &["n"]),
        value(ValueOps::PtrAdd, "q", ptr_int(), &["p", "one"]),
        value(ValueOps::Load, "x", Type::Int, &["q"]),
    ]);
    assert!(matches!(failure(&run(p, &[])), InterpError::UsingUninitializedMemory));
}

#[test]
fn a_free_through_an_offset_pointer_fails_in_a_program() {
    let p = main_of(vec![
        constant("n", Type::Int, Literal::Int(2)),
        constant("one", Type::Int, Literal::Int(1)),
        value(ValueOps::Alloc, "p", ptr_int(), &["n"]),
        value(ValueOps::PtrAdd, "q", ptr_int(), &["p", "one"]),
        effect(EffectOps::Free, &["q"]),
    ]);
    assert!(matches!(failure(&run(p, &[])), InterpError::IllegalFree(0, 1)));
}

#[test]
fn an_operand_of_the_wrong_kind_is_a_fault() {
    let p = main_of(vec![
        constant("a", Type::Int, Literal::Int(1)),
        constant("b", Type::Bool, Literal::Bool(true)),
        value(ValueOps::Add, "c", Type::Int, &["a", "b"]),
    ]);
    assert!(matches!(failure(&run(p, &[])), InterpError::BadValueType));
    let q = main_of(vec![
        constant("a", Type::Int, Literal::Int(1)),
        value(ValueOps::Add, "c", Type::Int, &["a", "never_written"]),
    ]);
    assert!(matches!(failure(&run(q, &[])), InterpError::BadValueType));
    let r = main_of(vec![value(ValueOps::Id, "c", Type::Int, &["d"]), effect(EffectOps::Print, &["c"])]);
    assert!(matches!(failure(&run(r, &[])), InterpError::BadValueType));
}

#[test]
fn an_empty_main_finishes_at_once() {
    let report = run(main_of(vec![]), &[]);
    assert_eq!(report.out, "");
    assert!(matches!(report.status, RunStatus::Finished));
}

#[test]
fn control_falls_through_to_the_next_block() {
    let p = main_of(vec![
        constant("a", Type::Int, Literal::Int(1)),
        label("next"),
        effect(EffectOps::Print, &["a"]),
        label("last"),
        effect(EffectOps::Print, &["a", "a"]),
    ]);
    assert_eq!(run(p, &[]).out, "1\n1 1\n");
}

#[test]
fn a_loop_that_never_ends_runs_out_of_fuel() {
    let p = main_of(vec![label("again"), effect(EffectOps::Nop, &[]), jump("again")]);
    let bb = BBProgram::new(p).unwrap();
    let report = execute_main(&bb, &vec![], &vec![], true, 1000);
    assert!(matches!(report.status, RunStatus::OutOfFuel));
    assert_eq!(report.profiling_out, "");
}

#[test]
fn profiling_counts_the_instructions_of_every_block_entered() {
    let bb = BBProgram::new(branching_program()).unwrap();
    let report = execute_main(&bb, &names(&["7"]), &vec![], true, 1000);
    assert_eq!(report.out, "99\n");
    assert_eq!(report.profiling_out, "total_dyn_inst: 6\n");
    let quiet = execute_main(&bb, &names(&["7"]), &vec![], false, 1000);
    assert_eq!(quiet.profiling_out, "");
}

#[test]
fn running_twice_gives_the_same_output_and_status() {
    let bb = BBProgram::new(branching_program()).unwrap();
    let first = execute_main(&bb, &names(&["7"]), &vec![], true, 1000);
    let second = execute_main(&bb, &names(&["7"]), &vec![], true, 1000);
    assert_eq!(first.out, second.out);
    assert_eq!(first.profiling_out, second.profiling_out);
    assert_eq!(format!("{:?}", first.status), format!("{:?}", second.status));
}

#[test]
fn a_program_without_main_does_not_start() {
    let p = program(vec![function("helper", vec![], None, vec![])]);
    let report = run(p, &[]);
    assert!(matches!(failure(&report), InterpError::NoMainFunction));
}

#[test]
fn program_arguments_are_parsed_by_their_declared_types() {
    let p = || {
        program(vec![function(
            "main",
            vec![("i", Type::Int), ("b", Type::Bool), ("c", Type::Char), ("d", Type::Char)],
            None,
            vec![
                effect(EffectOps::Print, &["i", "b", "c"]),
                value(ValueOps::Char2int, "n", Type::Int, &["d"]),
                effect(EffectOps::Print, &["n"]),
            ],
        )])
    };
    assert_eq!(run(p(), &["-42", "true", "x", "\\n"]).out, "-42 true x\n10\n");
    assert_eq!(run(p(), &["+7", "false", "\u{e9}", "\\0"]).out, "7 false \u{e9}\n0\n");
    assert_eq!(
        run(p(), &["-9223372036854775808", "false", "y", "\\t"]).out,
        "-9223372036854775808 false y\n9\n"
    );
}

#[test]
fn program_arguments_that_do_not_parse_are_refused() {
    let p = |ty: Type| program(vec![function("main", vec![("a", ty)], None, vec![])]);
    for bad in ["", "x", "1.5", " 1", "1 ", "9223372036854775808", "--1", "+", "-", "0x10"] {
        match failure(&run(p(Type::Int), &[bad])) {
            InterpError::BadFuncArgType(Type::Int, text) => assert_eq!(text, bad),
            other => panic!("unexpected error {:?} for {:?}", other, bad),
        }
    }
    for bad in ["", "True", "1", "truee", "fals"] {
        match failure(&run(p(Type::Bool), &[bad])) {
            InterpError::BadFuncArgType(Type::Bool, text) => assert_eq!(text, bad),
            other => panic!("unexpected error {:?} for {:?}", other, bad),
        }
    }
    for bad in ["", "ab", "\\x", "\\nn"] {
        assert!(matches!(failure(&run(p(Type::Char), &[bad])), InterpError::NotOneChar));
    }
    assert!(matches!(
        failure(&run(p(ptr_int()), &["0"])),
        InterpError::BadFuncArgType(Type::Pointer(_), _)
    ));
    assert!(matches!(
        failure(&run(p(Type::Float), &["1.5"])),
        InterpError::BadFuncArgType(Type::Float, _)
    ));
}

#[test]
fn the_number_of_program_arguments_is_checked() {
    let p = || program(vec![function("main", vec![("a", Type::Int)], None, vec![])]);
    assert!(matches!(failure(&run(p(), &[])), InterpError::BadNumFuncArgs(1, 0)));
    assert!(matches!(failure(&run(p(), &["1", "2"])), InterpError::BadNumFuncArgs(1, 2)));
    let report = run(p(), &["1"]);
    assert!(matches!(report.status, RunStatus::Finished));
}

#[test]
fn integers_print_in_decimal() {
    for i in [0i64, 7, 10, -1, 1234567890123, i64::MAX, i64::MIN] {
        let p = main_of(vec![
            constant("a", Type::Int, Literal::Int(i)),
            effect(EffectOps::Print, &["a"]),
        ]);
        assert_eq!(run(p, &[]).out, format!("{}\n", i));
    }
}

#[test]
fn a_print_without_operands_prints_an_empty_line() {
    assert_eq!(run(main_of(vec![effect(EffectOps::Print, &[])]), &[]).out, "\n");
}

#[test]
fn an_array_is_filled_and_summed_in_loops() {
    let p = program(vec![function(
        "main",
        vec![("n", Type::Int)],
        None,
        vec![
            constant("zero", Type::Int, Literal::Int(0)),
            constant("one", Type::Int, Literal::Int(1)),
            value(ValueOps::Alloc, "arr", ptr_int(), &["n"]),
            value(ValueOps::Id, "i", Type::Int, &["zero"]),
            label("fill"),
            value(ValueOps::Lt, "more", Type::Bool, &["i", "n"]),
            branch("more", "fill_body", "fill_done"),
            label("fill_body"),
            value(ValueOps::PtrAdd, "cell", ptr_int(), &["arr", "i"]),
            value(ValueOps::Mul, "sq", Type::Int, &["i", "i"]),
            effect(EffectOps::Store, &["cell", "sq"]),
            value(ValueOps::Add, "i", Type::Int, &["i", "one"]),
            jump("fill"),
            label("fill_done"),
            value(ValueOps::Id, "sum", Type::Int, &["zero"]),
            value(ValueOps::Id, "j", Type::Int, &["zero"]),
            label("add"),
            value(ValueOps::Lt, "left", Type::Bool, &["j", "n"]),
            branch("left", "add_body", "add_done"),
            label("add_body"),
            value(ValueOps::PtrAdd, "at", ptr_int(), &["arr", "j"]),
            value(ValueOps::Load, "x", Type::Int, &["at"]),
            value(ValueOps::Add, "sum", Type::Int, &["sum", "x"]),
            value(ValueOps::Add, "j", Type::Int, &["j", "one"]),
            jump("add"),
            label("add_done"),
            effect(EffectOps::Print, &["sum"]),
            effect(EffectOps::Free, &["arr"]),
        ],
    )]);
    let bb = BBProgram::new(p).unwrap();
    let report = execute_main(&bb, &names(&["10"]), &vec![], true, 100_000);
    assert_eq!(report.out, "285\n");
    assert!(matches!(report.status, RunStatus::Finished));
    // 4 at entry, 11 tests of 2, 10 bodies of 5, 2 between the loops, 11 tests of 2,
    // 10 bodies of 5, 2 at the end
    assert_eq!(report.profiling_out, "total_dyn_inst: 152\n");
    let empty = execute_main(&bb, &names(&["0"]), &vec![], false, 100_000);
    assert_eq!(empty.out, "0\n");
    assert!(matches!(empty.status, RunStatus::Finished));
    let negative = execute_main(&bb, &names(&["-1"]), &vec![], false, 100_000);
    assert!(matches!(failure(&negative), InterpError::CannotAllocSize(-1)));
}

#[test]
fn a_loop_with_phis_counts_down() {
    let p = program(vec![function(
        "main",
        vec![("n", Type::Int)],
        None,
        vec![
            label("entry"),
            constant("zero", Type::Int, Literal::Int(0)),
            constant("one", Type::Int, Literal::Int(1)),
            jump("head"),
            label("head"),
            phi("i", Type::Int, &["n", "next"], &["entry", "body"]),
            phi("acc", Type::Int, &["zero", "acc2"], &["entry", "body"]),
            value(ValueOps::Gt, "go", Type::Bool, &["i", "zero"]),
            branch("go", "body", "done"),
            label("body"),
            value(ValueOps::Add, "acc2", Type::Int, &["acc", "i"]),
            value(ValueOps::Sub, "next", Type::Int, &["i", "one"]),
            jump("head"),
            label("done"),
            effect(EffectOps::Print, &["acc"]),
        ],
    )]);
    assert_eq!(run(p, &["100"]).out, "5050\n");
}

#[test]
fn an_access_after_free_fails_in_a_program() {
    let p = main_of(vec![
        constant("n", Type::Int, Literal::Int(1)),
        value(ValueOps::Alloc, "p", ptr_int(), &["n"]),
        effect(EffectOps::Store, &["p", "n"]),
        effect(EffectOps::Free, &["p"]),
        value(ValueOps::Alloc, "q", ptr_int(), &["n"]),
        value(ValueOps::Load, "x", Type::Int, &["p"]),
    ]);
    assert!(matches!(failure(&run(p, &[])), InterpError::InvalidMemoryAccess(0, 0)));
    let twice = main_of(vec![
        constant("n", Type::Int, Literal::Int(1)),
        value(ValueOps::Alloc, "p", ptr_int(), &["n"]),
        effect(EffectOps::Free, &["p"]),
        effect(EffectOps::Free, &["p"]),
    ]);
    assert!(matches!(failure(&run(twice, &[])), InterpError::IllegalFree(0, 0)));
}

#[test]
fn a_call_does_not_see_the_variables_of_an_earlier_call() {
    let p = program(vec![
        function("main", vec![], None, vec![call_effect("first", &[]), call_effect("second", &[])]),
        function(
            "first",
            vec![],
            None,
            vec![constant("x", Type::Int, Literal::Int(7)), effect(EffectOps::Print, &["x"])],
        ),
        function("second", vec![], None, vec![effect(EffectOps::Print, &["y"])]),
    ]);
    let report = run(p, &[]);
    assert_eq!(report.out, "7\n");
    assert!(matches!(failure(&report), InterpError::BadValueType));
}
