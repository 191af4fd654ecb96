use brilirs::check::{type_check, type_check_instruction, CheckError, TypeEnv};
use brilirs::names::NameMap;
use brilirs::positional::Position;
use brilirs::program::{
    Argument, Code, ConstOps, EffectOps, Function, Instruction, Literal, Program, Type, ValueOps,
};

fn names(items: &[&str]) -> Vec<String> {
    items.iter().map(|s| s.to_string()).collect()
}

fn at(row: u64) -> Option<Position> {
    Some(Position { col: 4, row })
}

fn constant(dest: &str, ty: Type, value: Literal) -> Code {
    Code::Instruction(Instruction::Constant {
        op: ConstOps::Const,
        dest: dest.to_string(),
        const_type: ty,
        value,
        pos: at(1),
    })
}

fn int_const(dest: &str) -> Code {
    constant(dest, Type::Int, Literal::Int(1))
}

fn bool_const(dest: &str) -> Code {
    constant(dest, Type::Bool, Literal::Bool(true))
}

fn value(op: ValueOps, dest: &str, ty: Type, args: &[&str]) -> Code {
    full_value(op, dest, ty, args, &[], &[])
}

fn full_value(op: ValueOps, dest: &str, ty: Type, args: &[&str], funcs: &[&str], labels: &[&str]) -> Code {
    Code::Instruction(Instruction::Value {
        op,
        dest: dest.to_string(),
        op_type: ty,
        args: names(args),
        funcs: names(funcs),
        labels: names(labels),
        pos: at(2),
    })
}

fn effect(op: EffectOps, args: &[&str], funcs: &[&str], labels: &[&str]) -> Code {
    Code::Instruction(Instruction::Effect {
        op,
        args: names(args),
        funcs: names(funcs),
        labels: names(labels),
        pos: at(3),
    })
}

fn label(name: &str) -> Code {
    Code::Label { label: name.to_string(), pos: None }
}

fn function(name: &str, args: Vec<(&str, Type)>, ret: Option<Type>, instrs: Vec<Code>) -> Function {
    Function {
        name: name.to_string(),
        args: args
            .into_iter()
            .map(|(n, t)| Argument { name: n.to_string(), arg_type: t })
            .collect(),
        return_type: ret,
        instrs,
        pos: None,
    }
}

fn ptr(t: Type) -> Type {
    Type::Pointer(Box::new(t))
}

fn check(functions: Vec<Function>) -> Result<(), (CheckError, Option<Position>)> {
    type_check(&Program { imports: vec![], functions }).map_err(|e| (e.e, e.pos))
}

fn check_main(instrs: Vec<Code>) -> Result<(), (CheckError, Option<Position>)> {
    check(vec![function("main", vec![("a", Type::Int), ("b", Type::Bool)], None, instrs)])
}

fn bad_types(r: Result<(), (CheckError, Option<Position>)>, expected: Type, found: Type) -> bool {
    match r {
        Err((CheckError::BadAsmtType(e, f), _)) => e.same(&expected) && f.same(&found),
        _ => false,
    }
}

#[test]
fn a_well_typed_program_passes() {
    let r = check(vec![
        function(
            "main",
            vec![("a", Type::Int)],
            None,
            vec![
                int_const("one"),
                value(ValueOps::Add, "s", Type::Int, &["a", "one"]),
                value(ValueOps::Lt, "c", Type::Bool, &["s", "a"]),
                value(ValueOps::Not, "n", Type::Bool, &["c"]),
                value(ValueOps::And, "m", Type::Bool, &["c", "n"]),
                value(ValueOps::Id, "t", Type::Int, &["s"]),
                constant("f", Type::Float, Literal::Int(2)),
                constant("g", Type::Float, Literal::Float(0)),
                value(ValueOps::Fmul, "h", Type::Float, &["f", "g"]),
                value(ValueOps::Fge, "k", Type::Bool, &["f", "h"]),
                constant("x", Type::Char, Literal::Char('x')),
                value(ValueOps::Ceq, "y", Type::Bool, &["x", "x"]),
                value(ValueOps::Char2int, "z", Type::Int, &["x"]),
                value(ValueOps::Int2char, "w", Type::Char, &["z"]),
                value(ValueOps::Alloc, "p", ptr(Type::Int), &["one"]),
                value(ValueOps::PtrAdd, "q", ptr(Type::Int), &["p", "one"]),
                effect(EffectOps::Store, &["q", "s"], &[], &[]),
                value(ValueOps::Load, "v", Type::Int, &["q"]),
                effect(EffectOps::Free, &["p"], &[], &[]),
                full_value(ValueOps::Call, "r", Type::Int, &["v", "c"], &["helper"], &[]),
                effect(EffectOps::Call, &["r"], &["show"], &[]),
                effect(EffectOps::Branch, &["c"], &[], &["then", "end"]),
                label("then"),
                effect(EffectOps::Print, &["r", "c", "x"], &[], &[]),
                effect(EffectOps::Jump, &[], &[], &["end"]),
                label("end"),
                full_value(ValueOps::Phi, "u", Type::Int, &["r", "later"], &[], &["then", "end"]),
                effect(EffectOps::Nop, &[], &[], &[]),
                effect(EffectOps::Return, &[], &[], &[]),
            ],
        ),
        function(
            "helper",
            vec![("n", Type::Int), ("flag", Type::Bool)],
            Some(Type::Int),
            vec![effect(EffectOps::Return, &["n"], &[], &[])],
        ),
        function("show", vec![("n", Type::Int)], None, vec![effect(EffectOps::Print, &["n"], &[], &[])]),
    ]);
    assert!(r.is_ok(), "{:?}", r);
}

#[test]
fn a_constant_has_the_type_of_its_literal() {
    assert!(bad_types(
        check_main(vec![constant("x", Type::Int, Literal::Bool(true))]),
        Type::Int,
        Type::Bool
    ));
    assert!(bad_types(
        check_main(vec![constant("x", Type::Bool, Literal::Int(1))]),
        Type::Bool,
        Type::Int
    ));
    assert!(bad_types(
        check_main(vec![constant("x", Type::Int, Literal::Float(0))]),
        Type::Int,
        Type::Float
    ));
    assert!(check_main(vec![constant("x", Type::Float, Literal::Int(1))]).is_ok());
    assert!(check_main(vec![constant("x", Type::Char, Literal::Char('c'))]).is_ok());
}

#[test]
fn a_variable_keeps_its_first_type() {
    assert!(bad_types(check_main(vec![int_const("x"), bool_const("x")]), Type::Int, Type::Bool));
    assert!(bad_types(check_main(vec![bool_const("a")]), Type::Int, Type::Bool));
    assert!(check_main(vec![int_const("x"), int_const("x"), int_const("a")]).is_ok());
}

#[test]
fn errors_carry_the_position_of_their_instruction() {
    let r = check_main(vec![int_const("x"), value(ValueOps::Add, "y", Type::Int, &["x", "nope"])]);
    match r {
        Err((CheckError::VarUndefined(v), pos)) => {
            assert_eq!(v, "nope");
            assert_eq!(pos, at(2));
        }
        other => panic!("unexpected result {:?}", other),
    }
}

#[test]
fn operands_are_counted_before_they_are_typed() {
    assert!(matches!(
        check_main(vec![value(ValueOps::Add, "y", Type::Bool, &["b"])]),
        Err((CheckError::BadNumArgs(2, 1), _))
    ));
    assert!(matches!(
        check_main(vec![full_value(ValueOps::Add, "y", Type::Int, &["a", "a"], &["main"], &[])]),
        Err((CheckError::BadNumFuncs(0, 1), _))
    ));
    assert!(matches!(
        check_main(vec![full_value(ValueOps::Add, "y", Type::Int, &["a", "a"], &[], &["l"])]),
        Err((CheckError::BadNumLabels(0, 1), _))
    ));
    assert!(bad_types(
        check_main(vec![value(ValueOps::Add, "y", Type::Bool, &["a", "b"])]),
        Type::Int,
        Type::Bool
    ));
    assert!(bad_types(
        check_main(vec![value(ValueOps::Add, "y", Type::Bool, &["a", "a"])]),
        Type::Int,
        Type::Bool
    ));
    assert!(bad_types(
        check_main(vec![value(ValueOps::Eq, "y", Type::Int, &["a", "a"])]),
        Type::Bool,
        Type::Int
    ));
    assert!(bad_types(
        check_main(vec![value(ValueOps::Not, "y", Type::Bool, &["a"])]),
        Type::Bool,
        Type::Int
    ));
    assert!(bad_types(
        check_main(vec![value(ValueOps::Fadd, "y", Type::Float, &["a", "a"])]),
        Type::Float,
        Type::Int
    ));
    assert!(bad_types(
        check_main(vec![value(ValueOps::Id, "y", Type::Bool, &["a"])]),
        Type::Bool,
        Type::Int
    ));
}

#[test]
fn memory_operations_need_pointers() {
    let expected_pointer = |r: Result<(), (CheckError, Option<Position>)>, t: Type| match r {
        Err((CheckError::ExpectedPointerType(f), _)) => f.same(&t),
        _ => false,
    };
    assert!(expected_pointer(
        check_main(vec![value(ValueOps::Alloc, "p", Type::Int, &["a"])]),
        Type::Int
    ));
    assert!(bad_types(
        check_main(vec![value(ValueOps::Alloc, "p", ptr(Type::Int), &["b"])]),
        Type::Int,
        Type::Bool
    ));
    assert!(expected_pointer(
        check_main(vec![value(ValueOps::Load, "v", Type::Int, &["a"])]),
        Type::Int
    ));
    let with_p = |rest: Vec<Code>| {
        let mut body = vec![value(ValueOps::Alloc, "p", ptr(Type::Bool), &["a"])];
        body.extend(rest);
        check_main(body)
    };
    assert!(bad_types(
        with_p(vec![value(ValueOps::Load, "v", Type::Int, &["p"])]),
        Type::Bool,
        Type::Int
    ));
    assert!(bad_types(
        with_p(vec![effect(EffectOps::Store, &["p", "a"], &[], &[])]),
        Type::Bool,
        Type::Int
    ));
    assert!(with_p(vec![effect(EffectOps::Store, &["p", "b"], &[], &[])]).is_ok());
    assert!(expected_pointer(
        with_p(vec![effect(EffectOps::Store, &["a", "b"], &[], &[])]),
        Type::Int
    ));
    assert!(expected_pointer(
        with_p(vec![value(ValueOps::PtrAdd, "q", ptr(Type::Bool), &["a", "a"])]),
        Type::Int
    ));
    assert!(bad_types(
        with_p(vec![value(ValueOps::PtrAdd, "q", ptr(Type::Bool), &["p", "b"])]),
        Type::Int,
        Type::Bool
    ));
    assert!(bad_types(
        with_p(vec![value(ValueOps::PtrAdd, "q", ptr(Type::Int), &["p", "a"])]),
        ptr(Type::Bool),
        ptr(Type::Int)
    ));
    assert!(expected_pointer(with_p(vec![effect(EffectOps::Free, &["a"], &[], &[])]), Type::Int));
    assert!(matches!(
        with_p(vec![effect(EffectOps::Free, &[], &[], &[])]),
        Err((CheckError::BadNumArgs(1, 0), _))
    ));
}

#[test]
fn jumps_and_branches_name_labels_of_the_function() {
    assert!(matches!(
        check_main(vec![effect(EffectOps::Jump, &[], &[], &["nowhere"])]),
        Err((CheckError::MissingLabel(l), _)) if l == "nowhere"
    ));
    assert!(check_main(vec![effect(EffectOps::Jump, &[], &[], &["later"]), label("later")]).is_ok());
    assert!(matches!(
        check_main(vec![effect(EffectOps::Jump, &["a"], &[], &["later"]), label("later")]),
        Err((CheckError::BadNumArgs(0, 1), _))
    ));
    assert!(matches!(
        check_main(vec![label("l"), effect(EffectOps::Branch, &["b"], &[], &["l"])]),
        Err((CheckError::BadNumLabels(2, 1), _))
    ));
    assert!(bad_types(
        check_main(vec![label("l"), effect(EffectOps::Branch, &["a"], &[], &["l", "l"])]),
        Type::Bool,
        Type::Int
    ));
    assert!(matches!(
        check_main(vec![label("l"), effect(EffectOps::Branch, &["b"], &[], &["l", "m"])]),
        Err((CheckError::MissingLabel(l), _)) if l == "m"
    ));
}

#[test]
fn a_label_that_stands_twice_is_refused_with_its_function() {
    let r = check_main(vec![label("l"), int_const("x"), label("m"), label("l")]);
    match r {
        Err((CheckError::DuplicateLabel(l, f), pos)) => {
            assert_eq!((l.as_str(), f.as_str()), ("l", "main"));
            assert_eq!(pos, None);
        }
        other => panic!("unexpected result {:?}", other),
    }
}

#[test]
fn returns_fit_the_return_type() {
    let f = |ret: Option<Type>, args: &[&str]| {
        check(vec![function(
            "f",
            vec![("a", Type::Int), ("b", Type::Bool)],
            ret,
            vec![effect(EffectOps::Return, args, &[], &[])],
        )])
    };
    assert!(f(None, &[]).is_ok());
    assert!(matches!(f(None, &["a"]), Err((CheckError::NonEmptyRetForFunc(n), _)) if n == "f"));
    assert!(f(Some(Type::Int), &["a"]).is_ok());
    assert!(matches!(f(Some(Type::Int), &[]), Err((CheckError::BadNumArgs(1, 0), _))));
    assert!(bad_types(f(Some(Type::Int), &["b"]), Type::Int, Type::Bool));
    assert!(matches!(f(Some(Type::Int), &["c"]), Err((CheckError::VarUndefined(v), _)) if v == "c"));
}

#[test]
fn calls_fit_their_callee() {
    let with = |call: Code| {
        check(vec![
            function("main", vec![("a", Type::Int), ("b", Type::Bool)], None, vec![call]),
            function("value", vec![("n", Type::Int)], Some(Type::Bool), vec![
                effect(EffectOps::Return, &["flag"], &[], &[]),
            ]),
            function("void", vec![("n", Type::Int)], None, vec![]),
        ])
    };
    // the callee "value" is itself ill-typed, but main is checked first
    assert!(matches!(
        with(full_value(ValueOps::Call, "x", Type::Bool, &["a"], &["nobody"], &[])),
        Err((CheckError::FuncNotFound(n), _)) if n == "nobody"
    ));
    assert!(matches!(
        with(full_value(ValueOps::Call, "x", Type::Bool, &["a"], &[], &[])),
        Err((CheckError::BadNumFuncs(1, 0), _))
    ));
    assert!(matches!(
        with(full_value(ValueOps::Call, "x", Type::Bool, &["a", "a"], &["value"], &[])),
        Err((CheckError::BadNumArgs(1, 2), _))
    ));
    assert!(bad_types(
        with(full_value(ValueOps::Call, "x", Type::Bool, &["b"], &["value"], &[])),
        Type::Bool,
        Type::Int
    ));
    assert!(bad_types(
        with(full_value(ValueOps::Call, "x", Type::Int, &["a"], &["value"], &[])),
        Type::Int,
        Type::Bool
    ));
    assert!(matches!(
        with(full_value(ValueOps::Call, "x", Type::Int, &["a"], &["void"], &[])),
        Err((CheckError::NonEmptyRetForFunc(n), _)) if n == "void"
    ));
    assert!(matches!(
        with(effect(EffectOps::Call, &["a"], &["value"], &[])),
        Err((CheckError::NonEmptyRetForFunc(n), _)) if n == "value"
    ));
    assert!(matches!(
        with(effect(EffectOps::Call, &["zz"], &["void"], &[])),
        Err((CheckError::VarUndefined(v), _)) if v == "zz"
    ));
    // main passes, then "value" fails on its undefined variable
    assert!(matches!(
        with(effect(EffectOps::Call, &["a"], &["void"], &[])),
        Err((CheckError::VarUndefined(v), _)) if v == "flag"
    ));
}

#[test]
fn a_phi_types_its_arguments() {
    assert!(matches!(
        check_main(vec![label("l"), full_value(ValueOps::Phi, "x", Type::Int, &["a"], &[], &[])]),
        Err((CheckError::UnequalPhiNode, _))
    ));
    assert!(matches!(
        check_main(vec![label("l"), full_value(ValueOps::Phi, "x", Type::Int, &["a"], &[], &["m"])]),
        Err((CheckError::MissingLabel(l), _)) if l == "m"
    ));
    assert!(bad_types(
        check_main(vec![
            label("l"),
            full_value(ValueOps::Phi, "x", Type::Int, &["a", "b"], &[], &["l", "l"]),
        ]),
        Type::Bool,
        Type::Int
    ));
    assert!(bad_types(
        check_main(vec![
            label("l"),
            full_value(ValueOps::Phi, "x", Type::Bool, &["later"], &[], &["l"]),
            int_const("later"),
        ]),
        Type::Bool,
        Type::Int
    ));
}

#[test]
fn print_needs_defined_variables() {
    assert!(check_main(vec![effect(EffectOps::Print, &[], &[], &[])]).is_ok());
    assert!(matches!(
        check_main(vec![effect(EffectOps::Print, &["a", "x", "y"], &[], &[])]),
        Err((CheckError::VarUndefined(v), _)) if v == "x"
    ));
    assert!(matches!(
        check_main(vec![effect(EffectOps::Nop, &["a"], &[], &[])]),
        Err((CheckError::BadNumArgs(0, 1), _))
    ));
}

fn instruction(code: Code) -> Instruction {
    match code {
        Code::Instruction(i) => i,
        Code::Label { .. } => panic!("a label is no instruction"),
    }
}

#[test]
fn a_refused_instruction_leaves_the_types_as_they_were() {
    let func = function("main", vec![], None, vec![]);
    let prog = Program { imports: vec![], functions: vec![] };
    let labels = NameMap::new();
    let mut env = TypeEnv::new();
    env.insert("a".to_string(), Type::Int);
    env.insert("b".to_string(), Type::Bool);
    let refused = [
        value(ValueOps::Add, "c", Type::Int, &["a", "b"]),
        value(ValueOps::Add, "c", Type::Int, &["a"]),
        value(ValueOps::Mul, "c", Type::Int, &["a", "nowhere"]),
        value(ValueOps::Sub, "c", Type::Bool, &["a", "a"]),
        value(ValueOps::Div, "b", Type::Int, &["a", "a"]),
        value(ValueOps::Id, "c", Type::Bool, &["a"]),
    ];
    for code in refused {
        let r = type_check_instruction(&instruction(code), &func, &prog, &mut env, &labels);
        assert!(r.is_err());
        assert!(env.get(&"c".to_string()).is_none());
        assert!(matches!(env.get(&"a".to_string()), Some(Type::Int)));
        assert!(matches!(env.get(&"b".to_string()), Some(Type::Bool)));
    }
    let taken = instruction(value(ValueOps::Add, "c", Type::Int, &["a", "a"]));
    assert!(type_check_instruction(&taken, &func, &prog, &mut env, &labels).is_ok());
    assert!(matches!(env.get(&"c".to_string()), Some(Type::Int)));
    assert!(matches!(env.get(&"b".to_string()), Some(Type::Bool)));
}
