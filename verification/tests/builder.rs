use brilirs::basic_block::{BBFunction, BBProgram};
use brilirs::error::InterpError;
use brilirs::ir::FlatIR;
use brilirs::names::NameMap;
use brilirs::positional::Position;
use brilirs::program::{
    Argument, Code, ConstOps, EffectOps, Function, Instruction, Literal, Program, Type, ValueOps,
};

fn names(items: &[&str]) -> Vec<String> {
    items.iter().map(|s| s.to_string()).collect()
}

fn at(row: u64) -> Option<Position> {
    Some(Position { col: 2, row })
}

fn constant(dest: &str, v: i64) -> Code {
    Code::Instruction(Instruction::Constant {
        op: ConstOps::Const,
        dest: dest.to_string(),
        const_type: Type::Int,
        value: Literal::Int(v),
        pos: None,
    })
}

fn value(op: ValueOps, dest: &str, args: &[&str], funcs: &[&str], labels: &[&str], row: u64) -> Code {
    Code::Instruction(Instruction::Value {
        op,
        dest: dest.to_string(),
        op_type: Type::Int,
        args: names(args),
        funcs: names(funcs),
        labels: names(labels),
        pos: at(row),
    })
}

fn effect(op: EffectOps, args: &[&str], funcs: &[&str], labels: &[&str], row: u64) -> Code {
    Code::Instruction(Instruction::Effect {
        op,
        args: names(args),
        funcs: names(funcs),
        labels: names(labels),
        pos: at(row),
    })
}

fn label(name: &str, row: u64) -> Code {
    Code::Label { label: name.to_string(), pos: at(row) }
}

fn function(name: &str, args: &[&str], instrs: Vec<Code>) -> Function {
    Function {
        name: name.to_string(),
        args: args
            .iter()
            .map(|n| Argument { name: n.to_string(), arg_type: Type::Int })
            .collect(),
        return_type: None,
        instrs,
        pos: at(100),
    }
}

fn build(functions: Vec<Function>) -> Result<BBProgram, (InterpError, Option<Position>)> {
    BBProgram::new(Program { imports: vec![], functions }).map_err(|e| (e.e, e.pos))
}

fn only(f: Function) -> BBProgram {
    build(vec![f]).unwrap()
}

fn labels_of(f: &BBFunction) -> Vec<Option<String>> {
    f.blocks.iter().map(|b| b.label.clone()).collect()
}

fn exits_of(f: &BBFunction) -> Vec<Vec<usize>> {
    f.blocks.iter().map(|b| b.exit.clone()).collect()
}

fn sizes_of(f: &BBFunction) -> Vec<usize> {
    f.blocks.iter().map(|b| b.flat_instrs.len()).collect()
}

#[test]
fn a_body_that_starts_with_an_instruction_has_an_unlabelled_first_block() {
    let p = only(function(
        "main",
        &["a"],
        vec![
            constant("x", 1),
            effect(EffectOps::Branch, &["c"], &[], &["then", "else"], 2),
            label("then", 3),
            effect(EffectOps::Print, &["x"], &[], &[], 4),
            effect(EffectOps::Jump, &[], &[], &["end"], 5),
            label("else", 6),
            effect(EffectOps::Print, &["a"], &[], &[], 7),
            label("end", 8),
            effect(EffectOps::Return, &[], &[], &[], 9),
        ],
    ));
    let f = p.get(0).unwrap();
    assert_eq!(
        labels_of(f),
        vec![None, Some("then".to_string()), Some("else".to_string()), Some("end".to_string())]
    );
    assert_eq!(sizes_of(f), vec![2, 2, 1, 1]);
    assert_eq!(exits_of(f), vec![vec![1, 2], vec![3], vec![3], vec![]]);
    assert_eq!(f.blocks[0].positions, vec![None, at(2)]);
    assert_eq!(f.num_of_vars, 3);
    assert_eq!(f.args_as_nums, vec![0]);
    assert!(matches!(
        f.blocks[0].flat_instrs[1],
        FlatIR::Branch { arg: 2, true_dest: 1, false_dest: 2 }
    ));
    assert!(matches!(f.blocks[1].flat_instrs[1], FlatIR::Jump { dest: 3 }));
    assert!(matches!(f.blocks[3].flat_instrs[0], FlatIR::ReturnVoid));
    assert_eq!(p.main_index(), Some(0));
    assert_eq!(p.num_funcs(), 1);
    assert!(p.get(1).is_none());
}

#[test]
fn a_body_that_starts_with_a_label_has_no_block_before_it() {
    let p = only(function(
        "f",
        &[],
        vec![
            label("first", 1),
            label("second", 2),
            constant("x", 1),
            label("third", 3),
        ],
    ));
    let f = p.get(0).unwrap();
    assert_eq!(
        labels_of(f),
        vec![Some("first".to_string()), Some("second".to_string()), Some("third".to_string())]
    );
    assert_eq!(sizes_of(f), vec![0, 1, 0]);
    assert_eq!(exits_of(f), vec![vec![1], vec![2], vec![]]);
    assert_eq!(p.main_index(), None);
}

#[test]
fn what_follows_a_jump_up_to_the_next_label_is_left_out() {
    let p = only(function(
        "f",
        &[],
        vec![
            effect(EffectOps::Jump, &[], &[], &["end"], 1),
            constant("dead", 1),
            effect(EffectOps::Jump, &[], &[], &["nowhere"], 2),
            constant("dead2", 1),
            label("end", 3),
            effect(EffectOps::Return, &[], &[], &[], 4),
            effect(EffectOps::Return, &["unknown"], &[], &[], 5),
        ],
    ));
    let f = p.get(0).unwrap();
    assert_eq!(labels_of(f), vec![None, Some("end".to_string())]);
    assert_eq!(sizes_of(f), vec![1, 1]);
    assert_eq!(exits_of(f), vec![vec![1], vec![]]);
    assert_eq!(f.num_of_vars, 2);
}

#[test]
fn an_empty_body_has_no_blocks() {
    let p = only(function("f", &["a", "b"], vec![]));
    let f = p.get(0).unwrap();
    assert_eq!(f.blocks.len(), 0);
    assert_eq!(f.num_of_vars, 2);
    assert_eq!(f.args_as_nums, vec![0, 1]);
}

#[test]
fn variables_get_slots_in_the_order_of_their_first_mention() {
    let p = only(function(
        "f",
        &["b", "a", "b"],
        vec![
            value(ValueOps::Add, "x", &["a", "y"], &[], &[], 1),
            value(ValueOps::Id, "y", &["x"], &[], &[], 2),
            effect(EffectOps::Print, &["z", "b", "x"], &[], &[], 3),
        ],
    ));
    let f = p.get(0).unwrap();
    assert_eq!(f.args_as_nums, vec![0, 1, 0]);
    assert_eq!(f.num_of_vars, 5);
    assert!(matches!(
        f.blocks[0].flat_instrs[0],
        FlatIR::Binary { op: ValueOps::Add, dest: 2, arg0: 1, arg1: 3 }
    ));
    assert!(matches!(
        f.blocks[0].flat_instrs[1],
        FlatIR::Unary { op: ValueOps::Id, dest: 3, arg: 2 }
    ));
    match &f.blocks[0].flat_instrs[2] {
        FlatIR::Print { args } => assert_eq!(args, &vec![4, 0, 2]),
        other => panic!("unexpected instruction {:?}", other),
    }
}

#[test]
fn calls_name_functions_by_their_place_in_the_program() {
    let p = build(vec![
        function(
            "main",
            &[],
            vec![
                value(ValueOps::Call, "x", &["a"], &["second"], &[], 1),
                effect(EffectOps::Call, &[], &["main"], &[], 2),
            ],
        ),
        function("second", &["n"], vec![]),
    ])
    .unwrap();
    let f = p.get(0).unwrap();
    match &f.blocks[0].flat_instrs[0] {
        FlatIR::Call { func, dest, args } => {
            assert_eq!((*func, *dest), (1, 0));
            assert_eq!(args, &vec![1]);
        }
        other => panic!("unexpected instruction {:?}", other),
    }
    assert!(matches!(&f.blocks[0].flat_instrs[1], FlatIR::EffectfulCall { func: 0, .. }));
    assert_eq!(p.get(1).unwrap().name, "second");
}

#[test]
fn a_float_constant_from_an_integer_literal_is_a_conversion() {
    let p = only(function(
        "f",
        &[],
        vec![
            Code::Instruction(Instruction::Constant {
                op: ConstOps::Const,
                dest: "x".to_string(),
                const_type: Type::Float,
                value: Literal::Int(3),
                pos: None,
            }),
            Code::Instruction(Instruction::Constant {
                op: ConstOps::Const,
                dest: "y".to_string(),
                const_type: Type::Float,
                value: Literal::Float(1.5f64.to_bits()),
                pos: None,
            }),
        ],
    ));
    let f = p.get(0).unwrap();
    assert!(matches!(f.blocks[0].flat_instrs[0], FlatIR::FloatConst { dest: 0, value: 3 }));
    match &f.blocks[0].flat_instrs[1] {
        FlatIR::Const { dest: 1, value: Literal::Float(bits) } => {
            assert_eq!(*bits, 1.5f64.to_bits())
        }
        other => panic!("unexpected instruction {:?}", other),
    }
}

#[test]
fn a_label_that_stands_twice_is_refused_at_its_second_place() {
    let r = build(vec![function(
        "f",
        &[],
        vec![label("a", 1), constant("x", 1), label("b", 2), label("a", 3)],
    )]);
    match r {
        Err((InterpError::DuplicateLabel(l), pos)) => {
            assert_eq!(l, "a");
            assert_eq!(pos, at(3));
        }
        other => panic!("unexpected result {:?}", other.map(|_| ())),
    }
}

#[test]
fn a_jump_to_a_label_that_does_not_exist_is_refused() {
    let r = build(vec![function(
        "f",
        &[],
        vec![label("a", 1), effect(EffectOps::Jump, &[], &[], &["b"], 7)],
    )]);
    match r {
        Err((InterpError::MissingLabel(l), pos)) => {
            assert_eq!(l, "b");
            assert_eq!(pos, at(7));
        }
        other => panic!("unexpected result {:?}", other.map(|_| ())),
    }
}

#[test]
fn a_call_of_a_function_that_does_not_exist_is_refused() {
    let r = build(vec![function(
        "f",
        &[],
        vec![effect(EffectOps::Call, &[], &["g"], &[], 4)],
    )]);
    match r {
        Err((InterpError::FuncNotFound(name), pos)) => {
            assert_eq!(name, "g");
            assert_eq!(pos, at(4));
        }
        other => panic!("unexpected result {:?}", other.map(|_| ())),
    }
}

#[test]
fn two_functions_of_one_name_are_refused() {
    let r = build(vec![function("f", &[], vec![]), function("g", &[], vec![]), function("f", &[], vec![])]);
    assert!(matches!(r, Err((InterpError::DuplicateFunction, None))));
}

#[test]
fn the_error_of_a_function_comes_before_a_duplicate_function() {
    let r = build(vec![
        function("f", &[], vec![]),
        function("f", &[], vec![effect(EffectOps::Jump, &[], &[], &["nowhere"], 9)]),
    ]);
    assert!(matches!(r, Err((InterpError::MissingLabel(_), _))));
}

#[test]
fn operations_with_the_wrong_number_of_operands_are_refused() {
    let one = |code: Code| build(vec![function("f", &[], vec![label("l", 1), code])]);
    assert!(matches!(
        one(value(ValueOps::Add, "x", &["a"], &[], &[], 2)),
        Err((InterpError::BadNumArgs(2, 1), _))
    ));
    assert!(matches!(
        one(value(ValueOps::Not, "x", &["a", "b"], &[], &[], 2)),
        Err((InterpError::BadNumArgs(1, 2), _))
    ));
    assert!(matches!(
        one(value(ValueOps::Call, "x", &["a"], &[], &[], 2)),
        Err((InterpError::BadNumFuncs(1, 0), _))
    ));
    assert!(matches!(
        one(value(ValueOps::Phi, "x", &["a", "b"], &[], &["l"], 2)),
        Err((InterpError::BadNumLabels(2, 1), _))
    ));
    assert!(matches!(
        one(effect(EffectOps::Jump, &[], &[], &[], 2)),
        Err((InterpError::BadNumLabels(1, 0), _))
    ));
    assert!(matches!(
        one(effect(EffectOps::Branch, &["c"], &[], &["l"], 2)),
        Err((InterpError::BadNumLabels(2, 1), _))
    ));
    assert!(matches!(
        one(effect(EffectOps::Branch, &[], &[], &["l", "l"], 2)),
        Err((InterpError::BadNumArgs(1, 0), _))
    ));
    assert!(matches!(
        one(effect(EffectOps::Return, &["a", "b"], &[], &[], 2)),
        Err((InterpError::BadNumArgs(1, 2), _))
    ));
    assert!(matches!(
        one(effect(EffectOps::Store, &["a"], &[], &[], 2)),
        Err((InterpError::BadNumArgs(2, 1), _))
    ));
    assert!(matches!(
        one(effect(EffectOps::Free, &[], &[], &[], 2)),
        Err((InterpError::BadNumArgs(1, 0), _))
    ));
    assert!(matches!(
        one(effect(EffectOps::Call, &[], &["f", "f"], &[], 2)),
        Err((InterpError::BadNumFuncs(1, 2), _))
    ));
    assert!(one(effect(EffectOps::Print, &["a", "b", "c"], &[], &[], 2)).is_ok());
    assert!(one(effect(EffectOps::Nop, &[], &[], &[], 2)).is_ok());
}

#[test]
fn a_name_map_numbers_names_as_they_come() {
    let mut map = NameMap::new();
    assert_eq!(map.len(), 0);
    let a = "a".to_string();
    let b = "b".to_string();
    assert_eq!(map.get(&a), None);
    assert_eq!(brilirs::names::get_num_from_map(&a, &mut map), Some(0));
    assert_eq!(brilirs::names::get_num_from_map(&b, &mut map), Some(1));
    assert_eq!(brilirs::names::get_num_from_map(&a, &mut map), Some(0));
    assert_eq!(map.len(), 2);
    assert_eq!(map.get(&b), Some(1));
    map.insert(b.clone(), 7);
    assert_eq!(map.get(&b), Some(7));
    assert_eq!(map.len(), 2);
}
