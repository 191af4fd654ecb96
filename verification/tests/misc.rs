use brilirs::brili;
use brilirs::cfg::Successor;
use brilirs::check::CheckError;
use brilirs::conversion::{
    AbstractArgument, AbstractCode, AbstractFunction, AbstractInstruction, AbstractProgram,
    AbstractType, ConversionError,
};
use brilirs::environment::Environment;
use brilirs::allocator::{BrilPointer, Pointer, Value};
use brilirs::error::InterpError;
use brilirs::interp::RunStatus;
use brilirs::mmtk_bril;
use brilirs::positional::{Position, PositionalError, PositionalErrorTrait};
use brilirs::program::{Code, ConstOps, EffectOps, Instruction, Literal, Program, Type, ValueOps};
use brilirs::run_input;
use brilirs::text;
use brilirs::types::TypeSignature;
use brilirs::worklist::Constraints;
use mmtk::AllocationSemantics;

#[test]
fn a_successor_lists_its_targets_true_branch_first() {
    assert_eq!(Successor::End.to_vec(), Vec::<u32>::new());
    assert_eq!(Successor::Jump(4).to_vec(), vec![4]);
    assert_eq!(Successor::Conditional { true_branch: 2, false_branch: 9 }.to_vec(), vec![2, 9]);
}

#[test]
fn constraints_keep_entry_and_exit_apart() {
    let mut c: Constraints<String> = Constraints::new();
    c.set_in_const(1, "in".to_string());
    c.set_out_const(1, "out".to_string());
    c.set_in_const(2, "other".to_string());
    assert_eq!(c.get_in_const(&1), "in");
    assert_eq!(c.get_out_const(&1), "out");
    c.set_in_const(1, "newer".to_string());
    assert_eq!(c.get_in_const(&1), "newer");
    assert_eq!(c.get_in_const(&2), "other");
    assert_eq!(c.get_out_const(&1), "out");
}

#[test]
fn meta_err_info_puts_function_and_line_before_the_message() {
    let ok: Result<u8, String> = Ok(3);
    assert_eq!(brili::meta_err_info("main", &7, ok), Ok(3));
    let err: Result<u8, String> = Err("boom".to_string());
    assert_eq!(
        brili::meta_err_info("main", &12, err),
        Err("Function main, Line 12 : boom".to_string())
    );
}

#[test]
fn a_typed_pointer_adds_offsets() {
    let p = brili::Pointer { base: 3, offset: 1, ptr_type: Type::Pointer(Box::new(Type::Int)) };
    let q = p.add(4);
    assert_eq!((q.base, q.offset), (3, 5));
    assert!(q.ptr_type.same(&p.ptr_type));
    assert_eq!(p.add(-2).offset, -1);
}

#[test]
fn signatures_of_operations() {
    let same = |a: &Vec<Type>, b: &[Type]| a.len() == b.len() && a.iter().zip(b).all(|(x, y)| x.same(y));
    let add = TypeSignature::from(ValueOps::Add);
    assert!(same(&add.inputs, &[Type::Int, Type::Int]) && same(&add.outputs, &[Type::Int]));
    let lt = TypeSignature::from(ValueOps::Lt);
    assert!(same(&lt.inputs, &[Type::Int, Type::Int]) && same(&lt.outputs, &[Type::Bool]));
    let not = TypeSignature::from(ValueOps::Not);
    assert!(same(&not.inputs, &[Type::Bool]) && same(&not.outputs, &[Type::Bool]));
    let and = TypeSignature::from(ValueOps::And);
    assert!(same(&and.inputs, &[Type::Bool, Type::Bool]) && same(&and.outputs, &[Type::Bool]));
    let fmul = TypeSignature::from(ValueOps::Fmul);
    assert!(same(&fmul.inputs, &[Type::Float, Type::Float]) && same(&fmul.outputs, &[Type::Float]));
    let fge = TypeSignature::from(ValueOps::Fge);
    assert!(same(&fge.inputs, &[Type::Float, Type::Float]) && same(&fge.outputs, &[Type::Bool]));
    let ceq = TypeSignature::from(ValueOps::Ceq);
    assert!(same(&ceq.inputs, &[Type::Char, Type::Char]) && same(&ceq.outputs, &[Type::Bool]));
    let c2i = TypeSignature::from(ValueOps::Char2int);
    assert!(same(&c2i.inputs, &[Type::Char]) && same(&c2i.outputs, &[Type::Int]));
    let i2c = TypeSignature::from(ValueOps::Int2char);
    assert!(same(&i2c.inputs, &[Type::Int]) && same(&i2c.outputs, &[Type::Char]));
}

#[test]
fn types_compare_and_copy() {
    let p = Type::Pointer(Box::new(Type::Pointer(Box::new(Type::Bool))));
    assert!(p.same(&p.copy()));
    assert!(p.same(&p.clone()));
    assert!(!p.same(&Type::Pointer(Box::new(Type::Bool))));
    assert!(!Type::Int.same(&Type::Bool));
    assert!(p.is_ptr());
    assert!(!Type::Char.is_ptr());
}

#[test]
fn add_pos_keeps_an_existing_position() {
    let first = Some(Position { col: 1, row: 2 });
    let second = Some(Position { col: 3, row: 4 });
    let e = PositionalError { e: 1u8, pos: first };
    assert_eq!(e.add_pos(second).pos, first);
    let e = PositionalError { e: 1u8, pos: None };
    assert_eq!(e.add_pos(second).pos, second);
    let e = PositionalError { e: 1u8, pos: None };
    assert_eq!(e.add_pos(None).pos, None);
}

#[test]
fn errors_take_positions() {
    let pos = Some(Position { col: 1, row: 2 });
    let e = InterpError::DivisionByZero.add_pos(pos);
    assert!(matches!(e.e, InterpError::DivisionByZero));
    assert_eq!(e.pos, pos);
    let e = ConversionError::MissingType.no_pos();
    assert!(matches!(e.e, ConversionError::MissingType));
    assert_eq!(e.pos, None);
}

#[test]
fn convert_widens_the_error_and_keeps_the_position() {
    let pos = Some(Position { col: 5, row: 6 });
    let r: Result<u8, PositionalError<ConversionError>> =
        Err(PositionalError { e: ConversionError::MissingType, pos });
    let out: Result<u8, PositionalError<InterpError>> = PositionalError::convert(r);
    match out {
        Err(e) => {
            assert!(matches!(e.e, InterpError::ConversionError(ConversionError::MissingType)));
            assert_eq!(e.pos, pos);
        }
        Ok(_) => panic!("an error was expected"),
    }
    let ok: Result<u8, PositionalError<ConversionError>> = Ok(9);
    let out: Result<u8, PositionalError<InterpError>> = PositionalError::convert(ok);
    assert!(matches!(out, Ok(9)));
}

fn prim(name: &str) -> Option<AbstractType> {
    Some(AbstractType::Primitive(name.to_string()))
}

fn ptr(inner: AbstractType) -> AbstractType {
    AbstractType::Parameterized("ptr".to_string(), Box::new(inner))
}

fn abstract_value(op: &str, dest: &str, ty: Option<AbstractType>, args: &[&str]) -> AbstractCode {
    AbstractCode::Instruction(AbstractInstruction::Value {
        op: op.to_string(),
        dest: dest.to_string(),
        op_type: ty,
        args: args.iter().map(|s| s.to_string()).collect(),
        funcs: vec![],
        labels: vec![],
        pos: Some(Position { col: 1, row: 5 }),
    })
}

fn abstract_effect(op: &str, args: &[&str], labels: &[&str]) -> AbstractCode {
    AbstractCode::Instruction(AbstractInstruction::Effect {
        op: op.to_string(),
        args: args.iter().map(|s| s.to_string()).collect(),
        funcs: vec![],
        labels: labels.iter().map(|s| s.to_string()).collect(),
        pos: Some(Position { col: 1, row: 6 }),
    })
}

fn abstract_main(instrs: Vec<AbstractCode>) -> AbstractProgram {
    AbstractProgram {
        imports: vec![],
        functions: vec![AbstractFunction {
            name: "main".to_string(),
            args: vec![AbstractArgument {
                name: "a".to_string(),
                arg_type: AbstractType::Primitive("int".to_string()),
            }],
            return_type: None,
            instrs,
            pos: Some(Position { col: 1, row: 1 }),
        }],
    }
}

#[test]
fn types_as_written_become_types() {
    let ok = |t: AbstractType, expected: Type| Type::try_from(&t).unwrap().same(&expected);
    assert!(ok(AbstractType::Primitive("int".to_string()), Type::Int));
    assert!(ok(AbstractType::Primitive("bool".to_string()), Type::Bool));
    assert!(ok(AbstractType::Primitive("float".to_string()), Type::Float));
    assert!(ok(AbstractType::Primitive("char".to_string()), Type::Char));
    assert!(ok(
        ptr(ptr(AbstractType::Primitive("bool".to_string()))),
        Type::Pointer(Box::new(Type::Pointer(Box::new(Type::Bool))))
    ));
    match Type::try_from(&AbstractType::Primitive("integer".to_string())) {
        Err(ConversionError::InvalidPrimitive(t)) => assert_eq!(t, "integer"),
        other => panic!("unexpected result {:?}", other),
    }
    match Type::try_from(&ptr(AbstractType::Primitive("x".to_string()))) {
        Err(ConversionError::InvalidPrimitive(t)) => assert_eq!(t, "x"),
        other => panic!("unexpected result {:?}", other),
    }
    let list = AbstractType::Parameterized(
        "list".to_string(),
        Box::new(ptr(AbstractType::Primitive("int".to_string()))),
    );
    assert_eq!(list.to_string(), "list<ptr<int>>");
    match Type::try_from(&list) {
        Err(ConversionError::InvalidParameterized(t, inner)) => {
            assert_eq!(t, "list");
            assert_eq!(inner, "ptr<int>");
        }
        other => panic!("unexpected result {:?}", other),
    }
    assert!(matches!(Type::try_from_option(&None), Err(ConversionError::MissingType)));
}

#[test]
fn operations_as_written_become_operations() {
    let value_ops = [
        ("add", ValueOps::Add), ("sub", ValueOps::Sub), ("mul", ValueOps::Mul),
        ("div", ValueOps::Div), ("eq", ValueOps::Eq), ("lt", ValueOps::Lt),
        ("gt", ValueOps::Gt), ("le", ValueOps::Le), ("ge", ValueOps::Ge),
        ("not", ValueOps::Not), ("and", ValueOps::And), ("or", ValueOps::Or),
        ("call", ValueOps::Call), ("id", ValueOps::Id), ("phi", ValueOps::Phi),
        ("fadd", ValueOps::Fadd), ("fsub", ValueOps::Fsub), ("fmul", ValueOps::Fmul),
        ("fdiv", ValueOps::Fdiv), ("feq", ValueOps::Feq), ("flt", ValueOps::Flt),
        ("fgt", ValueOps::Fgt), ("fle", ValueOps::Fle), ("fge", ValueOps::Fge),
        ("ceq", ValueOps::Ceq), ("clt", ValueOps::Clt), ("cgt", ValueOps::Cgt),
        ("cle", ValueOps::Cle), ("cge", ValueOps::Cge), ("char2int", ValueOps::Char2int),
        ("int2char", ValueOps::Int2char), ("alloc", ValueOps::Alloc), ("load", ValueOps::Load),
        ("ptradd", ValueOps::PtrAdd),
    ];
    for (name, op) in value_ops {
        assert_eq!(brilirs::conversion::value_op(&name.to_string()), Some(op));
    }
    let effect_ops = [
        ("jmp", EffectOps::Jump), ("br", EffectOps::Branch), ("call", EffectOps::Call),
        ("ret", EffectOps::Return), ("print", EffectOps::Print), ("nop", EffectOps::Nop),
        ("store", EffectOps::Store), ("free", EffectOps::Free),
    ];
    for (name, op) in effect_ops {
        assert_eq!(brilirs::conversion::effect_op(&name.to_string()), Some(op));
    }
    for bad in ["", "Add", "jump", "speculate", "addd"] {
        assert_eq!(brilirs::conversion::value_op(&bad.to_string()), None);
        assert_eq!(brilirs::conversion::effect_op(&bad.to_string()), None);
    }
}

#[test]
fn a_program_as_written_becomes_a_program() {
    let p = abstract_main(vec![
        AbstractCode::Label { label: "top".to_string(), pos: None },
        AbstractCode::Instruction(AbstractInstruction::Constant {
            op: ConstOps::Const,
            dest: "x".to_string(),
            const_type: prim("int"),
            value: Literal::Int(4),
            pos: None,
        }),
        abstract_value("add", "y", prim("int"), &["a", "x"]),
        abstract_effect("print", &["y"], &[]),
    ]);
    let prog = Program::try_from(p).unwrap();
    let f = &prog.functions[0];
    assert_eq!(f.name, "main");
    assert_eq!(f.args[0].name, "a");
    assert!(f.args[0].arg_type.same(&Type::Int));
    assert_eq!(f.instrs.len(), 4);
    assert!(matches!(&f.instrs[0], Code::Label { label, .. } if label == "top"));
    match &f.instrs[2] {
        Code::Instruction(Instruction::Value { op: ValueOps::Add, dest, args, pos, .. }) => {
            assert_eq!(dest, "y");
            assert_eq!(args, &vec!["a".to_string(), "x".to_string()]);
            assert_eq!(*pos, Some(Position { col: 1, row: 5 }));
        }
        other => panic!("unexpected code {:?}", other),
    }
    assert!(matches!(
        &f.instrs[3],
        Code::Instruction(Instruction::Effect { op: EffectOps::Print, .. })
    ));
}

#[test]
fn names_that_are_no_operations_are_refused_at_their_position() {
    let r = Program::try_from(abstract_main(vec![abstract_value("plus", "y", prim("int"), &[])]));
    match r {
        Err(e) => {
            assert!(matches!(e.e, ConversionError::InvalidValueOps(op) if op == "plus"));
            assert_eq!(e.pos, Some(Position { col: 1, row: 5 }));
        }
        Ok(_) => panic!("an error was expected"),
    }
    let r = Program::try_from(abstract_main(vec![abstract_effect("jump", &[], &["l"])]));
    match r {
        Err(e) => {
            assert!(matches!(e.e, ConversionError::InvalidEffectOps(op) if op == "jump"));
            assert_eq!(e.pos, Some(Position { col: 1, row: 6 }));
        }
        Ok(_) => panic!("an error was expected"),
    }
    let r = Program::try_from(abstract_main(vec![abstract_value("plus", "y", None, &[])]));
    assert!(matches!(r, Err(e) if matches!(e.e, ConversionError::MissingType)));
}

#[test]
fn run_input_goes_from_a_written_program_to_its_output() {
    let p = || {
        abstract_main(vec![
            abstract_value("add", "y", prim("int"), &["a", "a"]),
            abstract_effect("print", &["y"], &[]),
        ])
    };
    let report = run_input(p(), &vec!["21".to_string()], &vec![], true, false, 100);
    assert_eq!(report.out, "42\n");
    assert_eq!(report.profiling_out, "total_dyn_inst: 2\n");
    assert!(matches!(report.status, RunStatus::Finished));

    let checked = run_input(p(), &vec!["21".to_string()], &vec![], true, true, 100);
    assert_eq!(checked.out, "");
    assert_eq!(checked.profiling_out, "");
    assert!(matches!(checked.status, RunStatus::Finished));

    let bad = run_input(
        abstract_main(vec![abstract_value("plus", "y", prim("int"), &[])]),
        &vec![],
        &vec![],
        false,
        false,
        100,
    );
    assert!(matches!(
        bad.status,
        RunStatus::Failed(e) if matches!(e.e, InterpError::ConversionError(ConversionError::InvalidValueOps(_)))
    ));

    let unbuilt = run_input(
        abstract_main(vec![abstract_effect("jmp", &[], &["nowhere"])]),
        &vec![],
        &vec![],
        false,
        true,
        100,
    );
    assert!(matches!(
        unbuilt.status,
        RunStatus::Failed(e) if matches!(&e.e, InterpError::CheckError(CheckError::MissingLabel(l)) if l == "nowhere")
            && e.pos == Some(Position { col: 1, row: 6 })
    ));
}

fn sample_value() -> Instruction {
    Instruction::Value {
        op: ValueOps::Add,
        dest: "d".to_string(),
        op_type: Type::Int,
        args: vec!["a".to_string()],
        funcs: vec![],
        labels: vec!["l".to_string()],
        pos: None,
    }
}

fn sample_constant() -> Instruction {
    Instruction::Constant {
        op: ConstOps::Const,
        dest: "c".to_string(),
        const_type: Type::Bool,
        value: Literal::Bool(true),
        pos: Some(Position { col: 7, row: 8 }),
    }
}

fn sample_effect(op: EffectOps) -> Instruction {
    Instruction::Effect { op, args: vec!["x".to_string()], funcs: vec![], labels: vec![], pos: None }
}

#[test]
fn instructions_give_and_take_their_parts() {
    let mut v = sample_value();
    assert_eq!(v.get_args(), Some(&vec!["a".to_string()]));
    assert_eq!(v.get_labels(), Some(&vec!["l".to_string()]));
    assert_eq!(v.get_dest(), Some(&"d".to_string()));
    assert!(v.get_type().unwrap().same(&Type::Int));
    assert_eq!(v.get_pos(), None);
    v.set_args(vec!["p".to_string(), "q".to_string()]);
    v.set_labels(vec![]);
    v.set_dest("e".to_string());
    assert_eq!(v.get_args(), Some(&vec!["p".to_string(), "q".to_string()]));
    assert_eq!(v.get_labels(), Some(&vec![]));
    assert_eq!(v.get_dest(), Some(&"e".to_string()));
    assert!(matches!(v, Instruction::Value { op: ValueOps::Add, .. }));

    let mut c = sample_constant();
    assert_eq!(c.get_args(), None);
    assert_eq!(c.get_labels(), None);
    assert_eq!(c.get_dest(), Some(&"c".to_string()));
    assert!(c.get_type().unwrap().same(&Type::Bool));
    assert_eq!(c.get_pos(), Some(Position { col: 7, row: 8 }));
    c.set_dest("k".to_string());
    assert_eq!(c.get_dest(), Some(&"k".to_string()));

    let mut e = sample_effect(EffectOps::Print);
    assert_eq!(e.get_dest(), None);
    assert!(e.get_type().is_none());
    e.set_args(vec![]);
    e.set_labels(vec!["m".to_string()]);
    assert_eq!(e.get_args(), Some(&vec![]));
    assert_eq!(e.get_labels(), Some(&vec!["m".to_string()]));
}

#[test]
fn only_jumps_branches_and_returns_end_a_block() {
    assert!(sample_effect(EffectOps::Jump).ends_block());
    assert!(sample_effect(EffectOps::Branch).ends_block());
    assert!(sample_effect(EffectOps::Return).ends_block());
    assert!(!sample_effect(EffectOps::Print).ends_block());
    assert!(!sample_effect(EffectOps::Call).ends_block());
    assert!(!sample_value().ends_block());
    assert!(!sample_constant().ends_block());
    assert!(sample_value().not_phi());
    assert!(sample_constant().not_phi());
    let phi = Instruction::Value {
        op: ValueOps::Phi,
        dest: "d".to_string(),
        op_type: Type::Int,
        args: vec![],
        funcs: vec![],
        labels: vec![],
        pos: None,
    };
    assert!(!phi.not_phi());
}

#[test]
fn the_environment_keeps_frames_apart() {
    let mut env: Environment<Pointer> = Environment::new(2);
    env.set(0, Value::Int(1));
    env.set(1, Value::Int(2));
    assert!(env.can_push(3));
    env.push_frame(3);
    assert_eq!(*env.get(0), Value::Uninitialized);
    assert_eq!(*env.get_from_last_frame(1), Value::Int(2));
    env.set(0, Value::Int(10));
    env.set(2, Value::Bool(true));
    env.push_frame(100);
    assert_eq!(*env.get(99), Value::Uninitialized);
    assert_eq!(*env.get_from_last_frame(2), Value::Bool(true));
    env.set(99, Value::Int(5));
    env.pop_frame();
    assert_eq!(*env.get(0), Value::Int(10));
    assert_eq!(*env.get(2), Value::Bool(true));
    env.pop_frame();
    assert_eq!(*env.get(0), Value::Int(1));
    assert_eq!(*env.get(1), Value::Int(2));
    env.push_frame(1);
    assert_eq!(*env.get(0), Value::Uninitialized);
    assert_eq!(*env.get_from_last_frame(0), Value::Int(1));
    env.pop_frame();
    env.push_frame(3);
    assert_eq!(*env.get(0), Value::Uninitialized);
    assert_eq!(*env.get(1), Value::Uninitialized);
    assert_eq!(*env.get(2), Value::Uninitialized);
    assert!(!env.can_push(usize::MAX));
}

#[test]
fn a_new_frame_does_not_see_what_an_old_one_left() {
    let mut env: Environment<Pointer> = Environment::new(1);
    env.push_frame(1);
    env.set(0, Value::Int(7));
    env.pop_frame();
    env.push_frame(1);
    assert_eq!(*env.get(0), Value::Uninitialized);
}

#[test]
fn texts_of_values() {
    let mut out = String::new();
    text::optimized_val_output(&mut out, &Value::<Pointer>::Int(-12), "");
    text::append_char(&mut out, ' ');
    text::optimized_val_output(&mut out, &Value::<Pointer>::Bool(true), "");
    text::append_char(&mut out, ' ');
    text::optimized_val_output(&mut out, &Value::<Pointer>::Bool(false), "");
    text::append_char(&mut out, ' ');
    text::optimized_val_output(&mut out, &Value::<Pointer>::Char('\u{1F600}'), "");
    text::append_char(&mut out, ' ');
    text::optimized_val_output(&mut out, &Value::<Pointer>::Float(0), "0.00000000000000000");
    text::append_char(&mut out, ' ');
    text::optimized_val_output(&mut out, &Value::Pointer(Pointer::new(3, -4)), "");
    text::append_char(&mut out, ' ');
    text::append_usize(&mut out, usize::MAX);
    assert_eq!(
        out,
        format!(
            "-12 true false \u{1F600} 0.00000000000000000 Pointer {{ base: 3, offset: -4 }} {}",
            usize::MAX
        )
    );
}

#[test]
fn texts_of_arguments() {
    assert_eq!(text::parse_int("0"), Some(0));
    assert_eq!(text::parse_int("-0"), Some(0));
    assert_eq!(text::parse_int("007"), Some(7));
    assert_eq!(text::parse_int("+9223372036854775807"), Some(i64::MAX));
    assert_eq!(text::parse_int("-9223372036854775809"), None);
    assert_eq!(text::parse_int("12a"), None);
    assert_eq!(text::parse_int("\u{661}"), None);
    assert_eq!(text::parse_bool("true"), Some(true));
    assert_eq!(text::parse_bool("false"), Some(false));
    assert_eq!(text::parse_bool("TRUE"), None);
    assert_eq!(text::escape_control_chars("a"), Some('a'));
    assert_eq!(text::escape_control_chars("\\"), Some('\\'));
    assert_eq!(text::escape_control_chars("\\0"), Some('\0'));
    assert_eq!(text::escape_control_chars("\\a"), Some('\u{7}'));
    assert_eq!(text::escape_control_chars("\\b"), Some('\u{8}'));
    assert_eq!(text::escape_control_chars("\\t"), Some('\t'));
    assert_eq!(text::escape_control_chars("\\n"), Some('\n'));
    assert_eq!(text::escape_control_chars("\\v"), Some('\u{B}'));
    assert_eq!(text::escape_control_chars("\\f"), Some('\u{C}'));
    assert_eq!(text::escape_control_chars("\\r"), Some('\r'));
    assert_eq!(text::escape_control_chars("\\q"), None);
    assert_eq!(text::escape_control_chars(""), None);
    assert_eq!(text::int_to_char(65), Some('A'));
    assert_eq!(text::int_to_char(0xD800), None);
    assert_eq!(text::int_to_char(0x10FFFF), Some('\u{10FFFF}'));
    assert_eq!(text::int_to_char(0x1_0000_0041), None);
}

#[test]
fn large_objects_get_large_object_semantics() {
    let r = mmtk_bril::mmtk_alloc(100, 99, 8, 0, AllocationSemantics::Default);
    assert_eq!((r.size, r.align, r.offset), (99, 8, 0));
    assert_eq!(r.semantics, AllocationSemantics::Default);
    let r = mmtk_bril::mmtk_alloc(100, 100, 16, 4, AllocationSemantics::Immortal);
    assert_eq!((r.size, r.align, r.offset), (100, 16, 4));
    assert_eq!(r.semantics, AllocationSemantics::Los);
    assert_eq!(
        mmtk_bril::mmtk_post_alloc(100, 99, AllocationSemantics::NonMoving),
        AllocationSemantics::NonMoving
    );
    assert_eq!(
        mmtk_bril::mmtk_post_alloc(100, 1000, AllocationSemantics::NonMoving),
        AllocationSemantics::Los
    );
    let r = mmtk_bril::bril_alloc(64, 16, 3).unwrap();
    assert_eq!((r.size, r.align, r.offset, r.semantics), (48, 8, 0, AllocationSemantics::Default));
    let r = mmtk_bril::bril_alloc(64, 16, 4).unwrap();
    assert_eq!((r.size, r.semantics), (64, AllocationSemantics::Los));
    assert!(mmtk_bril::bril_alloc(64, 16, usize::MAX).is_none());
    assert!(mmtk_bril::mmtk_will_never_move(false));
    assert!(!mmtk_bril::mmtk_will_never_move(true));
}

#[test]
fn a_fixed_heap_size_must_not_be_zero() {
    let mut builder = mmtk::MMTKBuilder::new_no_env_vars();
    assert!(mmtk_bril::set_fixed_heap_size(&mut builder, 1048576));
    assert_eq!(mmtk_bril::fixed_heap_size(&builder), Some(1048576));
    assert!(matches!(
        *builder.options.gc_trigger,
        mmtk::util::options::GCTriggerSelector::FixedHeapSize(1048576)
    ));
    assert!(!mmtk_bril::set_fixed_heap_size(&mut builder, 0));
    assert_eq!(mmtk_bril::fixed_heap_size(&builder), Some(1048576));
    assert!(mmtk_bril::set_fixed_heap_size(&mut builder, 7));
    assert_eq!(mmtk_bril::fixed_heap_size(&builder), Some(7));
    builder.options.gc_trigger.set(mmtk::util::options::GCTriggerSelector::Delegated);
    assert_eq!(mmtk_bril::fixed_heap_size(&builder), None);
    assert!(!mmtk_bril::set_fixed_heap_size(&mut builder, 0));
    assert_eq!(mmtk_bril::fixed_heap_size(&builder), None);
    assert!(mmtk_bril::set_fixed_heap_size(&mut builder, 1048576));
    assert!(matches!(
        *builder.options.gc_trigger,
        mmtk::util::options::GCTriggerSelector::FixedHeapSize(1048576)
    ));
}

#[test]
fn memory_from_mmtk_can_be_resized_and_freed() {
    let memory = mmtk_bril::mmtk_malloc(16);
    let first = memory.address();
    assert!(!first.is_zero());
    assert!(!memory.is_null());
    assert_eq!(memory.is_null(), memory.address().as_usize() == 0);
    let other = mmtk_bril::mmtk_malloc(16);
    assert!(other.address() != first);
    let memory = mmtk_bril::mmtk_realloc(memory, 1 << 20);
    assert!(!memory.address().is_zero());
    assert!(memory.address() != other.address());
    mmtk_bril::mmtk_free(memory);
    mmtk_bril::mmtk_free(other);
    let zeroed = mmtk_bril::mmtk_calloc(4, 8);
    assert!(!zeroed.address().is_zero());
    mmtk_bril::mmtk_free(zeroed);
}

#[test]
fn the_heap_of_mmtk_has_a_start_before_its_end() {
    let start = mmtk_bril::mmtk_starting_heap_address();
    let end = mmtk_bril::mmtk_last_heap_address();
    assert!(start < end);
    assert_eq!(start.as_usize() % 0x40_0000, 0);
    assert_eq!(end.as_usize() % 0x40_0000, 0);
    assert!(end.as_usize() >= 0x40_0000);
    assert!(start.as_usize().checked_add(0x40_0000).is_some());
    assert!(!mmtk_bril::mmtk_is_mapped_address(mmtk::util::Address::ZERO));
}

#[test]
fn the_first_thing_that_does_not_convert_is_the_error() {
    let written = |arg: &str, ret: &str, instrs: Vec<AbstractCode>| AbstractFunction {
        name: "f".to_string(),
        args: vec![
            AbstractArgument { name: "a".to_string(), arg_type: AbstractType::Primitive("int".to_string()) },
            AbstractArgument { name: "b".to_string(), arg_type: AbstractType::Primitive(arg.to_string()) },
            AbstractArgument { name: "c".to_string(), arg_type: AbstractType::Primitive("late".to_string()) },
        ],
        return_type: prim(ret),
        instrs,
        pos: Some(Position { col: 1, row: 1 }),
    };
    let body = || {
        vec![
            abstract_value("add", "x", prim("int"), &["a", "a"]),
            abstract_value("plus", "y", prim("int"), &["a", "a"]),
            abstract_value("times", "z", prim("int"), &["a", "a"]),
        ]
    };
    let failure = |f: AbstractFunction| match brilirs::program::Function::try_from(&f) {
        Err(e) => e,
        Ok(_) => panic!("the function does not convert"),
    };
    let e = failure(written("early", "never", body()));
    assert!(matches!(e.e, ConversionError::InvalidPrimitive(t) if t == "early"));
    assert_eq!(e.pos, Some(Position { col: 1, row: 1 }));
    let e = failure(written("int", "never", body()));
    assert!(matches!(e.e, ConversionError::InvalidPrimitive(t) if t == "late"));
}

#[test]
fn the_first_instruction_that_does_not_convert_is_the_error() {
    let written = |ret: &str, instrs: Vec<AbstractCode>| AbstractFunction {
        name: "f".to_string(),
        args: vec![AbstractArgument {
            name: "a".to_string(),
            arg_type: AbstractType::Primitive("int".to_string()),
        }],
        return_type: prim(ret),
        instrs,
        pos: Some(Position { col: 1, row: 1 }),
    };
    let failure = |f: AbstractFunction| match brilirs::program::Function::try_from(&f) {
        Err(e) => e,
        Ok(_) => panic!("the function does not convert"),
    };
    let e = failure(written(
        "never",
        vec![
            abstract_value("add", "x", prim("int"), &["a", "a"]),
            abstract_value("plus", "y", prim("int"), &["a", "a"]),
            abstract_value("times", "z", prim("int"), &["a", "a"]),
        ],
    ));
    assert!(matches!(e.e, ConversionError::InvalidValueOps(op) if op == "plus"));
    assert_eq!(e.pos, Some(Position { col: 1, row: 5 }));
    let e = failure(written("never", vec![abstract_value("add", "x", prim("int"), &["a", "a"])]));
    assert!(matches!(e.e, ConversionError::InvalidPrimitive(t) if t == "never"));
    assert_eq!(e.pos, Some(Position { col: 1, row: 1 }));
}
