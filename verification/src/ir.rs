use vstd::prelude::*;
use crate::error::InterpError;
use crate::names::{dense, get_num_from_map, lemma_with_names_dense, with_name, with_names, NameMap};
use crate::positional::PositionalError;
use crate::program::{EffectOps, Instruction, Literal, Type, ValueOps};

verus! {

/// The slot number of a variable within its function's frame.
pub type VarIndex = usize;

/// The position of a function within its program.
pub type FuncIndex = usize;

/// The position of a basic block within its function.
pub type LabelIndex = usize;

/// An instruction with every name resolved: variables to slots, labels to
/// blocks, functions to positions in the program.
#[derive(Debug)]
pub enum FlatIR {
    /// Write a literal to `dest`.
    Const { dest: VarIndex, value: Literal },
    /// Write the floating point number nearest to an integer literal to `dest`.
    FloatConst { dest: VarIndex, value: i64 },
    /// Apply an operation of one operand.
    Unary { op: ValueOps, dest: VarIndex, arg: VarIndex },
    /// Apply an operation of two operands.
    Binary { op: ValueOps, dest: VarIndex, arg0: VarIndex, arg1: VarIndex },
    /// Call a function and write what it returns to `dest`.
    Call { func: FuncIndex, dest: VarIndex, args: Vec<VarIndex> },
    /// Write the argument that belongs to the block control came from.
    Phi { dest: VarIndex, labels: Vec<LabelIndex>, args: Vec<VarIndex> },
    /// Do nothing.
    Nop,
    /// Go to a block.
    Jump { dest: LabelIndex },
    /// Go to one of two blocks.
    Branch { arg: VarIndex, true_dest: LabelIndex, false_dest: LabelIndex },
    /// Return a value.
    ReturnValue { arg: VarIndex },
    /// Return without a value.
    ReturnVoid,
    /// Call a function for its effects.
    EffectfulCall { func: FuncIndex, args: Vec<VarIndex> },
    /// Print values on one line.
    Print { args: Vec<VarIndex> },
    /// Store `arg1` through the pointer `arg0`.
    Store { arg0: VarIndex, arg1: VarIndex },
    /// Free the allocation a pointer refers to.
    Free { arg: VarIndex },
}

/// What a [`FlatIR`] says, with sequences for its lists.
pub enum FlatView {
    Const { dest: VarIndex, value: Literal },
    FloatConst { dest: VarIndex, value: i64 },
    Unary { op: ValueOps, dest: VarIndex, arg: VarIndex },
    Binary { op: ValueOps, dest: VarIndex, arg0: VarIndex, arg1: VarIndex },
    Call { func: FuncIndex, dest: VarIndex, args: Seq<VarIndex> },
    Phi { dest: VarIndex, labels: Seq<LabelIndex>, args: Seq<VarIndex> },
    Nop,
    Jump { dest: LabelIndex },
    Branch { arg: VarIndex, true_dest: LabelIndex, false_dest: LabelIndex },
    ReturnValue { arg: VarIndex },
    ReturnVoid,
    EffectfulCall { func: FuncIndex, args: Seq<VarIndex> },
    Print { args: Seq<VarIndex> },
    Store { arg0: VarIndex, arg1: VarIndex },
    Free { arg: VarIndex },
}

impl View for FlatIR {
    type V = FlatView;

    open spec fn view(&self) -> FlatView {
        match self {
            FlatIR::Const { dest, value } => FlatView::Const { dest: *dest, value: *value },
            FlatIR::FloatConst { dest, value } => FlatView::FloatConst {
                dest: *dest,
                value: *value,
            },
            FlatIR::Unary { op, dest, arg } => FlatView::Unary { op: *op, dest: *dest, arg: *arg },
            FlatIR::Binary { op, dest, arg0, arg1 } => FlatView::Binary {
                op: *op,
                dest: *dest,
                arg0: *arg0,
                arg1: *arg1,
            },
            FlatIR::Call { func, dest, args } => FlatView::Call {
                func: *func,
                dest: *dest,
                args: args@,
            },
            FlatIR::Phi { dest, labels, args } => FlatView::Phi {
                dest: *dest,
                labels: labels@,
                args: args@,
            },
            FlatIR::Nop => FlatView::Nop,
            FlatIR::Jump { dest } => FlatView::Jump { dest: *dest },
            FlatIR::Branch { arg, true_dest, false_dest } => FlatView::Branch {
                arg: *arg,
                true_dest: *true_dest,
                false_dest: *false_dest,
            },
            FlatIR::ReturnValue { arg } => FlatView::ReturnValue { arg: *arg },
            FlatIR::ReturnVoid => FlatView::ReturnVoid,
            FlatIR::EffectfulCall { func, args } => FlatView::EffectfulCall {
                func: *func,
                args: args@,
            },
            FlatIR::Print { args } => FlatView::Print { args: args@ },
            FlatIR::Store { arg0, arg1 } => FlatView::Store { arg0: *arg0, arg1: *arg1 },
            FlatIR::Free { arg } => FlatView::Free { arg: *arg },
        }
    }
}

/// Whether every entry of `s` is below `bound`.
pub open spec fn all_below(s: Seq<usize>, bound: nat) -> bool {
    forall|i: int| 0 <= i < s.len() ==> #[trigger] s[i] < bound
}

/// Whether `op` is a value operation of one operand.
pub open spec fn is_unary(op: ValueOps) -> bool {
    op == ValueOps::Not || op == ValueOps::Id || op == ValueOps::Char2int || op
        == ValueOps::Int2char || op == ValueOps::Alloc || op == ValueOps::Load
}

/// Whether `op` is a value operation of two operands.
pub open spec fn is_binary(op: ValueOps) -> bool {
    !is_unary(op) && op != ValueOps::Call && op != ValueOps::Phi
}

impl FlatView {
    /// Whether the instruction only names slots below `vars`, blocks below
    /// `blocks` and functions below `funcs`, and has an operation that fits
    /// its shape.
    pub open spec fn wf(self, vars: nat, blocks: nat, funcs: nat) -> bool {
        match self {
            FlatView::Const { dest, .. } => dest < vars,
            FlatView::FloatConst { dest, .. } => dest < vars,
            FlatView::Unary { op, dest, arg } => is_unary(op) && dest < vars && arg < vars,
            FlatView::Binary { op, dest, arg0, arg1 } => is_binary(op) && dest < vars && arg0 < vars
                && arg1 < vars,
            FlatView::Call { func, dest, args } => func < funcs && dest < vars && all_below(
                args,
                vars,
            ),
            FlatView::Phi { dest, labels, args } => dest < vars && labels.len() == args.len()
                && all_below(labels, blocks) && all_below(args, vars),
            FlatView::Nop => true,
            FlatView::Jump { dest } => dest < blocks,
            FlatView::Branch { arg, true_dest, false_dest } => arg < vars && true_dest < blocks
                && false_dest < blocks,
            FlatView::ReturnValue { arg } => arg < vars,
            FlatView::ReturnVoid => true,
            FlatView::EffectfulCall { func, args } => func < funcs && all_below(args, vars),
            FlatView::Print { args } => all_below(args, vars),
            FlatView::Store { arg0, arg1 } => arg0 < vars && arg1 < vars,
            FlatView::Free { arg } => arg < vars,
        }
    }

    /// Whether the instruction ends its block.
    pub open spec fn is_terminator(self) -> bool {
        self is Jump || self is Branch || self is ReturnValue || self is ReturnVoid
    }
}

/// The number of each of `names` in `m`.
pub open spec fn lookup_all(m: Map<Seq<char>, usize>, names: Seq<String>) -> Seq<usize> {
    Seq::new(names.len(), |i: int| m[names[i]@])
}

/// Whether `m` has a number for each of `names`.
pub open spec fn all_known(m: Map<Seq<char>, usize>, names: Seq<String>) -> bool {
    forall|i: int| 0 <= i < names.len() ==> m.contains_key(#[trigger] names[i]@)
}

/// The first of `names` that `m` has no number for.
pub open spec fn first_unknown(m: Map<Seq<char>, usize>, names: Seq<String>) -> Option<String>
    decreases names.len(),
{
    if names.len() == 0 {
        None
    } else if !m.contains_key(names[0]@) {
        Some(names[0])
    } else {
        first_unknown(m, names.drop_first())
    }
}

/// If no name is unknown, all are known.
pub proof fn lemma_first_unknown_none(m: Map<Seq<char>, usize>, names: Seq<String>)
    requires
        first_unknown(m, names) is None,
    ensures
        all_known(m, names),
    decreases names.len(),
{
    if names.len() > 0 {
        lemma_first_unknown_none(m, names.drop_first());
        assert forall|i: int| 0 <= i < names.len() implies m.contains_key(#[trigger] names[i]@) by {
            if i > 0 {
                assert(names[i] == names.drop_first()[i - 1]);
            }
        }
    }
}

/// The variable numbering after the names that `i` mentions were looked up in
/// `vars` and added where missing: the destination first, then the arguments.
pub open spec fn vars_after(i: Instruction, vars: Map<Seq<char>, usize>) -> Map<Seq<char>, usize> {
    match i {
        Instruction::Constant { dest, .. } => with_name(vars, dest@),
        Instruction::Value { dest, args, .. } => with_names(with_name(vars, dest@), args@),
        Instruction::Effect { args, .. } => with_names(vars, args@),
    }
}

/// The flat form of a value operation, given its resolved operands.
pub open spec fn value_shape(
    op: ValueOps,
    dest: usize,
    args: Seq<usize>,
    funcs: Seq<usize>,
    labels: Seq<usize>,
) -> Result<FlatView, InterpError> {
    if op == ValueOps::Call {
        if funcs.len() != 1 {
            Err(InterpError::BadNumFuncs(1, funcs.len() as usize))
        } else {
            Ok(FlatView::Call { func: funcs[0], dest, args })
        }
    } else if op == ValueOps::Phi {
        if labels.len() != args.len() {
            Err(InterpError::BadNumLabels(args.len() as usize, labels.len() as usize))
        } else {
            Ok(FlatView::Phi { dest, labels, args })
        }
    } else if is_unary(op) {
        if args.len() != 1 {
            Err(InterpError::BadNumArgs(1, args.len() as usize))
        } else {
            Ok(FlatView::Unary { op, dest, arg: args[0] })
        }
    } else {
        if args.len() != 2 {
            Err(InterpError::BadNumArgs(2, args.len() as usize))
        } else {
            Ok(FlatView::Binary { op, dest, arg0: args[0], arg1: args[1] })
        }
    }
}

/// The flat form of an effect operation, given its resolved operands.
pub open spec fn effect_shape(
    op: EffectOps,
    args: Seq<usize>,
    funcs: Seq<usize>,
    labels: Seq<usize>,
) -> Result<FlatView, InterpError> {
    match op {
        EffectOps::Jump => if labels.len() != 1 {
            Err(InterpError::BadNumLabels(1, labels.len() as usize))
        } else {
            Ok(FlatView::Jump { dest: labels[0] })
        },
        EffectOps::Branch => if args.len() != 1 {
            Err(InterpError::BadNumArgs(1, args.len() as usize))
        } else if labels.len() != 2 {
            Err(InterpError::BadNumLabels(2, labels.len() as usize))
        } else {
            Ok(FlatView::Branch { arg: args[0], true_dest: labels[0], false_dest: labels[1] })
        },
        EffectOps::Call => if funcs.len() != 1 {
            Err(InterpError::BadNumFuncs(1, funcs.len() as usize))
        } else {
            Ok(FlatView::EffectfulCall { func: funcs[0], args })
        },
        EffectOps::Return => if args.len() == 0 {
            Ok(FlatView::ReturnVoid)
        } else if args.len() == 1 {
            Ok(FlatView::ReturnValue { arg: args[0] })
        } else {
            Err(InterpError::BadNumArgs(1, args.len() as usize))
        },
        EffectOps::Print => Ok(FlatView::Print { args }),
        EffectOps::Nop => Ok(FlatView::Nop),
        EffectOps::Store => if args.len() != 2 {
            Err(InterpError::BadNumArgs(2, args.len() as usize))
        } else {
            Ok(FlatView::Store { arg0: args[0], arg1: args[1] })
        },
        EffectOps::Free => if args.len() != 1 {
            Err(InterpError::BadNumArgs(1, args.len() as usize))
        } else {
            Ok(FlatView::Free { arg: args[0] })
        },
    }
}

/// The flat form of `i`, or why it has none. `vars` is the variable numbering
/// after the names of `i` were added to it; `funcs` and `labels` number the
/// program's functions and the function's labels.
pub open spec fn flatten(
    i: Instruction,
    funcs: Map<Seq<char>, usize>,
    vars: Map<Seq<char>, usize>,
    labels: Map<Seq<char>, usize>,
) -> Result<FlatView, InterpError> {
    match i {
        Instruction::Constant { dest, const_type, value, .. } => {
            if !vars.contains_key(dest@) {
                Err(InterpError::TooManyVariables)
            } else if const_type is Float && value is Int {
                Ok(FlatView::FloatConst { dest: vars[dest@], value: value->Int_0 })
            } else {
                Ok(FlatView::Const { dest: vars[dest@], value })
            }
        },
        Instruction::Value { op, dest, args, funcs: fs, labels: ls, .. } => {
            if !vars.contains_key(dest@) || !all_known(vars, args@) {
                Err(InterpError::TooManyVariables)
            } else if first_unknown(funcs, fs@) is Some {
                Err(InterpError::FuncNotFound(first_unknown(funcs, fs@).unwrap()))
            } else if first_unknown(labels, ls@) is Some {
                Err(InterpError::MissingLabel(first_unknown(labels, ls@).unwrap()))
            } else {
                value_shape(
                    op,
                    vars[dest@],
                    lookup_all(vars, args@),
                    lookup_all(funcs, fs@),
                    lookup_all(labels, ls@),
                )
            }
        },
        Instruction::Effect { op, args, funcs: fs, labels: ls, .. } => {
            if !all_known(vars, args@) {
                Err(InterpError::TooManyVariables)
            } else if first_unknown(funcs, fs@) is Some {
                Err(InterpError::FuncNotFound(first_unknown(funcs, fs@).unwrap()))
            } else if first_unknown(labels, ls@) is Some {
                Err(InterpError::MissingLabel(first_unknown(labels, ls@).unwrap()))
            } else {
                effect_shape(
                    op,
                    lookup_all(vars, args@),
                    lookup_all(funcs, fs@),
                    lookup_all(labels, ls@),
                )
            }
        },
    }
}

/// Whether every number in `m` is below `bound`.
pub open spec fn numbers_below(m: Map<Seq<char>, usize>, bound: nat) -> bool {
    forall|n: Seq<char>| #[trigger] m.contains_key(n) ==> m[n] < bound
}

/// A flat instruction only names slots, blocks and functions that exist.
pub proof fn lemma_flatten_wf(
    i: Instruction,
    funcs: Map<Seq<char>, usize>,
    vars: Map<Seq<char>, usize>,
    labels: Map<Seq<char>, usize>,
    num_funcs: nat,
    num_blocks: nat,
)
    requires
        numbers_below(vars, vars.dom().len()),
        numbers_below(funcs, num_funcs),
        numbers_below(labels, num_blocks),
        flatten(i, funcs, vars, labels) is Ok,
    ensures
        flatten(i, funcs, vars, labels).unwrap().wf(vars.dom().len(), num_blocks, num_funcs),
{
    match i {
        Instruction::Constant { .. } => {},
        Instruction::Value { args, funcs: fs, labels: ls, .. } => {
            lemma_first_unknown_none(funcs, fs@);
            lemma_first_unknown_none(labels, ls@);
            lemma_lookup_below(vars, args@, vars.dom().len());
            lemma_lookup_below(funcs, fs@, num_funcs);
            lemma_lookup_below(labels, ls@, num_blocks);
        },
        Instruction::Effect { args, funcs: fs, labels: ls, .. } => {
            lemma_first_unknown_none(funcs, fs@);
            lemma_first_unknown_none(labels, ls@);
            lemma_lookup_below(vars, args@, vars.dom().len());
            lemma_lookup_below(funcs, fs@, num_funcs);
            lemma_lookup_below(labels, ls@, num_blocks);
        },
    }
}

/// The numbers of known names are below what bounds the map's numbers.
pub proof fn lemma_lookup_below(m: Map<Seq<char>, usize>, names: Seq<String>, bound: nat)
    requires
        numbers_below(m, bound),
        all_known(m, names),
    ensures
        all_below(lookup_all(m, names), bound),
{
    assert forall|i: int| 0 <= i < names.len() implies #[trigger] lookup_all(m, names)[i]
        < bound by {
        assert(m.contains_key(names[i]@));
    }
}

/// Looks each of `names` up in `map`: their numbers, or the first name that
/// has none.
pub fn resolve_all(names: &Vec<String>, map: &NameMap) -> (r: Result<Vec<usize>, String>)
    ensures
        match r {
            Ok(v) => first_unknown(map@, names@) is None && v@ == lookup_all(map@, names@),
            Err(name) => first_unknown(map@, names@) == Some(name),
        },
{
    let mut out: Vec<usize> = Vec::new();
    let mut i: usize = 0;
    assert(names@.skip(0) =~= names@);
    while i < names.len()
        invariant
            i <= names.len(),
            out@.len() == i,
            forall|j: int|
                0 <= j < i ==> map@.contains_key(#[trigger] names@[j]@) && out@[j]
                    == map@[names@[j]@],
            first_unknown(map@, names@) == first_unknown(map@, names@.skip(i as int)),
        decreases names.len() - i,
    {
        assert(names@.skip(i as int).drop_first() =~= names@.skip(i as int + 1));
        assert(names@.skip(i as int)[0] == names@[i as int]);
        match map.get(&names[i]) {
            Some(n) => {
                out.push(n);
            },
            None => {
                return Err(names[i].clone());
            },
        }
        i = i + 1;
    }
    assert(out@ =~= lookup_all(map@, names@));
    Ok(out)
}

/// Numbers each of `names` in `map`, adding those that are new. Returns `None`
/// if some name could not be given a number.
pub fn intern_all(names: &Vec<String>, map: &mut NameMap) -> (r: Option<Vec<usize>>)
    requires
        dense(old(map)@),
    ensures
        dense(final(map)@),
        final(map)@ == with_names(old(map)@, names@),
        match r {
            Some(v) => all_known(final(map)@, names@) && v@ == lookup_all(final(map)@, names@),
            None => !all_known(final(map)@, names@),
        },
{
    let mut out: Vec<usize> = Vec::new();
    let mut complete = true;
    let ghost mut missing: int = 0;
    let mut i: usize = 0;
    assert(names@.take(0) =~= Seq::empty());
    while i < names.len()
        invariant
            i <= names.len(),
            dense(map@),
            map@ == with_names(old(map)@, names@.take(i as int)),
            complete ==> out@.len() == i,
            complete ==> forall|j: int|
                0 <= j < i ==> map@.contains_key(#[trigger] names@[j]@) && out@[j]
                    == map@[names@[j]@],
            !complete ==> 0 <= missing < i && !map@.contains_key(names@[missing]@) && map@.dom().len()
                >= usize::MAX,
        decreases names.len() - i,
    {
        proof {
            crate::names::lemma_with_name_dense(map@, names@[i as int]@);
            assert(names@.take(i as int + 1).drop_last() =~= names@.take(i as int));
            assert(names@.take(i as int + 1).last() == names@[i as int]);
        }
        match get_num_from_map(&names[i], map) {
            Some(n) => {
                if complete {
                    out.push(n);
                }
            },
            None => {
                proof {
                    missing = i as int;
                }
                complete = false;
            },
        }
        i = i + 1;
    }
    assert(names@.take(names@.len() as int) =~= names@);
    if complete {
        assert(out@ =~= lookup_all(map@, names@));
        Some(out)
    } else {
        None
    }
}

/// A numbering that is full stays as it is when names are looked up.
pub proof fn lemma_full_stays(m: Map<Seq<char>, usize>, names: Seq<String>)
    requires
        m.dom().len() >= usize::MAX,
    ensures
        with_names(m, names) == m,
    decreases names.len(),
{
    if names.len() > 0 {
        lemma_full_stays(m, names.drop_last());
    }
}

/// The flat form of a value operation on resolved operands.
fn build_value(
    op: ValueOps,
    dest: usize,
    args: Vec<usize>,
    funcs: Vec<usize>,
    labels: Vec<usize>,
) -> (r: Result<FlatIR, InterpError>)
    ensures
        match r {
            Ok(f) => value_shape(op, dest, args@, funcs@, labels@) == Ok::<FlatView, InterpError>(
                f@,
            ),
            Err(e) => value_shape(op, dest, args@, funcs@, labels@) == Err::<FlatView, InterpError>(
                e,
            ),
        },
{
    match op {
        ValueOps::Call => {
            if funcs.len() != 1 {
                Err(InterpError::BadNumFuncs(1, funcs.len()))
            } else {
                Ok(FlatIR::Call { func: funcs[0], dest, args })
            }
        },
        ValueOps::Phi => {
            if labels.len() != args.len() {
                Err(InterpError::BadNumLabels(args.len(), labels.len()))
            } else {
                Ok(FlatIR::Phi { dest, labels, args })
            }
        },
        ValueOps::Not | ValueOps::Id | ValueOps::Char2int | ValueOps::Int2char | ValueOps::Alloc
        | ValueOps::Load => {
            if args.len() != 1 {
                Err(InterpError::BadNumArgs(1, args.len()))
            } else {
                Ok(FlatIR::Unary { op, dest, arg: args[0] })
            }
        },
        _ => {
            if args.len() != 2 {
                Err(InterpError::BadNumArgs(2, args.len()))
            } else {
                Ok(FlatIR::Binary { op, dest, arg0: args[0], arg1: args[1] })
            }
        },
    }
}

/// The flat form of an effect operation on resolved operands.
fn build_effect(op: EffectOps, args: Vec<usize>, funcs: Vec<usize>, labels: Vec<usize>) -> (r:
    Result<FlatIR, InterpError>)
    ensures
        match r {
            Ok(f) => effect_shape(op, args@, funcs@, labels@) == Ok::<FlatView, InterpError>(f@),
            Err(e) => effect_shape(op, args@, funcs@, labels@) == Err::<FlatView, InterpError>(e),
        },
{
    match op {
        EffectOps::Jump => {
            if labels.len() != 1 {
                Err(InterpError::BadNumLabels(1, labels.len()))
            } else {
                Ok(FlatIR::Jump { dest: labels[0] })
            }
        },
        EffectOps::Branch => {
            if args.len() != 1 {
                Err(InterpError::BadNumArgs(1, args.len()))
            } else if labels.len() != 2 {
                Err(InterpError::BadNumLabels(2, labels.len()))
            } else {
                Ok(FlatIR::Branch { arg: args[0], true_dest: labels[0], false_dest: labels[1] })
            }
        },
        EffectOps::Call => {
            if funcs.len() != 1 {
                Err(InterpError::BadNumFuncs(1, funcs.len()))
            } else {
                Ok(FlatIR::EffectfulCall { func: funcs[0], args })
            }
        },
        EffectOps::Return => {
            if args.len() == 0 {
                Ok(FlatIR::ReturnVoid)
            } else if args.len() == 1 {
                Ok(FlatIR::ReturnValue { arg: args[0] })
            } else {
                Err(InterpError::BadNumArgs(1, args.len()))
            }
        },
        EffectOps::Print => Ok(FlatIR::Print { args }),
        EffectOps::Nop => Ok(FlatIR::Nop),
        EffectOps::Store => {
            if args.len() != 2 {
                Err(InterpError::BadNumArgs(2, args.len()))
            } else {
                Ok(FlatIR::Store { arg0: args[0], arg1: args[1] })
            }
        },
        EffectOps::Free => {
            if args.len() != 1 {
                Err(InterpError::BadNumArgs(1, args.len()))
            } else {
                Ok(FlatIR::Free { arg: args[0] })
            }
        },
    }
}

/// Resolves the functions and labels that an operation names.
fn resolve_targets(
    funcs: &Vec<String>,
    labels: &Vec<String>,
    func_map: &NameMap,
    label_map: &NameMap,
) -> (r: Result<(Vec<usize>, Vec<usize>), InterpError>)
    ensures
        match r {
            Ok((f, l)) => first_unknown(func_map@, funcs@) is None && first_unknown(
                label_map@,
                labels@,
            ) is None && f@ == lookup_all(func_map@, funcs@) && l@ == lookup_all(
                label_map@,
                labels@,
            ),
            Err(e) => if first_unknown(func_map@, funcs@) is Some {
                e == InterpError::FuncNotFound(first_unknown(func_map@, funcs@).unwrap())
            } else {
                first_unknown(label_map@, labels@) is Some && e == InterpError::MissingLabel(
                    first_unknown(label_map@, labels@).unwrap(),
                )
            },
        },
{
    match resolve_all(funcs, func_map) {
        Err(name) => Err(InterpError::FuncNotFound(name)),
        Ok(f) => match resolve_all(labels, label_map) {
            Err(name) => Err(InterpError::MissingLabel(name)),
            Ok(l) => Ok((f, l)),
        },
    }
}

impl FlatIR {
    /// Resolves every name in `i`: variables through `num_var_map`, which
    /// gives new variables the next free slot, functions through `func_map`
    /// and labels through `label_map`. Fails, with the position of `i`, if a
    /// function or a label is unknown or the operation has the wrong number of
    /// operands.
    pub fn new(
        i: &Instruction,
        func_map: &NameMap,
        num_var_map: &mut NameMap,
        label_map: &NameMap,
    ) -> (r: Result<FlatIR, PositionalError<InterpError>>)
        requires
            dense(old(num_var_map)@),
        ensures
            dense(final(num_var_map)@),
            final(num_var_map)@ == vars_after(*i, old(num_var_map)@),
            match r {
                Ok(f) => flatten(*i, func_map@, final(num_var_map)@, label_map@) == Ok::<
                    FlatView,
                    InterpError,
                >(f@),
                Err(e) => flatten(*i, func_map@, final(num_var_map)@, label_map@) == Err::<
                    FlatView,
                    InterpError,
                >(e.e) && e.pos == i.spec_pos(),
            },
    {
        match i {
            Instruction::Constant { op: _, dest, const_type, value, pos } => {
                match get_num_from_map(dest, num_var_map) {
                    None => Err(PositionalError { e: InterpError::TooManyVariables, pos: *pos }),
                    Some(d) => match (const_type, value) {
                        (Type::Float, Literal::Int(v)) => Ok(
                            FlatIR::FloatConst { dest: d, value: *v },
                        ),
                        _ => Ok(FlatIR::Const { dest: d, value: *value }),
                    },
                }
            },
            Instruction::Value { op, dest, op_type: _, args, funcs, labels, pos } => {
                let d = get_num_from_map(dest, num_var_map);
                let ghost vars1 = num_var_map@;
                proof {
                    lemma_with_names_dense(vars1, args@);
                    if !vars1.contains_key(dest@) {
                        lemma_full_stays(vars1, args@);
                    }
                }
                let a = intern_all(args, num_var_map);
                match (d, a) {
                    (Some(d), Some(a)) => match resolve_targets(funcs, labels, func_map, label_map) {
                        Err(e) => Err(PositionalError { e, pos: *pos }),
                        Ok((f, l)) => match build_value(*op, d, a, f, l) {
                            Err(e) => Err(PositionalError { e, pos: *pos }),
                            Ok(flat) => Ok(flat),
                        },
                    },
                    _ => Err(PositionalError { e: InterpError::TooManyVariables, pos: *pos }),
                }
            },
            Instruction::Effect { op, args, funcs, labels, pos } => {
                match intern_all(args, num_var_map) {
                    None => Err(PositionalError { e: InterpError::TooManyVariables, pos: *pos }),
                    Some(a) => match resolve_targets(funcs, labels, func_map, label_map) {
                        Err(e) => Err(PositionalError { e, pos: *pos }),
                        Ok((f, l)) => match build_effect(*op, a, f, l) {
                            Err(e) => Err(PositionalError { e, pos: *pos }),
                            Ok(flat) => Ok(flat),
                        },
                    },
                }
            },
        }
    }
}

} // verus!
