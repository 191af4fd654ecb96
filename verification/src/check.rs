use vstd::prelude::*;
use fxhash::FxHashMap;
use crate::names::NameMap;
use crate::positional::{PositionalError, PositionalErrorTrait};
use crate::program::{Argument, Code, EffectOps, Function, Instruction, Literal, Program, Type, ValueOps};
use crate::types::{has_signature, input_types, output_type, TypeSignature};

verus! {

/// Why a program is not well-typed.
#[derive(Debug)]
pub enum CheckError {
    /// An instruction names a label that its function does not define.
    MissingLabel(String),
    /// A `phi` does not have as many labels as arguments.
    UnequalPhiNode,
    /// Two functions share this name.
    DuplicateFunction(String),
    /// A label stands twice in a function: (label, function).
    DuplicateLabel(String, String),
    /// A function without a return type returns a value, or a function
    /// without a return type is called for a value, or a function with one
    /// is called for its effects.
    NonEmptyRetForFunc(String),
    /// A call with the wrong number of arguments: (expected, actual).
    BadNumFuncArgs(usize, usize),
    /// An instruction with the wrong number of variable operands: (expected, actual).
    BadNumArgs(usize, usize),
    /// An instruction with the wrong number of label operands: (expected, actual).
    BadNumLabels(usize, usize),
    /// An instruction with the wrong number of function operands: (expected, actual).
    BadNumFuncs(usize, usize),
    /// An instruction names a function that the program does not define.
    FuncNotFound(String),
    /// A variable is read that no instruction before has written.
    VarUndefined(String),
    /// A `phi` names a label that its function does not define.
    PhiMissingLabel(String),
    /// A type that is no pointer type stands where one is needed.
    ExpectedPointerType(Type),
    /// A program argument of the wrong type: (expected, found).
    BadFuncArgType(Type, String),
    /// Two types that have to be the same are not: (expected, found).
    BadAsmtType(Type, Type),
}

impl PositionalErrorTrait for CheckError {

}

/// The types of the variables of a function: a hash map from names to types.
pub type TypeTable = FxHashMap<String, Type>;

/// What a [`TypeTable`] holds: the type under each name that is present.
pub uninterp spec fn table_types(t: TypeTable) -> Map<Seq<char>, Type>;

/// The table without any name.
pub open spec fn no_types() -> Map<Seq<char>, Type> {
    Map::empty()
}

/// `HashMap::with_capacity_and_hasher`: a new map holds nothing.
#[verifier::external_body]
fn types_new() -> (table: TypeTable)
    ensures
        table_types(table) == no_types(),
{
    FxHashMap::with_capacity_and_hasher(20, fxhash::FxBuildHasher::default())
}

/// `HashMap::get`: the type under `name`, if the name is present.
#[verifier::external_body]
fn types_get<'a>(t: &'a TypeTable, name: &String) -> (r: Option<&'a Type>)
    ensures
        r.is_some() == table_types(*t).contains_key(name@),
        r.is_some() ==> *r.unwrap() == table_types(*t)[name@],
{
    t.get(name)
}

/// `HashMap::insert`: afterwards the map holds `ty` under `name`, whatever it
/// held there before, and every other entry as it was.
#[verifier::external_body]
fn types_insert(t: &mut TypeTable, name: String, ty: Type)
    ensures
        table_types(*final(t)) == table_types(*old(t)).insert(name@, ty),
{
    t.insert(name, ty);
}

/// The types of the variables that were written so far.
pub struct TypeEnv {
    table: TypeTable,
}

impl View for TypeEnv {
    type V = Map<Seq<char>, Type>;

    closed spec fn view(&self) -> Map<Seq<char>, Type> {
        table_types(self.table)
    }
}

impl TypeEnv {
    /// An environment without any variable.
    pub fn new() -> (r: Self)
        ensures
            r@ == no_types(),
    {
        TypeEnv { table: types_new() }
    }

    /// The type of `name`, if it has one.
    pub fn get(&self, name: &String) -> (r: Option<&Type>)
        ensures
            r.is_some() == self@.contains_key(name@),
            r.is_some() ==> *r.unwrap() == self@[name@],
    {
        types_get(&self.table, name)
    }

    /// Gives `name` the type `ty`, whether or not it had one.
    pub fn insert(&mut self, name: String, ty: Type)
        ensures
            final(self)@ == old(self)@.insert(name@, ty),
    {
        types_insert(&mut self.table, name, ty);
    }
}

/// The first of `checks` that failed, if any did.
pub open spec fn first_error(checks: Seq<Result<(), CheckError>>) -> Result<(), CheckError>
    decreases checks.len(),
{
    if checks.len() == 0 {
        Ok(())
    } else if checks[0] is Err {
        checks[0]
    } else {
        first_error(checks.drop_first())
    }
}

/// An instruction has `expected` variable operands.
pub open spec fn num_args_checked(expected: usize, args: Seq<String>) -> Result<(), CheckError> {
    if expected == args.len() {
        Ok(())
    } else {
        Err(CheckError::BadNumArgs(expected, args.len() as usize))
    }
}

/// An instruction has `expected` function operands.
pub open spec fn num_funcs_checked(expected: usize, funcs: Seq<String>) -> Result<(), CheckError> {
    if expected == funcs.len() {
        Ok(())
    } else {
        Err(CheckError::BadNumFuncs(expected, funcs.len() as usize))
    }
}

/// An instruction has `expected` label operands.
pub open spec fn num_labels_checked(
    expected: usize,
    labels: Seq<String>,
) -> Result<(), CheckError> {
    if expected == labels.len() {
        Ok(())
    } else {
        Err(CheckError::BadNumLabels(expected, labels.len() as usize))
    }
}

/// Two types that have to be the same are the same.
pub open spec fn asmt_checked(expected: Type, actual: Type) -> Result<(), CheckError> {
    if expected == actual {
        Ok(())
    } else {
        Err(CheckError::BadAsmtType(expected, actual))
    }
}

/// The type of operand `index` of an instruction.
pub open spec fn type_of_arg(env: Map<Seq<char>, Type>, index: usize, args: Seq<String>) -> Result<
    Type,
    CheckError,
> {
    if index >= args.len() {
        Err(CheckError::BadNumArgs(index, args.len() as usize))
    } else if !env.contains_key(args[index as int]@) {
        Err(CheckError::VarUndefined(args[index as int]))
    } else {
        Ok(env[args[index as int]@])
    }
}

/// Operand `index` of an instruction has the type `expected`.
pub open spec fn arg_checked(
    env: Map<Seq<char>, Type>,
    index: usize,
    args: Seq<String>,
    expected: Type,
) -> Result<(), CheckError> {
    match type_of_arg(env, index, args) {
        Err(e) => Err(e),
        Ok(t) => asmt_checked(expected, t),
    }
}

/// What a pointer type points to.
pub open spec fn ptr_type_of(t: Type) -> Result<Type, CheckError> {
    match t {
        Type::Pointer(to) => Ok(*to),
        _ => Err(CheckError::ExpectedPointerType(t)),
    }
}

/// The type `ty` is the type of operand `index` of an instruction.
pub open spec fn same_as_arg(
    env: Map<Seq<char>, Type>,
    index: usize,
    args: Seq<String>,
    ty: Type,
) -> Result<
    (),
    CheckError,
> {
    match type_of_arg(env, index, args) {
        Err(e) => Err(e),
        Ok(t) => asmt_checked(t, ty),
    }
}

/// The type `t` is a pointer type.
pub open spec fn pointer_checked(t: Type) -> Result<(), CheckError> {
    match t {
        Type::Pointer(_) => Ok(()),
        _ => Err(CheckError::ExpectedPointerType(t)),
    }
}

/// Operand `index` of an instruction is a pointer.
pub open spec fn arg_pointer_checked(
    env: Map<Seq<char>, Type>,
    index: usize,
    args: Seq<String>,
) -> Result<
    (),
    CheckError,
> {
    match type_of_arg(env, index, args) {
        Err(e) => Err(e),
        Ok(t) => pointer_checked(t),
    }
}

/// Operand `index` of an instruction is a pointer to values of the type `to`.
pub open spec fn arg_points_to(
    env: Map<Seq<char>, Type>,
    index: usize,
    args: Seq<String>,
    to: Type,
) -> Result<
    (),
    CheckError,
> {
    match type_of_arg(env, index, args) {
        Err(e) => Err(e),
        Ok(t) => match ptr_type_of(t) {
            Err(e) => Err(e),
            Ok(inner) => asmt_checked(inner, to),
        },
    }
}

/// The function that a call names, if there is one, returns a value of the
/// type `op_type`.
pub open spec fn callee_returns(
    functions: Seq<Function>,
    funcs: Seq<String>,
    op_type: Type,
) -> Result<
    (),
    CheckError,
> {
    match find_function(functions, funcs[0]@) {
        Some(f) => match f.return_type {
            None => Err(CheckError::NonEmptyRetForFunc(f.name)),
            Some(t) => asmt_checked(op_type, t),
        },
        None => Ok(()),
    }
}

/// The function that a call names, if there is one, returns nothing.
pub open spec fn callee_returns_nothing(functions: Seq<Function>, funcs: Seq<String>) -> Result<
    (),
    CheckError,
> {
    match find_function(functions, funcs[0]@) {
        Some(f) => if f.return_type is Some {
            Err(CheckError::NonEmptyRetForFunc(f.name))
        } else {
            Ok(())
        },
        None => Ok(()),
    }
}

/// Every label of `labels` is a label of the function.
pub open spec fn labels_checked(labels: Seq<String>, label_set: Set<Seq<char>>) -> Result<
    (),
    CheckError,
>
    decreases labels.len(),
{
    if labels.len() == 0 {
        Ok(())
    } else if !label_set.contains(labels[0]@) {
        Err(CheckError::MissingLabel(labels[0]))
    } else {
        labels_checked(labels.drop_first(), label_set)
    }
}

/// The environment after `dest` was written with a value of type `ty`: a
/// variable keeps the type it was first written with.
pub open spec fn env_updated(env: Map<Seq<char>, Type>, dest: String, ty: Type) -> Result<
    Map<Seq<char>, Type>,
    CheckError,
> {
    if env.contains_key(dest@) {
        match asmt_checked(env[dest@], ty) {
            Ok(_) => Ok(env),
            Err(e) => Err(e),
        }
    } else {
        Ok(env.insert(dest@, ty))
    }
}

/// The environment that a failed update of each of `args` leaves: the updates
/// before the first that fails have been made.
pub open spec fn updated_until_error(env: Map<Seq<char>, Type>, args: Seq<String>, ty: Type) -> Map<
    Seq<char>,
    Type,
>
    decreases args.len(),
{
    if args.len() == 0 {
        env
    } else {
        match env_updated(env, args[0], ty) {
            Err(_) => env,
            Ok(next) => updated_until_error(next, args.drop_first(), ty),
        }
    }
}

/// The environment that a value operation leaves when it is refused: as it
/// was, but for a `phi` that fails at one of its arguments or at its
/// destination, which has given its type to the arguments before.
pub open spec fn value_refused_env(
    op: ValueOps,
    op_type: Type,
    args: Seq<String>,
    funcs: Seq<String>,
    labels: Seq<String>,
    env: Map<Seq<char>, Type>,
    label_set: Set<Seq<char>>,
) -> Map<Seq<char>, Type> {
    if op == ValueOps::Phi && args.len() == labels.len() && labels_checked(labels, label_set) is Ok
        && num_funcs_checked(0, funcs) is Ok {
        updated_until_error(env, args, op_type)
    } else {
        env
    }
}

/// The environment that an instruction leaves when it is refused: as it was,
/// but for a `phi`, which may have given its type to some of its arguments.
pub open spec fn env_after_refusal(
    instr: Instruction,
    env: Map<Seq<char>, Type>,
    label_set: Set<Seq<char>>,
) -> Map<Seq<char>, Type> {
    match instr {
        Instruction::Value { op, op_type, args, funcs, labels, .. } => value_refused_env(
            op,
            op_type,
            args@,
            funcs@,
            labels@,
            env,
            label_set,
        ),
        _ => env,
    }
}

/// An instruction that is refused leaves the types of the variables as they
/// were, unless it is a `phi`.
pub proof fn lemma_refusal_keeps_the_types(
    instr: Instruction,
    env: Map<Seq<char>, Type>,
    label_set: Set<Seq<char>>,
)
    requires
        match instr {
            Instruction::Value { op, .. } => op != ValueOps::Phi,
            _ => true,
        },
    ensures
        env_after_refusal(instr, env, label_set) == env,
{
}

/// Where the first `i` arguments of a `phi` took its type, what a failure
/// leaves is what a failure among the others leaves after them.
pub proof fn lemma_until_error_skips(env: Map<Seq<char>, Type>, args: Seq<String>, ty: Type, i: int)
    requires
        0 <= i <= args.len(),
        all_updated(env, args.take(i), ty) is Ok,
    ensures
        updated_until_error(env, args, ty) == updated_until_error(
            all_updated(env, args.take(i), ty)->Ok_0,
            args.skip(i),
            ty,
        ),
    decreases i,
{
    if i == 0 {
        assert(args.take(0) =~= Seq::empty());
        assert(args.skip(0) =~= args);
    } else {
        assert(args.take(i).drop_last() =~= args.take(i - 1));
        assert(args.take(i).last() == args[i - 1]);
        lemma_until_error_skips(env, args, ty, i - 1);
        assert(args.skip(i - 1)[0] == args[i - 1]);
        assert(args.skip(i - 1).drop_first() =~= args.skip(i));
    }
}

/// The environment after `check` passed and `dest` was written with a value
/// of type `ty`.
pub open spec fn checked_update(
    check: Result<(), CheckError>,
    env: Map<Seq<char>, Type>,
    dest: String,
    ty: Type,
) -> Result<Map<Seq<char>, Type>, CheckError> {
    match check {
        Err(e) => Err(e),
        Ok(_) => env_updated(env, dest, ty),
    }
}

/// The type of a literal.
pub open spec fn literal_type(l: Literal) -> Type {
    match l {
        Literal::Int(_) => Type::Int,
        Literal::Bool(_) => Type::Bool,
        Literal::Float(_) => Type::Float,
        Literal::Char(_) => Type::Char,
    }
}

/// The first function of `funcs` with the name `name`.
pub open spec fn find_function(funcs: Seq<Function>, name: Seq<char>) -> Option<Function>
    decreases funcs.len(),
{
    if funcs.len() == 0 {
        None
    } else if funcs[0].name@ == name {
        Some(funcs[0])
    } else {
        find_function(funcs.drop_first(), name)
    }
}

/// The variables `args` are defined and have the types that `params` asks
/// for, one by one.
pub open spec fn call_args_checked(
    env: Map<Seq<char>, Type>,
    args: Seq<String>,
    params: Seq<Argument>,
) -> Result<
    (),
    CheckError,
>
    decreases args.len(),
{
    if args.len() == 0 || params.len() == 0 {
        Ok(())
    } else if !env.contains_key(args[0]@) {
        Err(CheckError::VarUndefined(args[0]))
    } else if asmt_checked(env[args[0]@], params[0].arg_type) is Err {
        asmt_checked(env[args[0]@], params[0].arg_type)
    } else {
        call_args_checked(env, args.drop_first(), params.drop_first())
    }
}

/// What has to hold of a call before its result is looked at: it names one
/// function and no label, the function exists, and the arguments are as many
/// and of the types that the function asks for.
pub open spec fn call_checked(
    env: Map<Seq<char>, Type>,
    args: Seq<String>,
    funcs: Seq<String>,
    labels: Seq<String>,
    functions: Seq<Function>,
) -> Result<(), CheckError> {
    if num_funcs_checked(1, funcs) is Err {
        num_funcs_checked(1, funcs)
    } else if num_labels_checked(0, labels) is Err {
        num_labels_checked(0, labels)
    } else {
        match find_function(functions, funcs[0]@) {
            None => Err(CheckError::FuncNotFound(funcs[0])),
            Some(callee) => if args.len() != callee.args@.len() {
                Err(CheckError::BadNumArgs(callee.args@.len() as usize, args.len() as usize))
            } else {
                call_args_checked(env, args, callee.args@)
            },
        }
    }
}

/// The environment after each of `args` was written with a value of type
/// `ty`.
pub open spec fn all_updated(env: Map<Seq<char>, Type>, args: Seq<String>, ty: Type) -> Result<
    Map<Seq<char>, Type>,
    CheckError,
>
    decreases args.len(),
{
    if args.len() == 0 {
        Ok(env)
    } else {
        match all_updated(env, args.drop_last(), ty) {
            Err(e) => Err(e),
            Ok(before) => env_updated(before, args.last(), ty),
        }
    }
}

/// Operand `i` of an operation with a signature has the type that the
/// signature asks for, and so have the operands before it.
pub open spec fn operands_checked(
    env: Map<Seq<char>, Type>,
    args: Seq<String>,
    types: Seq<Type>,
    n: int,
) -> Result<
    (),
    CheckError,
>
    decreases n,
{
    if n <= 0 {
        Ok(())
    } else {
        match operands_checked(env, args, types, n - 1) {
            Err(e) => Err(e),
            Ok(_) => arg_checked(env, (n - 1) as usize, args, types[n - 1]),
        }
    }
}

/// The three counts that most operations are checked for: `n` variable
/// operands, no function and no label.
pub open spec fn counts(
    n: usize,
    args: Seq<String>,
    funcs: Seq<String>,
    labels: Seq<String>,
) -> Seq<
    Result<(), CheckError>,
> {
    seq![num_args_checked(n, args), num_funcs_checked(0, funcs), num_labels_checked(0, labels)]
}

/// The environment after a value operation, or why the operation is not
/// well-typed.
///
/// An operation with a signature takes as many operands as the signature
/// lists, of the types it lists, names no function and no label and has the
/// declared type that the signature gives. A copy has the type of what it
/// copies. A call has the type that the callee returns. A `phi` gives its
/// declared type to all its arguments. An allocation takes an integer and
/// has a pointer type, a load has the type that its pointer points to, and
/// pointer arithmetic takes a pointer and an integer and has the type of the
/// pointer. Whatever the operation, its destination keeps the type it was
/// first written with.
pub open spec fn value_checked(
    op: ValueOps,
    dest: String,
    op_type: Type,
    args: Seq<String>,
    funcs: Seq<String>,
    labels: Seq<String>,
    functions: Seq<Function>,
    env: Map<Seq<char>, Type>,
    label_set: Set<Seq<char>>,
) -> Result<Map<Seq<char>, Type>, CheckError> {
    if has_signature(op) {
        checked_update(
            first_error(
                counts(input_types(op).len() as usize, args, funcs, labels) + seq![
                    operands_checked(env, args, input_types(op), input_types(op).len() as int),
                    asmt_checked(output_type(op), op_type),
                ],
            ),
            env,
            dest,
            op_type,
        )
    } else if op == ValueOps::Id {
        checked_update(
            first_error(counts(1, args, funcs, labels) + seq![arg_checked(env, 0, args, op_type)]),
            env,
            dest,
            op_type,
        )
    } else if op == ValueOps::Call {
        checked_update(
            first_error(
                seq![
                    call_checked(env, args, funcs, labels, functions),
                    callee_returns(functions, funcs, op_type),
                ],
            ),
            env,
            dest,
            op_type,
        )
    } else if op == ValueOps::Phi {
        if args.len() != labels.len() {
            Err(CheckError::UnequalPhiNode)
        } else {
            match first_error(seq![labels_checked(labels, label_set), num_funcs_checked(0, funcs)]) {
                Err(e) => Err(e),
                Ok(_) => match all_updated(env, args, op_type) {
                    Err(e) => Err(e),
                    Ok(after) => env_updated(after, dest, op_type),
                },
            }
        }
    } else if op == ValueOps::Alloc {
        checked_update(
            first_error(
                counts(1, args, funcs, labels) + seq![
                    arg_checked(env, 0, args, Type::Int),
                    pointer_checked(op_type),
                ],
            ),
            env,
            dest,
            op_type,
        )
    } else if op == ValueOps::Load {
        checked_update(
            first_error(
                counts(1, args, funcs, labels) + seq![arg_points_to(env, 0, args, op_type)],
            ),
            env,
            dest,
            op_type,
        )
    } else {
        checked_update(
            first_error(
                counts(2, args, funcs, labels) + seq![
                    arg_pointer_checked(env, 0, args),
                    arg_checked(env, 1, args, Type::Int),
                    same_as_arg(env, 0, args, op_type),
                ],
            ),
            env,
            dest,
            op_type,
        )
    }
}

/// Every one of the first `n` of `args` is defined.
pub open spec fn all_defined(env: Map<Seq<char>, Type>, args: Seq<String>, n: int) -> Result<
    (),
    CheckError,
>
    decreases n,
{
    if n <= 0 {
        Ok(())
    } else {
        match all_defined(env, args, n - 1) {
            Err(e) => Err(e),
            Ok(_) => match type_of_arg(env, (n - 1) as usize, args) {
                Err(e) => Err(e),
                Ok(_) => Ok(()),
            },
        }
    }
}

/// The two operands of a store are defined, the first is a pointer and the
/// second has the type that the first points to.
pub open spec fn store_checked(
    env: Map<Seq<char>, Type>,
    args: Seq<String>,
) -> Result<(), CheckError> {
    match type_of_arg(env, 0, args) {
        Err(e) => Err(e),
        Ok(t0) => match type_of_arg(env, 1, args) {
            Err(e) => Err(e),
            Ok(t1) => match ptr_type_of(t0) {
                Err(e) => Err(e),
                Ok(to) => asmt_checked(to, t1),
            },
        },
    }
}

/// A return gives a value of the return type of `func` if it has one, and
/// nothing if it has none.
pub open spec fn return_checked(
    env: Map<Seq<char>, Type>,
    args: Seq<String>,
    func: Function,
) -> Result<
    (),
    CheckError,
> {
    match func.return_type {
        Some(t) => if num_args_checked(1, args) is Err {
            num_args_checked(1, args)
        } else {
            arg_checked(env, 0, args, t)
        },
        None => if args.len() == 0 {
            Ok(())
        } else {
            Err(CheckError::NonEmptyRetForFunc(func.name))
        },
    }
}

/// Whether an effect operation is well-typed.
///
/// A jump names one label and a branch two, all of the function, and a
/// branch takes a boolean. A return takes a value of the function's return
/// type if it has one and nothing if it has none. A print takes any
/// variables that are defined. A call for effects is of a function that
/// returns nothing. A store takes a pointer and a value of the type it
/// points to, and a free takes a pointer.
pub open spec fn effect_checked(
    op: EffectOps,
    args: Seq<String>,
    funcs: Seq<String>,
    labels: Seq<String>,
    func: Function,
    functions: Seq<Function>,
    env: Map<Seq<char>, Type>,
    label_set: Set<Seq<char>>,
) -> Result<(), CheckError> {
    match op {
        EffectOps::Jump => first_error(
            seq![
                num_args_checked(0, args),
                num_funcs_checked(0, funcs),
                num_labels_checked(1, labels),
                labels_checked(labels, label_set),
            ],
        ),
        EffectOps::Branch => first_error(
            seq![
                num_args_checked(1, args),
                arg_checked(env, 0, args, Type::Bool),
                num_funcs_checked(0, funcs),
                num_labels_checked(2, labels),
                labels_checked(labels, label_set),
            ],
        ),
        EffectOps::Return => first_error(
            seq![
                num_funcs_checked(0, funcs),
                num_labels_checked(0, labels),
                return_checked(env, args, func),
            ],
        ),
        EffectOps::Print => first_error(
            seq![
                num_funcs_checked(0, funcs),
                num_labels_checked(0, labels),
                all_defined(env, args, args.len() as int),
            ],
        ),
        EffectOps::Nop => first_error(
            seq![
                num_args_checked(0, args),
                num_funcs_checked(0, funcs),
                num_labels_checked(0, labels),
            ],
        ),
        EffectOps::Call => first_error(
            seq![
                call_checked(env, args, funcs, labels, functions),
                callee_returns_nothing(functions, funcs),
            ],
        ),
        EffectOps::Store => first_error(
            seq![
                num_args_checked(2, args),
                num_funcs_checked(0, funcs),
                num_labels_checked(0, labels),
                store_checked(env, args),
            ],
        ),
        EffectOps::Free => first_error(
            seq![
                num_args_checked(1, args),
                num_funcs_checked(0, funcs),
                num_labels_checked(0, labels),
                arg_pointer_checked(env, 0, args),
            ],
        ),
    }
}

/// The environment after the instruction `instr` of the function `func`, or
/// why the instruction is not well-typed. A constant has the type of its
/// literal, but an integer literal may stand for a floating point number.
pub open spec fn instruction_checked(
    instr: Instruction,
    func: Function,
    functions: Seq<Function>,
    env: Map<Seq<char>, Type>,
    label_set: Set<Seq<char>>,
) -> Result<Map<Seq<char>, Type>, CheckError> {
    match instr {
        Instruction::Constant { dest, const_type, value, .. } => checked_update(
            if const_type is Float && value is Int {
                Ok(())
            } else {
                asmt_checked(const_type, literal_type(value))
            },
            env,
            dest,
            const_type,
        ),
        Instruction::Value { op, dest, op_type, args, funcs, labels, .. } => value_checked(
            op,
            dest,
            op_type,
            args@,
            funcs@,
            labels@,
            functions,
            env,
            label_set,
        ),
        Instruction::Effect { op, args, funcs, labels, .. } => match effect_checked(
            op,
            args@,
            funcs@,
            labels@,
            func,
            functions,
            env,
            label_set,
        ) {
            Ok(_) => Ok(env),
            Err(e) => Err(e),
        },
    }
}

/// Whether an instruction has `expected` variable operands.
pub fn check_num_args(expected: usize, args: &Vec<String>) -> (r: Result<(), CheckError>)
    ensures
        r == num_args_checked(expected, args@),
{
    if expected == args.len() {
        Ok(())
    } else {
        Err(CheckError::BadNumArgs(expected, args.len()))
    }
}

/// Whether an instruction has `expected` function operands.
pub fn check_num_funcs(expected: usize, funcs: &Vec<String>) -> (r: Result<(), CheckError>)
    ensures
        r == num_funcs_checked(expected, funcs@),
{
    if expected == funcs.len() {
        Ok(())
    } else {
        Err(CheckError::BadNumFuncs(expected, funcs.len()))
    }
}

/// Whether an instruction has `expected` label operands.
pub fn check_num_labels(expected: usize, labels: &Vec<String>) -> (r: Result<(), CheckError>)
    ensures
        r == num_labels_checked(expected, labels@),
{
    if expected == labels.len() {
        Ok(())
    } else {
        Err(CheckError::BadNumLabels(expected, labels.len()))
    }
}

/// Whether two types that have to be the same are the same.
pub fn check_asmt_type(expected: &Type, actual: &Type) -> (r: Result<(), CheckError>)
    ensures
        r == asmt_checked(*expected, *actual),
{
    if expected.same(actual) {
        Ok(())
    } else {
        Err(CheckError::BadAsmtType(expected.copy(), actual.copy()))
    }
}

/// Records that `dest` is written with a value of type `typ`; fails if it was
/// written with another type before.
pub fn update_env(env: &mut TypeEnv, dest: &String, typ: &Type) -> (r: Result<(), CheckError>)
    ensures
        match r {
            Ok(_) => env_updated(old(env)@, *dest, *typ) == Ok::<Map<Seq<char>, Type>, CheckError>(
                final(env)@,
            ),
            Err(e) => env_updated(old(env)@, *dest, *typ) == Err::<Map<Seq<char>, Type>, CheckError>(
                e,
            ) && final(env)@ == old(env)@,
        },
{
    match env.get(dest) {
        Some(current) => check_asmt_type(current, typ),
        None => {
            env.insert(dest.clone(), typ.copy());
            Ok(())
        },
    }
}

/// The type of operand `index` of an instruction.
pub fn get_type<'a>(env: &'a TypeEnv, index: usize, args: &Vec<String>) -> (r: Result<
    &'a Type,
    CheckError,
>)
    ensures
        match r {
            Ok(t) => type_of_arg(env@, index, args@) == Ok::<Type, CheckError>(*t),
            Err(e) => type_of_arg(env@, index, args@) == Err::<Type, CheckError>(e),
        },
{
    if index >= args.len() {
        return Err(CheckError::BadNumArgs(index, args.len()));
    }
    match env.get(&args[index]) {
        Some(t) => Ok(t),
        None => Err(CheckError::VarUndefined(args[index].clone())),
    }
}

/// Whether operand `index` of an instruction has the type `expected`.
pub fn check_arg(env: &TypeEnv, index: usize, args: &Vec<String>, expected: &Type) -> (r: Result<
    (),
    CheckError,
>)
    ensures
        r == arg_checked(env@, index, args@, *expected),
{
    match get_type(env, index, args) {
        Err(e) => Err(e),
        Ok(t) => check_asmt_type(expected, t),
    }
}

/// What a pointer type points to.
pub fn get_ptr_type(typ: &Type) -> (r: Result<&Type, CheckError>)
    ensures
        match r {
            Ok(t) => ptr_type_of(*typ) == Ok::<Type, CheckError>(*t),
            Err(e) => ptr_type_of(*typ) == Err::<Type, CheckError>(e),
        },
{
    match typ {
        Type::Pointer(ptr_type) => Ok(ptr_type),
        _ => Err(CheckError::ExpectedPointerType(typ.copy())),
    }
}

/// Whether every label of `labels` is a label of the function.
pub fn checklabels(labels: &Vec<String>, label_set: &NameMap) -> (r: Result<(), CheckError>)
    ensures
        r == labels_checked(labels@, label_set@.dom()),
{
    let mut i: usize = 0;
    assert(labels@.skip(0) =~= labels@);
    while i < labels.len()
        invariant
            i <= labels.len(),
            labels_checked(labels@, label_set@.dom()) == labels_checked(
                labels@.skip(i as int),
                label_set@.dom(),
            ),
        decreases labels.len() - i,
    {
        assert(labels@.skip(i as int).drop_first() =~= labels@.skip(i as int + 1));
        assert(labels@.skip(i as int)[0] == labels@[i as int]);
        if label_set.get(&labels[i]).is_none() {
            return Err(CheckError::MissingLabel(labels[i].clone()));
        }
        i = i + 1;
    }
    Ok(())
}

/// The type of a literal.
pub fn type_of_literal(l: &Literal) -> (t: Type)
    ensures
        t == literal_type(*l),
{
    match l {
        Literal::Int(_) => Type::Int,
        Literal::Bool(_) => Type::Bool,
        Literal::Float(_) => Type::Float,
        Literal::Char(_) => Type::Char,
    }
}

/// The first function of `prog` with the name `name`.
pub fn find_func<'a>(prog: &'a Program, name: &String) -> (r: Option<&'a Function>)
    ensures
        match r {
            Some(f) => find_function(prog.functions@, name@) == Some(*f),
            None => find_function(prog.functions@, name@) is None,
        },
{
    let mut i: usize = 0;
    assert(prog.functions@.skip(0) =~= prog.functions@);
    while i < prog.functions.len()
        invariant
            i <= prog.functions.len(),
            find_function(prog.functions@, name@) == find_function(
                prog.functions@.skip(i as int),
                name@,
            ),
        decreases prog.functions.len() - i,
    {
        assert(prog.functions@.skip(i as int).drop_first() =~= prog.functions@.skip(i as int + 1));
        assert(prog.functions@.skip(i as int)[0] == prog.functions@[i as int]);
        if prog.functions[i].name == *name {
            return Some(&prog.functions[i]);
        }
        i = i + 1;
    }
    None
}

/// Whether the variables `args` are defined and have the types that
/// `params` asks for.
fn check_call_args(env: &TypeEnv, args: &Vec<String>, params: &Vec<Argument>) -> (r: Result<
    (),
    CheckError,
>)
    requires
        args@.len() == params@.len(),
    ensures
        r == call_args_checked(env@, args@, params@),
{
    let mut i: usize = 0;
    assert(args@.skip(0) =~= args@);
    assert(params@.skip(0) =~= params@);
    while i < args.len()
        invariant
            i <= args.len(),
            args@.len() == params@.len(),
            call_args_checked(env@, args@, params@) == call_args_checked(
                env@,
                args@.skip(i as int),
                params@.skip(i as int),
            ),
        decreases args.len() - i,
    {
        assert(args@.skip(i as int).drop_first() =~= args@.skip(i as int + 1));
        assert(params@.skip(i as int).drop_first() =~= params@.skip(i as int + 1));
        assert(args@.skip(i as int)[0] == args@[i as int]);
        assert(params@.skip(i as int)[0] == params@[i as int]);
        match env.get(&args[i]) {
            None => {
                return Err(CheckError::VarUndefined(args[i].clone()));
            },
            Some(ty) => match check_asmt_type(ty, &params[i].arg_type) {
                Err(e) => {
                    return Err(e);
                },
                Ok(_) => {},
            },
        }
        i = i + 1;
    }
    Ok(())
}

/// What has to hold of a call before its result is looked at; gives the
/// function that is called.
fn check_call<'a>(
    env: &TypeEnv,
    args: &Vec<String>,
    funcs: &Vec<String>,
    labels: &Vec<String>,
    prog: &'a Program,
) -> (r: Result<&'a Function, CheckError>)
    ensures
        match r {
            Ok(f) => call_checked(env@, args@, funcs@, labels@, prog.functions@) is Ok
                && find_function(prog.functions@, funcs@[0]@) == Some(*f),
            Err(e) => call_checked(env@, args@, funcs@, labels@, prog.functions@) == Err::<
                (),
                CheckError,
            >(e),
        },
{
    match check_num_funcs(1, funcs) {
        Err(e) => {
            return Err(e);
        },
        Ok(_) => {},
    }
    match check_num_labels(0, labels) {
        Err(e) => {
            return Err(e);
        },
        Ok(_) => {},
    }
    let callee = match find_func(prog, &funcs[0]) {
        None => {
            return Err(CheckError::FuncNotFound(funcs[0].clone()));
        },
        Some(f) => f,
    };
    if args.len() != callee.args.len() {
        return Err(CheckError::BadNumArgs(callee.args.len(), args.len()));
    }
    match check_call_args(env, args, &callee.args) {
        Err(e) => Err(e),
        Ok(_) => Ok(callee),
    }
}

/// The three counts that most operations are checked for.
fn check_counts(n: usize, args: &Vec<String>, funcs: &Vec<String>, labels: &Vec<String>) -> (r:
    Result<(), CheckError>)
    ensures
        r == first_error(counts(n, args@, funcs@, labels@)),
{
    proof {
        lemma_first_error_3(
            num_args_checked(n, args@),
            num_funcs_checked(0, funcs@),
            num_labels_checked(0, labels@),
        );
    }
    match check_num_args(n, args) {
        Err(e) => Err(e),
        Ok(_) => match check_num_funcs(0, funcs) {
            Err(e) => Err(e),
            Ok(_) => check_num_labels(0, labels),
        },
    }
}

/// The first failure of three checks.
pub proof fn lemma_first_error_3(
    a: Result<(), CheckError>,
    b: Result<(), CheckError>,
    c: Result<(), CheckError>,
)
    ensures
        first_error(seq![a, b, c]) == (if a is Err {
            a
        } else if b is Err {
            b
        } else {
            c
        }),
{
    assert(seq![a, b, c].drop_first() =~= seq![b, c]);
    lemma_first_error_2(b, c);
}

/// The first failure of checks in two parts: that of the first part if it
/// has one, else that of the second.
pub proof fn lemma_first_error_concat(
    a: Seq<Result<(), CheckError>>,
    b: Seq<Result<(), CheckError>>,
)
    ensures
        first_error(a + b) == (if first_error(a) is Err {
            first_error(a)
        } else {
            first_error(b)
        }),
    decreases a.len(),
{
    if a.len() == 0 {
        assert(a + b =~= b);
    } else {
        assert((a + b).drop_first() =~= a.drop_first() + b);
        lemma_first_error_concat(a.drop_first(), b);
    }
}

/// The first failure of one check.
pub proof fn lemma_first_error_1(a: Result<(), CheckError>)
    ensures
        first_error(seq![a]) == a,
{
    assert(seq![a].drop_first() =~= Seq::<Result<(), CheckError>>::empty());
    assert(first_error(seq![a].drop_first()) == Ok::<(), CheckError>(()));
    if a is Ok {
        assert(a->Ok_0 == ());
        assert(a == Ok::<(), CheckError>(()));
    }
}

/// The first failure of two checks.
pub proof fn lemma_first_error_2(a: Result<(), CheckError>, b: Result<(), CheckError>)
    ensures
        first_error(seq![a, b]) == (if a is Err {
            a
        } else {
            b
        }),
{
    assert(seq![a, b].drop_first() =~= seq![b]);
    lemma_first_error_1(b);
}

/// Whether the operands and the result of `op` have types of their own.
pub fn op_has_signature(op: ValueOps) -> (r: bool)
    ensures
        r == has_signature(op),
{
    match op {
        ValueOps::Call | ValueOps::Id | ValueOps::Phi | ValueOps::Alloc | ValueOps::Load
        | ValueOps::PtrAdd => false,
        _ => true,
    }
}

/// The result of the checks `check` before an update of the environment.
fn finish_update(check: Result<(), CheckError>, env: &mut TypeEnv, dest: &String, typ: &Type) -> (r:
    Result<(), CheckError>)
    ensures
        match r {
            Ok(_) => checked_update(check, old(env)@, *dest, *typ) == Ok::<
                Map<Seq<char>, Type>,
                CheckError,
            >(final(env)@),
            Err(e) => checked_update(check, old(env)@, *dest, *typ) == Err::<
                Map<Seq<char>, Type>,
                CheckError,
            >(e) && final(env)@ == old(env)@,
        },
{
    match check {
        Err(e) => Err(e),
        Ok(_) => update_env(env, dest, typ),
    }
}

/// Checks an operation that has a signature.
fn check_signature_op(
    op: ValueOps,
    dest: &String,
    op_type: &Type,
    args: &Vec<String>,
    funcs: &Vec<String>,
    labels: &Vec<String>,
    env: &mut TypeEnv,
    Ghost(functions): Ghost<Seq<Function>>,
    Ghost(label_set): Ghost<Set<Seq<char>>>,
) -> (r: Result<(), CheckError>)
    requires
        has_signature(op),
    ensures
        match r {
            Ok(_) => value_checked(
                op,
                *dest,
                *op_type,
                args@,
                funcs@,
                labels@,
                functions,
                old(env)@,
                label_set,
            ) == Ok::<Map<Seq<char>, Type>, CheckError>(final(env)@),
            Err(e) => value_checked(
                op,
                *dest,
                *op_type,
                args@,
                funcs@,
                labels@,
                functions,
                old(env)@,
                label_set,
            ) == Err::<Map<Seq<char>, Type>, CheckError>(e) && final(env)@ == old(env)@,
        },
{
    let ghost env0 = env@;
    let sig = TypeSignature::from(op);
    let n = sig.inputs.len();
    let counted = check_counts(n, args, funcs, labels);
    let mut operands: Result<(), CheckError> = Ok(());
    let mut i: usize = 0;
    while i < n && operands.is_ok()
        invariant
            i <= n,
            n == sig.inputs@.len(),
            env@ == env0,
            operands == operands_checked(env0, args@, sig.inputs@, i as int),
        decreases n - i,
    {
        operands = check_arg(env, i, args, &sig.inputs[i]);
        i = i + 1;
    }
    proof {
        lemma_operands_error_stays(env0, args@, sig.inputs@, i as int, n as int);
    }
    let result = check_asmt_type(&sig.outputs[0], op_type);
    proof {
        assert(sig.outputs@[0] == output_type(op));
        lemma_first_error_concat(
            counts(n, args@, funcs@, labels@),
            seq![operands, asmt_checked(output_type(op), *op_type)],
        );
        lemma_first_error_2(operands, asmt_checked(output_type(op), *op_type));
    }
    let check = match counted {
        Err(e) => Err(e),
        Ok(_) => match operands {
            Err(e) => Err(e),
            Ok(_) => result,
        },
    };
    finish_update(check, env, dest, op_type)
}

/// Checks a copy.
fn check_id(
    dest: &String,
    op_type: &Type,
    args: &Vec<String>,
    funcs: &Vec<String>,
    labels: &Vec<String>,
    env: &mut TypeEnv,
    Ghost(functions): Ghost<Seq<Function>>,
    Ghost(label_set): Ghost<Set<Seq<char>>>,
) -> (r: Result<(), CheckError>)
    ensures
        match r {
            Ok(_) => value_checked(
                ValueOps::Id,
                *dest,
                *op_type,
                args@,
                funcs@,
                labels@,
                functions,
                old(env)@,
                label_set,
            ) == Ok::<Map<Seq<char>, Type>, CheckError>(final(env)@),
            Err(e) => value_checked(
                ValueOps::Id,
                *dest,
                *op_type,
                args@,
                funcs@,
                labels@,
                functions,
                old(env)@,
                label_set,
            ) == Err::<Map<Seq<char>, Type>, CheckError>(e) && final(env)@ == old(env)@,
        },
{
    let counted = check_counts(1, args, funcs, labels);
    let arg = check_arg(env, 0, args, op_type);
    proof {
        lemma_first_error_concat(counts(1, args@, funcs@, labels@), seq![arg]);
        lemma_first_error_1(arg);
    }
    let check = match counted {
        Err(e) => Err(e),
        Ok(_) => arg,
    };
    finish_update(check, env, dest, op_type)
}

/// Checks a `phi`.
#[verifier::loop_isolation(false)]
fn check_phi(
    dest: &String,
    op_type: &Type,
    args: &Vec<String>,
    funcs: &Vec<String>,
    labels: &Vec<String>,
    env: &mut TypeEnv,
    label_map: &NameMap,
    Ghost(functions): Ghost<Seq<Function>>,
) -> (r: Result<(), CheckError>)
    ensures
        match r {
            Ok(_) => value_checked(
                ValueOps::Phi,
                *dest,
                *op_type,
                args@,
                funcs@,
                labels@,
                functions,
                old(env)@,
                label_map@.dom(),
            ) == Ok::<Map<Seq<char>, Type>, CheckError>(final(env)@),
            Err(e) => value_checked(
                ValueOps::Phi,
                *dest,
                *op_type,
                args@,
                funcs@,
                labels@,
                functions,
                old(env)@,
                label_map@.dom(),
            ) == Err::<Map<Seq<char>, Type>, CheckError>(e) && final(env)@ == value_refused_env(
                ValueOps::Phi,
                *op_type,
                args@,
                funcs@,
                labels@,
                old(env)@,
                label_map@.dom(),
            ),
        },
{
    let ghost env0 = env@;
    if args.len() != labels.len() {
        return Err(CheckError::UnequalPhiNode);
    }
    let known = checklabels(labels, label_map);
    let no_funcs = check_num_funcs(0, funcs);
    proof {
        lemma_first_error_2(known, no_funcs);
    }
    match known {
        Err(e) => {
            return Err(e);
        },
        Ok(_) => {},
    }
    match no_funcs {
        Err(e) => {
            return Err(e);
        },
        Ok(_) => {},
    }
    let mut i: usize = 0;
    assert(args@.take(0) =~= Seq::empty());
    while i < args.len()
        invariant
            i <= args.len(),
            all_updated(env0, args@.take(i as int), *op_type) == Ok::<
                Map<Seq<char>, Type>,
                CheckError,
            >(env@),
        decreases args.len() - i,
    {
        proof {
            assert(args@.take(i as int + 1).drop_last() =~= args@.take(i as int));
            assert(args@.take(i as int + 1).last() == args@[i as int]);
        }
        let ghost before = env@;
        match update_env(env, &args[i], op_type) {
            Err(e) => {
                proof {
                    assert(all_updated(env0, args@.take(i as int + 1), *op_type) == Err::<
                        Map<Seq<char>, Type>,
                        CheckError,
                    >(e));
                    lemma_all_updated_error_stays(env0, args@, *op_type, i as int + 1);
                    lemma_until_error_skips(env0, args@, *op_type, i as int);
                    assert(args@.skip(i as int)[0] == args@[i as int]);
                    assert(updated_until_error(before, args@.skip(i as int), *op_type) == before);
                }
                return Err(e);
            },
            Ok(_) => {},
        }
        i = i + 1;
    }
    assert(args@.take(args@.len() as int) =~= args@);
    proof {
        lemma_until_error_skips(env0, args@, *op_type, args@.len() as int);
        assert(args@.skip(args@.len() as int) =~= Seq::empty());
    }
    update_env(env, dest, op_type)
}

/// The first of two checks that failed, if one did.
fn pick(a: Result<(), CheckError>, b: Result<(), CheckError>) -> (r: Result<(), CheckError>)
    ensures
        r == (if a is Err {
            a
        } else {
            b
        }),
{
    match a {
        Err(e) => Err(e),
        Ok(_) => b,
    }
}

/// Whether `typ` is a pointer type.
fn check_pointer(typ: &Type) -> (r: Result<(), CheckError>)
    ensures
        r == pointer_checked(*typ),
{
    match typ {
        Type::Pointer(_) => Ok(()),
        _ => Err(CheckError::ExpectedPointerType(typ.copy())),
    }
}

/// Whether operand `index` of an instruction is a pointer.
fn check_arg_pointer(env: &TypeEnv, index: usize, args: &Vec<String>) -> (r: Result<(), CheckError>)
    ensures
        r == arg_pointer_checked(env@, index, args@),
{
    match get_type(env, index, args) {
        Err(e) => Err(e),
        Ok(t) => check_pointer(t),
    }
}

/// Whether operand `index` of an instruction is a pointer to values of the
/// type `to`.
fn check_arg_points_to(env: &TypeEnv, index: usize, args: &Vec<String>, to: &Type) -> (r: Result<
    (),
    CheckError,
>)
    ensures
        r == arg_points_to(env@, index, args@, *to),
{
    match get_type(env, index, args) {
        Err(e) => Err(e),
        Ok(t) => match get_ptr_type(t) {
            Err(e) => Err(e),
            Ok(inner) => check_asmt_type(inner, to),
        },
    }
}

/// Whether `ty` is the type of operand `index` of an instruction.
fn check_same_as_arg(env: &TypeEnv, index: usize, args: &Vec<String>, ty: &Type) -> (r: Result<
    (),
    CheckError,
>)
    ensures
        r == same_as_arg(env@, index, args@, *ty),
{
    match get_type(env, index, args) {
        Err(e) => Err(e),
        Ok(t) => check_asmt_type(t, ty),
    }
}

/// Checks a call for a value.
fn check_value_call(
    dest: &String,
    op_type: &Type,
    args: &Vec<String>,
    funcs: &Vec<String>,
    labels: &Vec<String>,
    prog: &Program,
    env: &mut TypeEnv,
    Ghost(label_set): Ghost<Set<Seq<char>>>,
) -> (r: Result<(), CheckError>)
    ensures
        match r {
            Ok(_) => value_checked(
                ValueOps::Call,
                *dest,
                *op_type,
                args@,
                funcs@,
                labels@,
                prog.functions@,
                old(env)@,
                label_set,
            ) == Ok::<Map<Seq<char>, Type>, CheckError>(final(env)@),
            Err(e) => value_checked(
                ValueOps::Call,
                *dest,
                *op_type,
                args@,
                funcs@,
                labels@,
                prog.functions@,
                old(env)@,
                label_set,
            ) == Err::<Map<Seq<char>, Type>, CheckError>(e) && final(env)@ == old(env)@,
        },
{
    let check = match check_call(env, args, funcs, labels, prog) {
        Err(e) => Err(e),
        Ok(callee) => match &callee.return_type {
            None => Err(CheckError::NonEmptyRetForFunc(callee.name.clone())),
            Some(t) => check_asmt_type(op_type, t),
        },
    };
    proof {
        lemma_first_error_2(
            call_checked(env@, args@, funcs@, labels@, prog.functions@),
            callee_returns(prog.functions@, funcs@, *op_type),
        );
    }
    finish_update(check, env, dest, op_type)
}

/// Checks an allocation.
fn check_alloc(
    dest: &String,
    op_type: &Type,
    args: &Vec<String>,
    funcs: &Vec<String>,
    labels: &Vec<String>,
    env: &mut TypeEnv,
    Ghost(functions): Ghost<Seq<Function>>,
    Ghost(label_set): Ghost<Set<Seq<char>>>,
) -> (r: Result<(), CheckError>)
    ensures
        match r {
            Ok(_) => value_checked(
                ValueOps::Alloc,
                *dest,
                *op_type,
                args@,
                funcs@,
                labels@,
                functions,
                old(env)@,
                label_set,
            ) == Ok::<Map<Seq<char>, Type>, CheckError>(final(env)@),
            Err(e) => value_checked(
                ValueOps::Alloc,
                *dest,
                *op_type,
                args@,
                funcs@,
                labels@,
                functions,
                old(env)@,
                label_set,
            ) == Err::<Map<Seq<char>, Type>, CheckError>(e) && final(env)@ == old(env)@,
        },
{
    let counted = check_counts(1, args, funcs, labels);
    let size = check_arg(env, 0, args, &Type::Int);
    let pointer = check_pointer(op_type);
    proof {
        lemma_first_error_concat(counts(1, args@, funcs@, labels@), seq![size, pointer]);
        lemma_first_error_2(size, pointer);
    }
    finish_update(pick(counted, pick(size, pointer)), env, dest, op_type)
}

/// Checks a load.
fn check_load(
    dest: &String,
    op_type: &Type,
    args: &Vec<String>,
    funcs: &Vec<String>,
    labels: &Vec<String>,
    env: &mut TypeEnv,
    Ghost(functions): Ghost<Seq<Function>>,
    Ghost(label_set): Ghost<Set<Seq<char>>>,
) -> (r: Result<(), CheckError>)
    ensures
        match r {
            Ok(_) => value_checked(
                ValueOps::Load,
                *dest,
                *op_type,
                args@,
                funcs@,
                labels@,
                functions,
                old(env)@,
                label_set,
            ) == Ok::<Map<Seq<char>, Type>, CheckError>(final(env)@),
            Err(e) => value_checked(
                ValueOps::Load,
                *dest,
                *op_type,
                args@,
                funcs@,
                labels@,
                functions,
                old(env)@,
                label_set,
            ) == Err::<Map<Seq<char>, Type>, CheckError>(e) && final(env)@ == old(env)@,
        },
{
    let counted = check_counts(1, args, funcs, labels);
    let loaded = check_arg_points_to(env, 0, args, op_type);
    proof {
        lemma_first_error_concat(counts(1, args@, funcs@, labels@), seq![loaded]);
        lemma_first_error_1(loaded);
    }
    finish_update(pick(counted, loaded), env, dest, op_type)
}

/// Checks pointer arithmetic.
fn check_ptradd(
    dest: &String,
    op_type: &Type,
    args: &Vec<String>,
    funcs: &Vec<String>,
    labels: &Vec<String>,
    env: &mut TypeEnv,
    Ghost(functions): Ghost<Seq<Function>>,
    Ghost(label_set): Ghost<Set<Seq<char>>>,
) -> (r: Result<(), CheckError>)
    ensures
        match r {
            Ok(_) => value_checked(
                ValueOps::PtrAdd,
                *dest,
                *op_type,
                args@,
                funcs@,
                labels@,
                functions,
                old(env)@,
                label_set,
            ) == Ok::<Map<Seq<char>, Type>, CheckError>(final(env)@),
            Err(e) => value_checked(
                ValueOps::PtrAdd,
                *dest,
                *op_type,
                args@,
                funcs@,
                labels@,
                functions,
                old(env)@,
                label_set,
            ) == Err::<Map<Seq<char>, Type>, CheckError>(e) && final(env)@ == old(env)@,
        },
{
    let counted = check_counts(2, args, funcs, labels);
    let pointer = check_arg_pointer(env, 0, args);
    let offset = check_arg(env, 1, args, &Type::Int);
    let same = check_same_as_arg(env, 0, args, op_type);
    proof {
        lemma_first_error_concat(counts(2, args@, funcs@, labels@), seq![pointer, offset, same]);
        lemma_first_error_3(pointer, offset, same);
    }
    finish_update(pick(counted, pick(pointer, pick(offset, same))), env, dest, op_type)
}

/// Checks a value operation and records the type of its destination: see
/// [`value_checked`].
fn type_check_value(
    op: ValueOps,
    dest: &String,
    op_type: &Type,
    args: &Vec<String>,
    funcs: &Vec<String>,
    labels: &Vec<String>,
    prog: &Program,
    env: &mut TypeEnv,
    label_set: &NameMap,
) -> (r: Result<(), CheckError>)
    ensures
        match r {
            Ok(_) => value_checked(
                op,
                *dest,
                *op_type,
                args@,
                funcs@,
                labels@,
                prog.functions@,
                old(env)@,
                label_set@.dom(),
            ) == Ok::<Map<Seq<char>, Type>, CheckError>(final(env)@),
            Err(e) => value_checked(
                op,
                *dest,
                *op_type,
                args@,
                funcs@,
                labels@,
                prog.functions@,
                old(env)@,
                label_set@.dom(),
            ) == Err::<Map<Seq<char>, Type>, CheckError>(e) && final(env)@ == value_refused_env(
                op,
                *op_type,
                args@,
                funcs@,
                labels@,
                old(env)@,
                label_set@.dom(),
            ),
        },
{
    let ghost fs = prog.functions@;
    let ghost ls = label_set@.dom();
    if op_has_signature(op) {
        check_signature_op(op, dest, op_type, args, funcs, labels, env, Ghost(fs), Ghost(ls))
    } else {
        match op {
            ValueOps::Id => check_id(dest, op_type, args, funcs, labels, env, Ghost(fs), Ghost(ls)),
            ValueOps::Call => check_value_call(
                dest,
                op_type,
                args,
                funcs,
                labels,
                prog,
                env,
                Ghost(ls),
            ),
            ValueOps::Phi => check_phi(dest, op_type, args, funcs, labels, env, label_set, Ghost(fs)),
            ValueOps::Alloc => check_alloc(
                dest,
                op_type,
                args,
                funcs,
                labels,
                env,
                Ghost(fs),
                Ghost(ls),
            ),
            ValueOps::Load => check_load(
                dest,
                op_type,
                args,
                funcs,
                labels,
                env,
                Ghost(fs),
                Ghost(ls),
            ),
            _ => check_ptradd(dest, op_type, args, funcs, labels, env, Ghost(fs), Ghost(ls)),
        }
    }
}

/// Once an operand has the wrong type, the check of the operands has failed
/// with that.
pub proof fn lemma_operands_error_stays(
    env: Map<Seq<char>, Type>,
    args: Seq<String>,
    types: Seq<Type>,
    i: int,
    n: int,
)
    requires
        0 <= i <= n,
        operands_checked(env, args, types, i) is Err || i == n,
    ensures
        operands_checked(env, args, types, n) == operands_checked(env, args, types, i),
    decreases n - i,
{
    if i < n {
        lemma_operands_error_stays(env, args, types, i + 1, n);
    }
}

/// Once an argument of a `phi` has another type, the check of the arguments
/// has failed with that.
pub proof fn lemma_all_updated_error_stays(
    env: Map<Seq<char>, Type>,
    args: Seq<String>,
    ty: Type,
    n: int,
)
    requires
        0 <= n <= args.len(),
        all_updated(env, args.take(n), ty) is Err,
    ensures
        all_updated(env, args, ty) == all_updated(env, args.take(n), ty),
    decreases args.len() - n,
{
    if n < args.len() {
        assert(args.take(n + 1).drop_last() =~= args.take(n));
        lemma_all_updated_error_stays(env, args, ty, n + 1);
    } else {
        assert(args.take(n) =~= args);
    }
}

/// The first failure of four checks.
pub proof fn lemma_first_error_4(
    a: Result<(), CheckError>,
    b: Result<(), CheckError>,
    c: Result<(), CheckError>,
    d: Result<(), CheckError>,
)
    ensures
        first_error(seq![a, b, c, d]) == (if a is Err {
            a
        } else if b is Err {
            b
        } else if c is Err {
            c
        } else {
            d
        }),
{
    assert(seq![a, b, c, d].drop_first() =~= seq![b, c, d]);
    lemma_first_error_3(b, c, d);
}

/// The first failure of five checks.
pub proof fn lemma_first_error_5(
    a: Result<(), CheckError>,
    b: Result<(), CheckError>,
    c: Result<(), CheckError>,
    d: Result<(), CheckError>,
    e: Result<(), CheckError>,
)
    ensures
        first_error(seq![a, b, c, d, e]) == (if a is Err {
            a
        } else if b is Err {
            b
        } else if c is Err {
            c
        } else if d is Err {
            d
        } else {
            e
        }),
{
    assert(seq![a, b, c, d, e].drop_first() =~= seq![b, c, d, e]);
    lemma_first_error_4(b, c, d, e);
}

/// Whether the two operands of a store fit.
fn check_store(env: &TypeEnv, args: &Vec<String>) -> (r: Result<(), CheckError>)
    ensures
        r == store_checked(env@, args@),
{
    match get_type(env, 0, args) {
        Err(e) => Err(e),
        Ok(t0) => match get_type(env, 1, args) {
            Err(e) => Err(e),
            Ok(t1) => match get_ptr_type(t0) {
                Err(e) => Err(e),
                Ok(to) => check_asmt_type(to, t1),
            },
        },
    }
}

/// Whether a return fits the function.
fn check_return(env: &TypeEnv, args: &Vec<String>, func: &Function) -> (r: Result<(), CheckError>)
    ensures
        r == return_checked(env@, args@, *func),
{
    match &func.return_type {
        Some(t) => pick(check_num_args(1, args), check_arg(env, 0, args, t)),
        None => {
            if args.len() == 0 {
                Ok(())
            } else {
                Err(CheckError::NonEmptyRetForFunc(func.name.clone()))
            }
        },
    }
}

/// Whether every one of `args` is defined.
fn check_all_defined(env: &TypeEnv, args: &Vec<String>) -> (r: Result<(), CheckError>)
    ensures
        r == all_defined(env@, args@, args@.len() as int),
{
    let mut r: Result<(), CheckError> = Ok(());
    let mut i: usize = 0;
    while i < args.len() && r.is_ok()
        invariant
            i <= args.len(),
            r == all_defined(env@, args@, i as int),
        decreases args.len() - i,
    {
        r = match get_type(env, i, args) {
            Err(e) => Err(e),
            Ok(_) => Ok(()),
        };
        i = i + 1;
    }
    proof {
        lemma_all_defined_error_stays(env@, args@, i as int, args@.len() as int);
    }
    r
}

/// Once a variable is not defined, the check of the variables has failed
/// with that.
pub proof fn lemma_all_defined_error_stays(
    env: Map<Seq<char>, Type>,
    args: Seq<String>,
    i: int,
    n: int,
)
    requires
        0 <= i <= n,
        all_defined(env, args, i) is Err || i == n,
    ensures
        all_defined(env, args, n) == all_defined(env, args, i),
    decreases n - i,
{
    if i < n {
        lemma_all_defined_error_stays(env, args, i + 1, n);
    }
}

/// Checks an effect operation: see [`effect_checked`].
fn type_check_effect(
    op: EffectOps,
    args: &Vec<String>,
    funcs: &Vec<String>,
    labels: &Vec<String>,
    func: &Function,
    prog: &Program,
    env: &TypeEnv,
    label_set: &NameMap,
) -> (r: Result<(), CheckError>)
    ensures
        r == effect_checked(
            op,
            args@,
            funcs@,
            labels@,
            *func,
            prog.functions@,
            env@,
            label_set@.dom(),
        ),
{
    match op {
        EffectOps::Jump => {
            let a = check_num_args(0, args);
            let b = check_num_funcs(0, funcs);
            let c = check_num_labels(1, labels);
            let d = checklabels(labels, label_set);
            proof {
                lemma_first_error_4(a, b, c, d);
            }
            pick(a, pick(b, pick(c, d)))
        },
        EffectOps::Branch => {
            let a = check_num_args(1, args);
            let b = check_arg(env, 0, args, &Type::Bool);
            let c = check_num_funcs(0, funcs);
            let d = check_num_labels(2, labels);
            let e = checklabels(labels, label_set);
            proof {
                lemma_first_error_5(a, b, c, d, e);
            }
            pick(a, pick(b, pick(c, pick(d, e))))
        },
        EffectOps::Return => {
            let a = check_num_funcs(0, funcs);
            let b = check_num_labels(0, labels);
            let c = check_return(env, args, func);
            proof {
                lemma_first_error_3(a, b, c);
            }
            pick(a, pick(b, c))
        },
        EffectOps::Print => {
            let a = check_num_funcs(0, funcs);
            let b = check_num_labels(0, labels);
            let c = check_all_defined(env, args);
            proof {
                lemma_first_error_3(a, b, c);
            }
            pick(a, pick(b, c))
        },
        EffectOps::Nop => {
            let a = check_num_args(0, args);
            let b = check_num_funcs(0, funcs);
            let c = check_num_labels(0, labels);
            proof {
                lemma_first_error_3(a, b, c);
            }
            pick(a, pick(b, c))
        },
        EffectOps::Call => {
            let check = match check_call(env, args, funcs, labels, prog) {
                Err(e) => Err(e),
                Ok(callee) => {
                    if callee.return_type.is_some() {
                        Err(CheckError::NonEmptyRetForFunc(callee.name.clone()))
                    } else {
                        Ok(())
                    }
                },
            };
            proof {
                lemma_first_error_2(
                    call_checked(env@, args@, funcs@, labels@, prog.functions@),
                    callee_returns_nothing(prog.functions@, funcs@),
                );
            }
            check
        },
        EffectOps::Store => {
            let a = check_num_args(2, args);
            let b = check_num_funcs(0, funcs);
            let c = check_num_labels(0, labels);
            let d = check_store(env, args);
            proof {
                lemma_first_error_4(a, b, c, d);
            }
            pick(a, pick(b, pick(c, d)))
        },
        EffectOps::Free => {
            let a = check_num_args(1, args);
            let b = check_num_funcs(0, funcs);
            let c = check_num_labels(0, labels);
            let d = check_arg_pointer(env, 0, args);
            proof {
                lemma_first_error_4(a, b, c, d);
            }
            pick(a, pick(b, pick(c, d)))
        },
    }
}

/// Checks the instruction `instr` of the function `func` and records the
/// type of what it writes: see [`instruction_checked`].
pub fn type_check_instruction(
    instr: &Instruction,
    func: &Function,
    prog: &Program,
    env: &mut TypeEnv,
    label_set: &NameMap,
) -> (r: Result<(), CheckError>)
    ensures
        match r {
            Ok(_) => instruction_checked(
                *instr,
                *func,
                prog.functions@,
                old(env)@,
                label_set@.dom(),
            ) == Ok::<Map<Seq<char>, Type>, CheckError>(final(env)@),
            Err(e) => instruction_checked(
                *instr,
                *func,
                prog.functions@,
                old(env)@,
                label_set@.dom(),
            ) == Err::<Map<Seq<char>, Type>, CheckError>(e) && final(env)@ == env_after_refusal(
                *instr,
                old(env)@,
                label_set@.dom(),
            ),
        },
{
    match instr {
        Instruction::Constant { op: _, dest, const_type, value, pos: _ } => {
            let check = match (const_type, value) {
                (Type::Float, Literal::Int(_)) => Ok(()),
                _ => check_asmt_type(const_type, &type_of_literal(value)),
            };
            finish_update(check, env, dest, const_type)
        },
        Instruction::Value { op, dest, op_type, args, funcs, labels, pos: _ } => type_check_value(
            *op,
            dest,
            op_type,
            args,
            funcs,
            labels,
            prog,
            env,
            label_set,
        ),
        Instruction::Effect { op, args, funcs, labels, pos: _ } => type_check_effect(
            *op,
            args,
            funcs,
            labels,
            func,
            prog,
            env,
            label_set,
        ),
    }
}

/// The types of the arguments of a function; of two arguments with one name
/// the later one counts.
pub open spec fn args_env(args: Seq<Argument>) -> Map<Seq<char>, Type>
    decreases args.len(),
{
    if args.len() == 0 {
        no_types()
    } else {
        args_env(args.drop_last()).insert(args.last().name@, args.last().arg_type)
    }
}

/// The labels of a function body, or the first label that stands twice.
pub open spec fn label_names(codes: Seq<Code>, func_name: String) -> Result<
    Set<Seq<char>>,
    CheckError,
>
    decreases codes.len(),
{
    if codes.len() == 0 {
        Ok(Set::empty())
    } else {
        match label_names(codes.drop_last(), func_name) {
            Err(e) => Err(e),
            Ok(set) => match codes.last() {
                Code::Label { label, .. } => if set.contains(label@) {
                    Err(CheckError::DuplicateLabel(label, func_name))
                } else {
                    Ok(set.insert(label@))
                },
                Code::Instruction(_) => Ok(set),
            },
        }
    }
}

/// The types of the variables after the first `n` entries of a function
/// body, or the error of the first instruction that is not well-typed, at
/// the position of that instruction.
pub open spec fn body_checked(
    codes: Seq<Code>,
    n: int,
    func: Function,
    functions: Seq<Function>,
    env: Map<Seq<char>, Type>,
    label_set: Set<Seq<char>>,
) -> Result<Map<Seq<char>, Type>, PositionalError<CheckError>>
    decreases n,
{
    if n <= 0 {
        Ok(env)
    } else {
        match body_checked(codes, n - 1, func, functions, env, label_set) {
            Err(e) => Err(e),
            Ok(before) => match codes[n - 1] {
                Code::Label { .. } => Ok(before),
                Code::Instruction(i) => match instruction_checked(
                    i,
                    func,
                    functions,
                    before,
                    label_set,
                ) {
                    Ok(after) => Ok(after),
                    Err(e) => Err(PositionalError { e, pos: i.spec_pos() }),
                },
            },
        }
    }
}

/// Whether the function `func` is well-typed: no label stands twice, and
/// every instruction is well-typed where it stands, the arguments being
/// defined from the start. The instructions are taken in the order in which
/// they are written.
pub open spec fn function_checked(func: Function, functions: Seq<Function>) -> Result<
    (),
    PositionalError<CheckError>,
> {
    match label_names(func.instrs@, func.name) {
        Err(e) => Err(PositionalError { e, pos: None }),
        Ok(set) => match body_checked(
            func.instrs@,
            func.instrs@.len() as int,
            func,
            functions,
            args_env(func.args@),
            set,
        ) {
            Err(e) => Err(e),
            Ok(_) => Ok(()),
        },
    }
}

/// Whether the first `n` functions of a program are well-typed, or the error
/// of the first that is not.
pub open spec fn functions_checked(functions: Seq<Function>, n: int) -> Result<
    (),
    PositionalError<CheckError>,
>
    decreases n,
{
    if n <= 0 {
        Ok(())
    } else if functions_checked(functions, n - 1) is Err {
        functions_checked(functions, n - 1)
    } else {
        function_checked(functions[n - 1], functions)
    }
}

/// Whether the program `prog` is well-typed: whether each of its functions
/// is.
pub open spec fn program_checked(prog: Program) -> Result<(), PositionalError<CheckError>> {
    functions_checked(prog.functions@, prog.functions@.len() as int)
}

/// Once a label stands twice among the first entries of a body, it does in
/// the whole body.
pub proof fn lemma_label_names_error_stays(codes: Seq<Code>, func_name: String, n: int)
    requires
        0 <= n <= codes.len(),
        label_names(codes.take(n), func_name) is Err,
    ensures
        label_names(codes, func_name) == label_names(codes.take(n), func_name),
    decreases codes.len() - n,
{
    if n < codes.len() {
        assert(codes.take(n + 1).drop_last() =~= codes.take(n));
        assert(label_names(codes.take(n + 1), func_name) == label_names(codes.take(n), func_name));
        lemma_label_names_error_stays(codes, func_name, n + 1);
    } else {
        assert(codes.take(n) =~= codes);
    }
}

/// Once an instruction is not well-typed, the body is not, with the same
/// error.
pub proof fn lemma_body_error_stays(
    codes: Seq<Code>,
    i: int,
    n: int,
    func: Function,
    functions: Seq<Function>,
    env: Map<Seq<char>, Type>,
    label_set: Set<Seq<char>>,
)
    requires
        0 <= i <= n,
        body_checked(codes, i, func, functions, env, label_set) is Err,
    ensures
        body_checked(codes, n, func, functions, env, label_set) == body_checked(
            codes,
            i,
            func,
            functions,
            env,
            label_set,
        ),
    decreases n - i,
{
    if i < n {
        lemma_body_error_stays(codes, i + 1, n, func, functions, env, label_set);
    }
}

/// Once a function is not well-typed, the program is not, with the same
/// error.
pub proof fn lemma_functions_error_stays(functions: Seq<Function>, i: int, n: int)
    requires
        0 <= i <= n,
        functions_checked(functions, i) is Err,
    ensures
        functions_checked(functions, n) == functions_checked(functions, i),
    decreases n - i,
{
    if i < n {
        lemma_functions_error_stays(functions, i + 1, n);
    }
}

/// Checks the function `func` of `prog`: see [`function_checked`].
#[verifier::loop_isolation(false)]
pub fn type_check_func(func: &Function, prog: &Program) -> (r: Result<
    (),
    PositionalError<CheckError>,
>)
    ensures
        r == function_checked(*func, prog.functions@),
{
    let mut env = TypeEnv::new();
    let mut a: usize = 0;
    assert(func.args@.take(0) =~= Seq::empty());
    while a < func.args.len()
        invariant
            a <= func.args.len(),
            env@ == args_env(func.args@.take(a as int)),
        decreases func.args.len() - a,
    {
        proof {
            assert(func.args@.take(a as int + 1).drop_last() =~= func.args@.take(a as int));
            assert(func.args@.take(a as int + 1).last() == func.args@[a as int]);
        }
        env.insert(func.args[a].name.clone(), func.args[a].arg_type.copy());
        a = a + 1;
    }
    assert(func.args@.take(func.args@.len() as int) =~= func.args@);
    let mut label_set = NameMap::new();
    let mut l: usize = 0;
    assert(func.instrs@.take(0) =~= Seq::empty());
    assert(label_set@.dom() =~= Set::empty());
    while l < func.instrs.len()
        invariant
            l <= func.instrs.len(),
            label_names(func.instrs@.take(l as int), func.name) == Ok::<Set<Seq<char>>, CheckError>(
                label_set@.dom(),
            ),
        decreases func.instrs.len() - l,
    {
        proof {
            assert(func.instrs@.take(l as int + 1).drop_last() =~= func.instrs@.take(l as int));
            assert(func.instrs@.take(l as int + 1).last() == func.instrs@[l as int]);
        }
        match &func.instrs[l] {
            Code::Label { label, .. } => {
                if label_set.get(label).is_some() {
                    proof {
                        lemma_label_names_error_stays(func.instrs@, func.name, l as int + 1);
                    }
                    return Err(
                        PositionalError {
                            e: CheckError::DuplicateLabel(label.clone(), func.name.clone()),
                            pos: None,
                        },
                    );
                }
                let ghost before = label_set@;
                label_set.insert(label.clone(), 0);
                assert(label_set@.dom() =~= before.dom().insert(label@));
            },
            Code::Instruction(_) => {},
        }
        l = l + 1;
    }
    assert(func.instrs@.take(func.instrs@.len() as int) =~= func.instrs@);
    let ghost env0 = env@;
    let ghost set = label_set@.dom();
    let mut i: usize = 0;
    while i < func.instrs.len()
        invariant
            i <= func.instrs.len(),
            set == label_set@.dom(),
            body_checked(func.instrs@, i as int, *func, prog.functions@, env0, set) == Ok::<
                Map<Seq<char>, Type>,
                PositionalError<CheckError>,
            >(env@),
        decreases func.instrs.len() - i,
    {
        match &func.instrs[i] {
            Code::Label { .. } => {},
            Code::Instruction(instr) => {
                match type_check_instruction(instr, func, prog, &mut env, &label_set) {
                    Ok(_) => {},
                    Err(e) => {
                        let err = PositionalError { e, pos: instr.get_pos() };
                        proof {
                            assert(body_checked(
                                func.instrs@,
                                i as int + 1,
                                *func,
                                prog.functions@,
                                env0,
                                set,
                            ) == Err::<Map<Seq<char>, Type>, PositionalError<CheckError>>(err));
                            lemma_body_error_stays(
                                func.instrs@,
                                i as int + 1,
                                func.instrs@.len() as int,
                                *func,
                                prog.functions@,
                                env0,
                                set,
                            );
                        }
                        return Err(err);
                    },
                }
            },
        }
        i = i + 1;
    }
    Ok(())
}

/// Checks that `prog` is well-typed: that every instruction has the number
/// of operands it takes, of the types it takes, and names labels and
/// functions that exist. The error is that of the first instruction, in the
/// order in which the program is written, that is not so.
pub fn type_check(prog: &Program) -> (r: Result<(), PositionalError<CheckError>>)
    ensures
        r == program_checked(*prog),
{
    let mut i: usize = 0;
    while i < prog.functions.len()
        invariant
            i <= prog.functions.len(),
            functions_checked(prog.functions@, i as int) is Ok,
        decreases prog.functions.len() - i,
    {
        match type_check_func(&prog.functions[i], prog) {
            Ok(_) => {},
            Err(e) => {
                proof {
                    assert(functions_checked(prog.functions@, i as int + 1) == Err::<
                        (),
                        PositionalError<CheckError>,
                    >(e));
                    lemma_functions_error_stays(
                        prog.functions@,
                        i as int + 1,
                        prog.functions@.len() as int,
                    );
                }
                return Err(e);
            },
        }
        i = i + 1;
    }
    Ok(())
}

} // verus!
