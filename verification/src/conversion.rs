use vstd::prelude::*;
use vstd::string::StringExecFns;
use crate::positional::{Position, PositionalError, PositionalErrorTrait};
use crate::program::{
    Argument, Code, ConstOps, EffectOps, Function, Import, Instruction, Literal,
    Program, Type, ValueOps,
};

verus! {

/// A type as it is written: a name, or a name with a type in angle brackets.
#[derive(Debug)]
pub enum AbstractType {
    /// A type like `int`.
    Primitive(String),
    /// A type like `ptr<int>`.
    Parameterized(String, Box<AbstractType>),
}

/// A formal argument with its type as written.
#[derive(Debug)]
pub struct AbstractArgument {
    /// The argument's name.
    pub name: String,
    /// The argument's type.
    pub arg_type: AbstractType,
}

/// An instruction with its operation and types as written.
#[derive(Debug)]
pub enum AbstractInstruction {
    /// `dest: const_type = const value`
    Constant {
        /// Always `const`.
        op: ConstOps,
        /// The variable written.
        dest: String,
        /// The declared type of `dest`, if one is given.
        const_type: Option<AbstractType>,
        /// The literal.
        value: Literal,
        /// Where the instruction stands in the source.
        pos: Option<Position>,
    },
    /// `dest: op_type = op args funcs labels`
    Value {
        /// The name of the operation.
        op: String,
        /// The variable written.
        dest: String,
        /// The declared type of `dest`, if one is given.
        op_type: Option<AbstractType>,
        /// The variables read.
        args: Vec<String>,
        /// The functions named.
        funcs: Vec<String>,
        /// The labels named.
        labels: Vec<String>,
        /// Where the instruction stands in the source.
        pos: Option<Position>,
    },
    /// `op args funcs labels`
    Effect {
        /// The name of the operation.
        op: String,
        /// The variables read.
        args: Vec<String>,
        /// The functions named.
        funcs: Vec<String>,
        /// The labels named.
        labels: Vec<String>,
        /// Where the instruction stands in the source.
        pos: Option<Position>,
    },
}

/// An element of a function body as written.
#[derive(Debug)]
pub enum AbstractCode {
    /// A label.
    Label {
        /// The label's name.
        label: String,
        /// Where the label stands in the source.
        pos: Option<Position>,
    },
    /// An instruction.
    Instruction(AbstractInstruction),
}

/// A function as written.
#[derive(Debug)]
pub struct AbstractFunction {
    /// The function's name.
    pub name: String,
    /// The formal arguments.
    pub args: Vec<AbstractArgument>,
    /// The return type, if one is given.
    pub return_type: Option<AbstractType>,
    /// The body.
    pub instrs: Vec<AbstractCode>,
    /// Where the function stands in the source.
    pub pos: Option<Position>,
}

/// A program as written: operations and types are still names.
#[derive(Debug)]
pub struct AbstractProgram {
    /// What the program takes from other files.
    pub imports: Vec<Import>,
    /// The functions.
    pub functions: Vec<AbstractFunction>,
}

/// Why a program as written is not a program.
#[derive(Debug)]
pub enum ConversionError {
    /// A name that is no type stands where a type is expected.
    InvalidPrimitive(String),
    /// A name that takes no type in angle brackets was given one; the second
    /// text is the type in the brackets.
    InvalidParameterized(String, String),
    /// A name that is no value operation stands where one is expected.
    InvalidValueOps(String),
    /// A name that is no effect operation stands where one is expected.
    InvalidEffectOps(String),
    /// A type is missing.
    MissingType,
}

impl PositionalErrorTrait for ConversionError {

}

/// `s` is the text `lit`.
pub fn is(s: &String, lit: &str) -> (b: bool)
    ensures
        b == (s@ == lit@),
{
    let l = String::from_str(lit);
    *s == l
}

impl AbstractType {
    /// The type as it is written.
    pub open spec fn text(&self) -> Seq<char>
        decreases self,
    {
        match self {
            AbstractType::Primitive(t) => t@,
            AbstractType::Parameterized(t, inner) => t@ + seq!['<'] + inner.text() + seq!['>'],
        }
    }

    /// The type as it is written.
    pub fn to_string(&self) -> (r: String)
        ensures
            r@ == self.text(),
        decreases self,
    {
        match self {
            AbstractType::Primitive(t) => t.clone(),
            AbstractType::Parameterized(t, inner) => {
                let mut out = t.clone();
                out.append("<");
                out.append(inner.to_string().as_str());
                out.append(">");
                proof {
                    reveal_strlit("<");
                    reveal_strlit(">");
                    assert("<"@ =~= seq!['<']);
                    assert(">"@ =~= seq!['>']);
                    assert(out@ =~= self.text());
                }
                out
            },
        }
    }
}

/// Whether `r` is what the type `t` stands for: `int`, `bool`, `float` and
/// `char` stand for themselves and `ptr` with a type in angle brackets for a
/// pointer to it; any other name is an error that holds the name, and for a
/// name with brackets also the type in the brackets as written.
pub open spec fn typed(t: AbstractType, r: Result<Type, ConversionError>) -> bool
    decreases t,
{
    match t {
        AbstractType::Primitive(name) => r == (if name@ == "int"@ {
            Ok::<Type, ConversionError>(Type::Int)
        } else if name@ == "bool"@ {
            Ok(Type::Bool)
        } else if name@ == "float"@ {
            Ok(Type::Float)
        } else if name@ == "char"@ {
            Ok(Type::Char)
        } else {
            Err(ConversionError::InvalidPrimitive(name))
        }),
        AbstractType::Parameterized(name, inner) => if name@ == "ptr"@ {
            match r {
                Ok(Type::Pointer(to)) => typed(*inner, Ok(*to)),
                Ok(_) => false,
                Err(e) => typed(*inner, Err(e)),
            }
        } else {
            match r {
                Err(ConversionError::InvalidParameterized(n, written)) => n == name && written@
                    == inner.text(),
                _ => false,
            }
        },
    }
}

/// Whether `r` is what the type `t` stands for, where a type that is not
/// given is an error.
pub open spec fn typed_opt(t: Option<AbstractType>, r: Result<Type, ConversionError>) -> bool {
    match t {
        Some(ty) => typed(ty, r),
        None => r == Err::<Type, ConversionError>(ConversionError::MissingType),
    }
}

/// The value operation that `s` names.
pub open spec fn value_op_named(s: Seq<char>) -> Option<ValueOps> {
    if s == "add"@ {
        Some(ValueOps::Add)
    } else if s == "mul"@ {
        Some(ValueOps::Mul)
    } else if s == "div"@ {
        Some(ValueOps::Div)
    } else if s == "eq"@ {
        Some(ValueOps::Eq)
    } else if s == "lt"@ {
        Some(ValueOps::Lt)
    } else if s == "gt"@ {
        Some(ValueOps::Gt)
    } else if s == "le"@ {
        Some(ValueOps::Le)
    } else if s == "ge"@ {
        Some(ValueOps::Ge)
    } else if s == "not"@ {
        Some(ValueOps::Not)
    } else if s == "and"@ {
        Some(ValueOps::And)
    } else if s == "or"@ {
        Some(ValueOps::Or)
    } else if s == "call"@ {
        Some(ValueOps::Call)
    } else if s == "id"@ {
        Some(ValueOps::Id)
    } else if s == "sub"@ {
        Some(ValueOps::Sub)
    } else if s == "phi"@ {
        Some(ValueOps::Phi)
    } else if s == "fadd"@ {
        Some(ValueOps::Fadd)
    } else if s == "fsub"@ {
        Some(ValueOps::Fsub)
    } else if s == "fmul"@ {
        Some(ValueOps::Fmul)
    } else if s == "fdiv"@ {
        Some(ValueOps::Fdiv)
    } else if s == "feq"@ {
        Some(ValueOps::Feq)
    } else if s == "flt"@ {
        Some(ValueOps::Flt)
    } else if s == "fgt"@ {
        Some(ValueOps::Fgt)
    } else if s == "fle"@ {
        Some(ValueOps::Fle)
    } else if s == "fge"@ {
        Some(ValueOps::Fge)
    } else if s == "ceq"@ {
        Some(ValueOps::Ceq)
    } else if s == "clt"@ {
        Some(ValueOps::Clt)
    } else if s == "cgt"@ {
        Some(ValueOps::Cgt)
    } else if s == "cle"@ {
        Some(ValueOps::Cle)
    } else if s == "cge"@ {
        Some(ValueOps::Cge)
    } else if s == "char2int"@ {
        Some(ValueOps::Char2int)
    } else if s == "int2char"@ {
        Some(ValueOps::Int2char)
    } else if s == "alloc"@ {
        Some(ValueOps::Alloc)
    } else if s == "load"@ {
        Some(ValueOps::Load)
    } else if s == "ptradd"@ {
        Some(ValueOps::PtrAdd)
    } else {
        None
    }
}

/// The effect operation that `s` names.
pub open spec fn effect_op_named(s: Seq<char>) -> Option<EffectOps> {
    if s == "jmp"@ {
        Some(EffectOps::Jump)
    } else if s == "br"@ {
        Some(EffectOps::Branch)
    } else if s == "call"@ {
        Some(EffectOps::Call)
    } else if s == "ret"@ {
        Some(EffectOps::Return)
    } else if s == "print"@ {
        Some(EffectOps::Print)
    } else if s == "nop"@ {
        Some(EffectOps::Nop)
    } else if s == "store"@ {
        Some(EffectOps::Store)
    } else if s == "free"@ {
        Some(EffectOps::Free)
    } else {
        None
    }
}

/// The value operation that `op` names, if it names one.
pub fn value_op(op: &String) -> (r: Option<ValueOps>)
    ensures
        r == value_op_named(op@),
{
    if is(op, "add") {
        Some(ValueOps::Add)
    } else if is(op, "mul") {
        Some(ValueOps::Mul)
    } else if is(op, "div") {
        Some(ValueOps::Div)
    } else if is(op, "eq") {
        Some(ValueOps::Eq)
    } else if is(op, "lt") {
        Some(ValueOps::Lt)
    } else if is(op, "gt") {
        Some(ValueOps::Gt)
    } else if is(op, "le") {
        Some(ValueOps::Le)
    } else if is(op, "ge") {
        Some(ValueOps::Ge)
    } else if is(op, "not") {
        Some(ValueOps::Not)
    } else if is(op, "and") {
        Some(ValueOps::And)
    } else if is(op, "or") {
        Some(ValueOps::Or)
    } else if is(op, "call") {
        Some(ValueOps::Call)
    } else if is(op, "id") {
        Some(ValueOps::Id)
    } else if is(op, "sub") {
        Some(ValueOps::Sub)
    } else if is(op, "phi") {
        Some(ValueOps::Phi)
    } else if is(op, "fadd") {
        Some(ValueOps::Fadd)
    } else if is(op, "fsub") {
        Some(ValueOps::Fsub)
    } else if is(op, "fmul") {
        Some(ValueOps::Fmul)
    } else if is(op, "fdiv") {
        Some(ValueOps::Fdiv)
    } else if is(op, "feq") {
        Some(ValueOps::Feq)
    } else if is(op, "flt") {
        Some(ValueOps::Flt)
    } else if is(op, "fgt") {
        Some(ValueOps::Fgt)
    } else if is(op, "fle") {
        Some(ValueOps::Fle)
    } else if is(op, "fge") {
        Some(ValueOps::Fge)
    } else if is(op, "ceq") {
        Some(ValueOps::Ceq)
    } else if is(op, "clt") {
        Some(ValueOps::Clt)
    } else if is(op, "cgt") {
        Some(ValueOps::Cgt)
    } else if is(op, "cle") {
        Some(ValueOps::Cle)
    } else if is(op, "cge") {
        Some(ValueOps::Cge)
    } else if is(op, "char2int") {
        Some(ValueOps::Char2int)
    } else if is(op, "int2char") {
        Some(ValueOps::Int2char)
    } else if is(op, "alloc") {
        Some(ValueOps::Alloc)
    } else if is(op, "load") {
        Some(ValueOps::Load)
    } else if is(op, "ptradd") {
        Some(ValueOps::PtrAdd)
    } else {
        None
    }
}

/// The effect operation that `op` names, if it names one.
pub fn effect_op(op: &String) -> (r: Option<EffectOps>)
    ensures
        r == effect_op_named(op@),
{
    if is(op, "jmp") {
        Some(EffectOps::Jump)
    } else if is(op, "br") {
        Some(EffectOps::Branch)
    } else if is(op, "call") {
        Some(EffectOps::Call)
    } else if is(op, "ret") {
        Some(EffectOps::Return)
    } else if is(op, "print") {
        Some(EffectOps::Print)
    } else if is(op, "nop") {
        Some(EffectOps::Nop)
    } else if is(op, "store") {
        Some(EffectOps::Store)
    } else if is(op, "free") {
        Some(EffectOps::Free)
    } else {
        None
    }
}

/// A copy of `names`.
pub fn copy_names(names: &Vec<String>) -> (r: Vec<String>)
    ensures
        r@ == names@,
{
    let mut out: Vec<String> = Vec::new();
    let mut i: usize = 0;
    while i < names.len()
        invariant
            i <= names.len(),
            out@.len() == i,
            forall|j: int| 0 <= j < i ==> out@[j] == names@[j],
        decreases names.len() - i,
    {
        out.push(names[i].clone());
        i = i + 1;
    }
    assert(out@ =~= names@);
    out
}

impl Type {
    /// The type that `value` stands for: see [`typed`].
    pub fn try_from(value: &AbstractType) -> (r: Result<Type, ConversionError>)
        ensures
            typed(*value, r),
        decreases *value,
    {
        match value {
            AbstractType::Primitive(t) => {
                if is(t, "int") {
                    Ok(Type::Int)
                } else if is(t, "bool") {
                    Ok(Type::Bool)
                } else if is(t, "float") {
                    Ok(Type::Float)
                } else if is(t, "char") {
                    Ok(Type::Char)
                } else {
                    Err(ConversionError::InvalidPrimitive(t.clone()))
                }
            },
            AbstractType::Parameterized(t, ty) => {
                if is(t, "ptr") {
                    match Type::try_from(ty) {
                        Ok(inner) => Ok(Type::Pointer(Box::new(inner))),
                        Err(e) => Err(e),
                    }
                } else {
                    Err(ConversionError::InvalidParameterized(t.clone(), ty.to_string()))
                }
            },
        }
    }

    /// The type that `value` stands for; a type that is not given is an
    /// error.
    pub fn try_from_option(value: &Option<AbstractType>) -> (r: Result<Type, ConversionError>)
        ensures
            typed_opt(*value, r),
    {
        match value {
            Some(t) => Type::try_from(t),
            None => Err(ConversionError::MissingType),
        }
    }
}

/// Whether `r` is what the instruction `a` stands for: the same instruction
/// with its type and its operation in place of their names. The type is
/// looked at first. An error is at the position of the instruction.
pub open spec fn instruction_converted(
    a: AbstractInstruction,
    r: Result<Instruction, PositionalError<ConversionError>>,
) -> bool {
    match a {
        AbstractInstruction::Constant { op, dest, const_type, value, pos } => match r {
            Ok(i) => i matches Instruction::Constant {
                op: op2,
                dest: dest2,
                const_type: type2,
                value: value2,
                pos: pos2,
            } && op2 == op && dest2 == dest && value2 == value && pos2 == pos && typed_opt(
                const_type,
                Ok(type2),
            ),
            Err(e) => e.pos == pos && typed_opt(const_type, Err(e.e)),
        },
        AbstractInstruction::Value { op, dest, op_type, args, funcs, labels, pos } => match r {
            Ok(i) => i matches Instruction::Value {
                op: op2,
                dest: dest2,
                op_type: type2,
                args: args2,
                funcs: funcs2,
                labels: labels2,
                pos: pos2,
            } && value_op_named(op@) == Some(op2) && dest2 == dest && args2@ == args@ && funcs2@
                == funcs@ && labels2@ == labels@ && pos2 == pos && typed_opt(op_type, Ok(type2)),
            Err(e) => e.pos == pos && (typed_opt(op_type, Err(e.e)) || (exists|t: Type|
                typed_opt(op_type, Ok(t))) && value_op_named(op@) is None && e.e
                == ConversionError::InvalidValueOps(op)),
        },
        AbstractInstruction::Effect { op, args, funcs, labels, pos } => match r {
            Ok(i) => i matches Instruction::Effect {
                op: op2,
                args: args2,
                funcs: funcs2,
                labels: labels2,
                pos: pos2,
            } && effect_op_named(op@) == Some(op2) && args2@ == args@ && funcs2@ == funcs@
                && labels2@ == labels@ && pos2 == pos,
            Err(e) => e.pos == pos && effect_op_named(op@) is None && e.e
                == ConversionError::InvalidEffectOps(op),
        },
    }
}

impl Instruction {
    /// The instruction that `i` stands for: see [`instruction_converted`].
    pub fn try_from(i: &AbstractInstruction) -> (r: Result<
        Instruction,
        PositionalError<ConversionError>,
    >)
        ensures
            instruction_converted(*i, r),
    {
        match i {
            AbstractInstruction::Constant { op, dest, const_type, value, pos } => {
                match Type::try_from_option(const_type) {
                    Err(e) => Err(PositionalError { e, pos: *pos }),
                    Ok(ty) => Ok(
                        Instruction::Constant {
                            op: *op,
                            dest: dest.clone(),
                            const_type: ty,
                            value: *value,
                            pos: *pos,
                        },
                    ),
                }
            },
            AbstractInstruction::Value { op, dest, op_type, args, funcs, labels, pos } => {
                match Type::try_from_option(op_type) {
                    Err(e) => Err(PositionalError { e, pos: *pos }),
                    Ok(ty) => match value_op(op) {
                        None => Err(
                            PositionalError {
                                e: ConversionError::InvalidValueOps(op.clone()),
                                pos: *pos,
                            },
                        ),
                        Some(o) => Ok(
                            Instruction::Value {
                                op: o,
                                dest: dest.clone(),
                                op_type: ty,
                                args: copy_names(args),
                                funcs: copy_names(funcs),
                                labels: copy_names(labels),
                                pos: *pos,
                            },
                        ),
                    },
                }
            },
            AbstractInstruction::Effect { op, args, funcs, labels, pos } => match effect_op(op) {
                None => Err(
                    PositionalError { e: ConversionError::InvalidEffectOps(op.clone()), pos: *pos },
                ),
                Some(o) => Ok(
                    Instruction::Effect {
                        op: o,
                        args: copy_names(args),
                        funcs: copy_names(funcs),
                        labels: copy_names(labels),
                        pos: *pos,
                    },
                ),
            },
        }
    }
}

/// Whether `r` is what the label or instruction `c` stands for.
pub open spec fn code_converted(
    c: AbstractCode,
    r: Result<Code, PositionalError<ConversionError>>,
) -> bool {
    match c {
        AbstractCode::Label { label, pos } => r == Ok::<Code, PositionalError<ConversionError>>(
            Code::Label { label, pos },
        ),
        AbstractCode::Instruction(i) => match r {
            Ok(Code::Instruction(j)) => instruction_converted(i, Ok(j)),
            Ok(_) => false,
            Err(e) => instruction_converted(i, Err(e)),
        },
    }
}

impl Code {
    /// The label or instruction that `c` stands for.
    pub fn try_from(c: &AbstractCode) -> (r: Result<Code, PositionalError<ConversionError>>)
        ensures
            code_converted(*c, r),
    {
        match c {
            AbstractCode::Label { label, pos } => Ok(
                Code::Label { label: label.clone(), pos: *pos },
            ),
            AbstractCode::Instruction(i) => match Instruction::try_from(i) {
                Ok(j) => Ok(Code::Instruction(j)),
                Err(e) => Err(e),
            },
        }
    }
}

/// Whether `r` is what the argument `a` stands for.
pub open spec fn argument_converted(
    a: AbstractArgument,
    r: Result<Argument, ConversionError>,
) -> bool {
    match r {
        Ok(arg) => arg.name == a.name && typed(a.arg_type, Ok(arg.arg_type)),
        Err(e) => typed(a.arg_type, Err(e)),
    }
}

impl Argument {
    /// The argument that `a` stands for.
    pub fn try_from(a: &AbstractArgument) -> (r: Result<Argument, ConversionError>)
        ensures
            argument_converted(*a, r),
    {
        match Type::try_from(&a.arg_type) {
            Ok(ty) => Ok(Argument { name: a.name.clone(), arg_type: ty }),
            Err(e) => Err(e),
        }
    }
}

/// Whether `r` is what the function `f` stands for: the same function with
/// every argument, every instruction and the return type converted. The
/// error is that of the first argument that fails, else of the first
/// instruction, else of the return type; errors of arguments and of the
/// return type are at the position of the function.
pub open spec fn function_converted(
    f: AbstractFunction,
    r: Result<Function, PositionalError<ConversionError>>,
) -> bool {
    match r {
        Ok(g) => {
            &&& g.name == f.name
            &&& g.pos == f.pos
            &&& g.args@.len() == f.args@.len()
            &&& forall|i: int|
                0 <= i < f.args@.len() ==> argument_converted(
                    #[trigger] f.args@[i],
                    Ok(g.args@[i]),
                )
            &&& g.instrs@.len() == f.instrs@.len()
            &&& forall|i: int|
                0 <= i < f.instrs@.len() ==> code_converted(
                    #[trigger] f.instrs@[i],
                    Ok(g.instrs@[i]),
                )
            &&& match f.return_type {
                None => g.return_type is None,
                Some(t) => g.return_type is Some && typed(t, Ok(g.return_type->Some_0)),
            }
        },
        Err(e) => {
            ||| exists|i: int| 0 <= i < f.args@.len() && #[trigger] first_bad_argument(f, i, e)
            ||| arguments_convert(f, f.args@.len() as int) && exists|i: int|
                0 <= i < f.instrs@.len() && #[trigger] first_bad_code(f, i, e)
            ||| (arguments_convert(f, f.args@.len() as int) && codes_convert(
                f,
                f.instrs@.len() as int,
            ) && f.return_type is Some && e.pos == f.pos && typed(
                f.return_type->Some_0,
                Err(e.e),
            ))
        },
    }
}

/// Whether the argument `a` stands for an argument.
pub open spec fn argument_converts(a: AbstractArgument) -> bool {
    exists|r: Argument| argument_converted(a, Ok(r))
}

/// Whether the label or instruction `c` stands for one.
pub open spec fn code_converts(c: AbstractCode) -> bool {
    exists|r: Code| code_converted(c, Ok(r))
}

/// Whether each of the first `n` arguments of `f` stands for an argument.
pub open spec fn arguments_convert(f: AbstractFunction, n: int) -> bool {
    forall|j: int| 0 <= j < n ==> argument_converts(#[trigger] f.args@[j])
}

/// Whether each of the first `n` entries of the body of `f` stands for a
/// label or an instruction.
pub open spec fn codes_convert(f: AbstractFunction, n: int) -> bool {
    forall|j: int| 0 <= j < n ==> code_converts(#[trigger] f.instrs@[j])
}

/// Whether argument `i` of `f` is the first that fails to convert, with the
/// error `e` at the position of the function.
pub open spec fn first_bad_argument(
    f: AbstractFunction,
    i: int,
    e: PositionalError<ConversionError>,
) -> bool {
    &&& e.pos == f.pos
    &&& argument_converted(f.args@[i], Err(e.e))
    &&& arguments_convert(f, i)
}

/// Whether entry `i` of the body of `f` is the first that fails to convert,
/// with the error `e`.
pub open spec fn first_bad_code(
    f: AbstractFunction,
    i: int,
    e: PositionalError<ConversionError>,
) -> bool {
    &&& code_converted(f.instrs@[i], Err(e))
    &&& codes_convert(f, i)
}

impl Function {
    /// The function that `f` stands for: see [`function_converted`].
    #[verifier::loop_isolation(false)]
    pub fn try_from(f: &AbstractFunction) -> (r: Result<Function, PositionalError<ConversionError>>)
        ensures
            function_converted(*f, r),
    {
        let mut args: Vec<Argument> = Vec::new();
        let mut i: usize = 0;
        while i < f.args.len()
            invariant
                i <= f.args.len(),
                args@.len() == i,
                forall|j: int|
                    0 <= j < i ==> argument_converted(#[trigger] f.args@[j], Ok(args@[j])),
            decreases f.args.len() - i,
        {
            match Argument::try_from(&f.args[i]) {
                Ok(a) => {
                    args.push(a);
                },
                Err(e) => {
                    let err = PositionalError { e, pos: f.pos };
                    proof {
                        assert forall|j: int| 0 <= j < i implies argument_converts(
                            #[trigger] f.args@[j],
                        ) by {
                            assert(argument_converted(f.args@[j], Ok(args@[j])));
                        }
                        assert(first_bad_argument(*f, i as int, err));
                    }
                    return Err(err);
                },
            }
            i = i + 1;
        }
        proof {
            assert forall|j: int| 0 <= j < f.args@.len() implies argument_converts(
                #[trigger] f.args@[j],
            ) by {
                assert(argument_converted(f.args@[j], Ok(args@[j])));
            }
        }
        let mut instrs: Vec<Code> = Vec::new();
        let mut k: usize = 0;
        while k < f.instrs.len()
            invariant
                k <= f.instrs.len(),
                instrs@.len() == k,
                forall|j: int|
                    0 <= j < k ==> code_converted(#[trigger] f.instrs@[j], Ok(instrs@[j])),
            decreases f.instrs.len() - k,
        {
            match Code::try_from(&f.instrs[k]) {
                Ok(c) => {
                    instrs.push(c);
                },
                Err(e) => {
                    proof {
                        assert forall|j: int| 0 <= j < k implies code_converts(
                            #[trigger] f.instrs@[j],
                        ) by {
                            assert(code_converted(f.instrs@[j], Ok(instrs@[j])));
                        }
                        assert(first_bad_code(*f, k as int, e));
                    }
                    return Err(e);
                },
            }
            k = k + 1;
        }
        proof {
            assert forall|j: int| 0 <= j < f.instrs@.len() implies code_converts(
                #[trigger] f.instrs@[j],
            ) by {
                assert(code_converted(f.instrs@[j], Ok(instrs@[j])));
            }
        }
        let return_type = match &f.return_type {
            None => None,
            Some(t) => match Type::try_from(t) {
                Ok(ty) => Some(ty),
                Err(e) => {
                    return Err(PositionalError { e, pos: f.pos });
                },
            },
        };
        Ok(Function { name: f.name.clone(), args, return_type, instrs, pos: f.pos })
    }
}

/// Whether `r` is what the program `p` stands for: the same imports, and
/// every function converted; the error is that of the first function that
/// fails.
pub open spec fn program_converted(
    p: AbstractProgram,
    r: Result<Program, PositionalError<ConversionError>>,
) -> bool {
    match r {
        Ok(q) => {
            &&& q.imports@ == p.imports@
            &&& q.functions@.len() == p.functions@.len()
            &&& forall|i: int|
                0 <= i < p.functions@.len() ==> function_converted(
                    #[trigger] p.functions@[i],
                    Ok(q.functions@[i]),
                )
        },
        Err(e) => exists|i: int| 0 <= i < p.functions@.len() && #[trigger] first_failure(p, i, e),
    }
}

/// Whether function `i` of `p` is the first that fails to convert, with the
/// error `e`.
pub open spec fn first_failure(
    p: AbstractProgram,
    i: int,
    e: PositionalError<ConversionError>,
) -> bool {
    &&& function_converted(p.functions@[i], Err(e))
    &&& forall|j: int| 0 <= j < i ==> function_converts(#[trigger] p.functions@[j])
}

/// Whether the function `f` stands for a function.
pub open spec fn function_converts(f: AbstractFunction) -> bool {
    exists|g: Function| function_converted(f, Ok(g))
}

impl Program {
    /// The program that `p` stands for: see [`program_converted`].
    pub fn try_from(p: AbstractProgram) -> (r: Result<Program, PositionalError<ConversionError>>)
        ensures
            program_converted(p, r),
    {
        let mut functions: Vec<Function> = Vec::new();
        let mut i: usize = 0;
        while i < p.functions.len()
            invariant
                i <= p.functions.len(),
                functions@.len() == i,
                forall|j: int|
                    0 <= j < i ==> function_converted(
                        #[trigger] p.functions@[j],
                        Ok(functions@[j]),
                    ),
            decreases p.functions.len() - i,
        {
            match Function::try_from(&p.functions[i]) {
                Ok(f) => {
                    functions.push(f);
                },
                Err(e) => {
                    proof {
                        assert forall|j: int| 0 <= j < i implies function_converts(
                            #[trigger] p.functions@[j],
                        ) by {
                            assert(function_converted(p.functions@[j], Ok(functions@[j])));
                        }
                        assert(first_failure(p, i as int, e));
                    }
                    return Err(e);
                },
            }
            i = i + 1;
        }
        let AbstractProgram { imports, functions: _ } = p;
        Ok(Program { imports, functions })
    }
}

} // verus!
