use vstd::prelude::*;
use crate::program::{Type, ValueOps};

verus! {

/// The types of what an operation takes and of what it gives.
pub struct TypeSignature {
    /// The types of the operands, in order.
    pub inputs: Vec<Type>,
    /// The types of the results.
    pub outputs: Vec<Type>,
}

/// Whether the operands and the result of `op` have types of their own,
/// whatever the instruction: not so for calls, copies, `phi` and the memory
/// operations.
pub open spec fn has_signature(op: ValueOps) -> bool {
    op != ValueOps::Call && op != ValueOps::Id && op != ValueOps::Phi && op != ValueOps::Alloc && op
        != ValueOps::Load && op != ValueOps::PtrAdd
}

/// The types of the operands of `op`.
pub open spec fn input_types(op: ValueOps) -> Seq<Type> {
    match op {
        ValueOps::Add | ValueOps::Sub | ValueOps::Mul | ValueOps::Div | ValueOps::Eq | ValueOps::Lt
        | ValueOps::Gt | ValueOps::Le | ValueOps::Ge => seq![Type::Int, Type::Int],
        ValueOps::Not => seq![Type::Bool],
        ValueOps::And | ValueOps::Or => seq![Type::Bool, Type::Bool],
        ValueOps::Fadd | ValueOps::Fsub | ValueOps::Fmul | ValueOps::Fdiv | ValueOps::Feq
        | ValueOps::Flt | ValueOps::Fgt | ValueOps::Fle | ValueOps::Fge => seq![
            Type::Float,
            Type::Float,
        ],
        ValueOps::Ceq | ValueOps::Clt | ValueOps::Cgt | ValueOps::Cle | ValueOps::Cge => seq![
            Type::Char,
            Type::Char,
        ],
        ValueOps::Char2int => seq![Type::Char],
        ValueOps::Int2char => seq![Type::Int],
        _ => Seq::empty(),
    }
}

/// The type of the result of `op`.
pub open spec fn output_type(op: ValueOps) -> Type {
    match op {
        ValueOps::Add | ValueOps::Sub | ValueOps::Mul | ValueOps::Div | ValueOps::Char2int => Type::Int,
        ValueOps::Fadd | ValueOps::Fsub | ValueOps::Fmul | ValueOps::Fdiv => Type::Float,
        ValueOps::Int2char => Type::Char,
        _ => Type::Bool,
    }
}

impl TypeSignature {
    /// The signature of `v`: arithmetic takes and gives numbers, comparisons
    /// take two of a kind and give a boolean, the connectives take and give
    /// booleans.
    pub fn from(v: ValueOps) -> (r: Self)
        requires
            has_signature(v),
        ensures
            r.inputs@ == input_types(v),
            r.outputs@ == seq![output_type(v)],
    {
        let mut inputs: Vec<Type> = Vec::new();
        let mut outputs: Vec<Type> = Vec::new();
        match v {
            ValueOps::Add | ValueOps::Sub | ValueOps::Mul | ValueOps::Div => {
                inputs.push(Type::Int);
                inputs.push(Type::Int);
                outputs.push(Type::Int);
            },
            ValueOps::Eq | ValueOps::Lt | ValueOps::Gt | ValueOps::Le | ValueOps::Ge => {
                inputs.push(Type::Int);
                inputs.push(Type::Int);
                outputs.push(Type::Bool);
            },
            ValueOps::Not => {
                inputs.push(Type::Bool);
                outputs.push(Type::Bool);
            },
            ValueOps::And | ValueOps::Or => {
                inputs.push(Type::Bool);
                inputs.push(Type::Bool);
                outputs.push(Type::Bool);
            },
            ValueOps::Fadd | ValueOps::Fsub | ValueOps::Fmul | ValueOps::Fdiv => {
                inputs.push(Type::Float);
                inputs.push(Type::Float);
                outputs.push(Type::Float);
            },
            ValueOps::Feq | ValueOps::Flt | ValueOps::Fgt | ValueOps::Fle | ValueOps::Fge => {
                inputs.push(Type::Float);
                inputs.push(Type::Float);
                outputs.push(Type::Bool);
            },
            ValueOps::Ceq | ValueOps::Clt | ValueOps::Cgt | ValueOps::Cle | ValueOps::Cge => {
                inputs.push(Type::Char);
                inputs.push(Type::Char);
                outputs.push(Type::Bool);
            },
            ValueOps::Char2int => {
                inputs.push(Type::Char);
                outputs.push(Type::Int);
            },
            ValueOps::Int2char => {
                inputs.push(Type::Int);
                outputs.push(Type::Char);
            },
            _ => {
                outputs.push(Type::Bool);
            },
        }
        assert(inputs@ =~= input_types(v));
        assert(outputs@ =~= seq![output_type(v)]);
        TypeSignature { inputs, outputs }
    }
}

} // verus!
