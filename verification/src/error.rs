use vstd::prelude::*;
use vstd::std_specs::convert::FromSpecImpl;
use crate::check::CheckError;
use crate::conversion::ConversionError;
use crate::positional::PositionalErrorTrait;
use crate::program::Type;

verus! {

/// Everything that can go wrong while a program is prepared or run. Every one of
/// these ends the run.
#[derive(Debug)]
pub enum InterpError {
    /// An integer division by zero.
    DivisionByZero,
    /// Some allocations were still live when the program ended.
    MemLeak,
    /// A load from a cell that was never stored to.
    UsingUninitializedMemory,
    /// A `phi` ran before any labelled block had been left.
    NoLastLabel,
    /// An instruction names a label that its function does not define.
    MissingLabel(String),
    /// The program has no function called `main`.
    NoMainFunction,
    /// Two functions share a name.
    DuplicateFunction,
    /// Two labels of one function share a name.
    DuplicateLabel(String),
    /// A function without a return type returned a value.
    NonEmptyRetForFunc(String),
    /// A call expected a value and the callee returned none.
    NoRetValForFunc(String),
    /// An allocation of a negative or unrepresentable number of cells.
    CannotAllocSize(i64),
    /// A free of a pointer that is not the start of a live allocation: (base, offset).
    IllegalFree(usize, i64),
    /// A read or write outside a live allocation: (base, offset).
    InvalidMemoryAccess(usize, i64),
    /// A call or a program start with the wrong number of arguments: (expected, actual).
    BadNumFuncArgs(usize, usize),
    /// An instruction with the wrong number of variable operands: (expected, actual).
    BadNumArgs(usize, usize),
    /// An instruction with the wrong number of function operands: (expected, actual).
    BadNumFuncs(usize, usize),
    /// An instruction with the wrong number of label operands: (expected, actual).
    BadNumLabels(usize, usize),
    /// An instruction names a function that the program does not define.
    FuncNotFound(String),
    /// A variable was read before it was written.
    VarUndefined(String),
    /// A `phi` does not list the label of the block that control came from.
    PhiMissingLabel(String),
    /// A program argument that does not parse as the declared type: (expected, text).
    BadFuncArgType(Type, String),
    /// An operand does not hold the kind of value its instruction works on.
    BadValueType,
    /// An integer that is not the code point of any character.
    ToCharError(i64),
    /// A character argument that is not exactly one character.
    NotOneChar,
    /// A function has more variables than can be numbered.
    TooManyVariables,
    /// The stack cannot hold another frame.
    StackOverflow,
    /// The answer handed in for a floating point instruction does not fit it.
    BadFloatAnswer,
    /// The program as written is not a program.
    ConversionError(ConversionError),
    /// The program is not well-typed.
    CheckError(CheckError),
}

impl From<CheckError> for InterpError {
    fn from(e: CheckError) -> (r: Self)
        ensures
            r == InterpError::CheckError(e),
    {
        InterpError::CheckError(e)
    }
}

impl FromSpecImpl<CheckError> for InterpError {
    open spec fn obeys_from_spec() -> bool {
        true
    }

    open spec fn from_spec(e: CheckError) -> Self {
        InterpError::CheckError(e)
    }
}

impl From<ConversionError> for InterpError {
    fn from(e: ConversionError) -> (r: Self)
        ensures
            r == InterpError::ConversionError(e),
    {
        InterpError::ConversionError(e)
    }
}

impl FromSpecImpl<ConversionError> for InterpError {
    open spec fn obeys_from_spec() -> bool {
        true
    }

    open spec fn from_spec(e: ConversionError) -> Self {
        InterpError::ConversionError(e)
    }
}

impl PositionalErrorTrait for InterpError {

}

} // verus!
