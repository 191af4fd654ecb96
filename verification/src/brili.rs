use vstd::prelude::*;
use vstd::string::StringExecFns;
use crate::program::Type;
use crate::semantics::decimal;
use crate::text::append_usize;

verus! {

/// A pointer that knows the type of what it points to.
#[derive(Debug)]
pub struct Pointer {
    /// The allocation the pointer refers to.
    pub base: i32,
    /// The distance from the start of the allocation, in cells.
    pub offset: i64,
    /// The type of the cells.
    pub ptr_type: Type,
}

impl Pointer {
    /// The pointer `offset` cells further on, into the same allocation and
    /// of the same type.
    pub fn add(&self, offset: i64) -> (r: Pointer)
        ensures
            r.base == self.base,
            r.offset == self.offset.wrapping_add(offset),
            r.ptr_type == self.ptr_type,
    {
        Pointer {
            base: self.base,
            offset: self.offset.wrapping_add(offset),
            ptr_type: self.ptr_type.copy(),
        }
    }
}

/// The message of a failure with the place it happened at before it.
pub open spec fn located(func: Seq<char>, line: usize, msg: Seq<char>) -> Seq<char> {
    "Function "@ + func + ", Line "@ + decimal(line as int) + " : "@ + msg
}

/// Puts the function and the line in front of the message of a failure; a
/// success is handed on as it is.
pub fn meta_err_info<T>(func: &str, line: &usize, result: Result<T, String>) -> (r: Result<
    T,
    String,
>)
    ensures
        match result {
            Ok(v) => r == Ok::<T, String>(v),
            Err(msg) => r is Err && r->Err_0@ == located(func@, *line, msg@),
        },
{
    match result {
        Ok(v) => Ok(v),
        Err(msg) => {
            let mut text = String::from_str("Function ");
            text.append(func);
            text.append(", Line ");
            append_usize(&mut text, *line);
            text.append(" : ");
            text.append(msg.as_str());
            assert(text@ =~= located(func@, *line, msg@));
            Err(text)
        },
    }
}

} // verus!
