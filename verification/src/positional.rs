use vstd::prelude::*;
use vstd::std_specs::convert::FromSpec;

verus! {

/// A source position: a row and a column, both counted from one.
#[derive(Clone, Copy, Debug, PartialEq, Eq, Structural)]
pub struct Position {
    /// Column
    pub col: u64,
    /// Row
    pub row: u64,
}

/// An error together with the source position it was raised at, if one is known.
#[derive(Debug)]
pub struct PositionalError<E> {
    /// The error itself.
    pub e: E,
    /// Where it happened.
    pub pos: Option<Position>,
}

impl<E> PositionalError<E> {
    /// Attaches `pos` unless the error already carries a position: the innermost
    /// position wins as an error travels outwards.
    pub fn add_pos(self, pos: Option<Position>) -> (r: Self)
        ensures
            r.e == self.e,
            r.pos == (if self.pos.is_none() { pos } else { self.pos }),
    {
        match self.pos {
            None => PositionalError { e: self.e, pos },
            Some(_) => self,
        }
    }
}

impl<E> PositionalError<E> {
    /// The same error in a wider error type, at the same position; a success
    /// is handed on as it is.
    pub fn convert<T, E2: From<E>>(r: Result<T, Self>) -> (out: Result<T, PositionalError<E2>>)
        ensures
            match r {
                Ok(v) => out == Ok::<T, PositionalError<E2>>(v),
                Err(err) => out is Err && out->Err_0.pos == err.pos && (E2::obeys_from_spec()
                    ==> out->Err_0.e == E2::from_spec(err.e)),
            },
    {
        match r {
            Ok(v) => Ok(v),
            Err(err) => {
                let PositionalError { e, pos } = err;
                Err(PositionalError { e: E2::from(e), pos })
            },
        }
    }
}

/// For errors that can be given a position.
pub trait PositionalErrorTrait: Sized {
    /// The error at the position `pos`, if one is given.
    fn add_pos(self, pos: Option<Position>) -> (r: PositionalError<Self>)
        ensures
            r.e == self,
            r.pos == pos,
    {
        PositionalError { e: self, pos }
    }

    /// The error without a position.
    fn no_pos(self) -> (r: PositionalError<Self>)
        ensures
            r.e == self,
            r.pos is None,
    {
        PositionalError { e: self, pos: None }
    }
}

} // verus!
