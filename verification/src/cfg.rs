use vstd::prelude::*;

verus! {

/// Where control goes after a block of a control flow graph.
#[derive(Clone, Copy, Debug, PartialEq, Eq, Structural)]
pub enum Successor {
    /// Nowhere: the function ends.
    End,
    /// Always to this block.
    Jump(u32),
    /// To one of two blocks, by a condition.
    Conditional {
        /// Where to if the condition holds.
        true_branch: u32,
        /// Where to if it does not.
        false_branch: u32,
    },
}

impl Successor {
    /// The blocks that may follow, the one for a true condition first.
    pub open spec fn targets(&self) -> Seq<u32> {
        match self {
            Successor::End => Seq::empty(),
            Successor::Jump(i) => seq![*i],
            Successor::Conditional { true_branch, false_branch } => seq![
                *true_branch,
                *false_branch,
            ],
        }
    }

    /// The blocks that may follow, the one for a true condition first.
    pub fn to_vec(&self) -> (r: Vec<u32>)
        ensures
            r@ == self.targets(),
    {
        let mut out: Vec<u32> = Vec::new();
        match self {
            Successor::End => {},
            Successor::Jump(i) => {
                out.push(*i);
            },
            Successor::Conditional { true_branch, false_branch } => {
                out.push(*true_branch);
                out.push(*false_branch);
            },
        }
        assert(out@ =~= self.targets());
        out
    }
}

} // verus!
