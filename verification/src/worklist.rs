use vstd::prelude::*;
use std::collections::HashMap;

verus! {

broadcast use vstd::std_specs::hash::group_hash_axioms;

/// What a data flow analysis knows at the entry and at the exit of each block
/// of a graph.
pub struct Constraints<B> {
    in_constraints: HashMap<u32, B>,
    out_constraints: HashMap<u32, B>,
}

impl<B> Constraints<B> {
    /// What is known at the entry of each block.
    pub closed spec fn ins(&self) -> Map<u32, B> {
        self.in_constraints@
    }

    /// What is known at the exit of each block.
    pub closed spec fn outs(&self) -> Map<u32, B> {
        self.out_constraints@
    }

    /// Constraints that know nothing of any block.
    pub fn new() -> (r: Self)
        ensures
            r.ins() == Map::<u32, B>::empty(),
            r.outs() == Map::<u32, B>::empty(),
    {
        Constraints { in_constraints: HashMap::new(), out_constraints: HashMap::new() }
    }

    /// What is known at the entry of `node`.
    pub fn get_in_const(&self, node: &u32) -> (r: &B)
        requires
            self.ins().contains_key(*node),
        ensures
            *r == self.ins()[*node],
    {
        match self.in_constraints.get(node) {
            Some(b) => b,
            None => vstd::pervasive::unreached(),
        }
    }

    /// Records `constraint` as what is known at the entry of `node`.
    pub fn set_in_const(&mut self, node: u32, constraint: B)
        ensures
            final(self).ins() == old(self).ins().insert(node, constraint),
            final(self).outs() == old(self).outs(),
    {
        self.in_constraints.insert(node, constraint);
    }

    /// What is known at the exit of `node`.
    pub fn get_out_const(&self, node: &u32) -> (r: &B)
        requires
            self.outs().contains_key(*node),
        ensures
            *r == self.outs()[*node],
    {
        match self.out_constraints.get(node) {
            Some(b) => b,
            None => vstd::pervasive::unreached(),
        }
    }

    /// Records `constraint` as what is known at the exit of `node`.
    pub fn set_out_const(&mut self, node: u32, constraint: B)
        ensures
            final(self).outs() == old(self).outs().insert(node, constraint),
            final(self).ins() == old(self).ins(),
    {
        self.out_constraints.insert(node, constraint);
    }
}

} // verus!
