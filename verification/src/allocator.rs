use vstd::prelude::*;
use crate::error::InterpError;

verus! {

/// A pointer into the heap: an allocation id and a signed offset within it.
#[derive(Clone, Copy, Debug, PartialEq, Eq, Structural)]
pub struct Pointer {
    /// The allocation the pointer refers to.
    pub base: usize,
    /// The distance from the start of the allocation, in cells.
    pub offset: i64,
}

/// A runtime value, over the pointers `P` of a heap. A floating point value is
/// held as its IEEE 754 bit pattern.
#[derive(Clone, Copy, Debug, PartialEq, Eq)]
pub enum Value<P> {
    /// An integer.
    Int(i64),
    /// A boolean.
    Bool(bool),
    /// The bit pattern of a floating point number.
    Float(u64),
    /// A character.
    Char(char),
    /// A pointer into the heap.
    Pointer(P),
    /// The content of a stack slot or heap cell that was never written.
    Uninitialized,
}

impl<P> Default for Value<P> {
    fn default() -> (r: Self)
        ensures
            r == Value::<P>::Uninitialized,
    {
        Value::Uninitialized
    }
}

/// A buffer of `n` slots or cells that were never written.
pub fn uninitialized<P>(n: usize) -> (r: Vec<Value<P>>)
    ensures
        r@.len() == n,
        forall|i: int| 0 <= i < n ==> r@[i] == Value::<P>::Uninitialized,
{
    let mut slots: Vec<Value<P>> = Vec::new();
    let mut i: usize = 0;
    while i < n
        invariant
            i <= n,
            slots@.len() == i,
            forall|j: int| 0 <= j < i ==> slots@[j] == Value::<P>::Uninitialized,
        decreases n - i,
    {
        slots.push(Value::Uninitialized);
        i = i + 1;
    }
    slots
}

/// What a pointer representation has to offer: a pointer names an allocation
/// and a signed offset within it, there is a pointer for every pair of the
/// two, and pointers can be moved.
pub trait BrilPointer: Sized + Copy {
    /// The allocation the pointer refers to.
    spec fn spec_base(&self) -> usize;

    /// The distance from the start of the allocation, in cells.
    spec fn spec_offset(&self) -> i64;

    /// The pointer to cell `offset` of the allocation `base`.
    spec fn spec_new(base: usize, offset: i64) -> Self;

    /// The pointer `offset` cells further on.
    spec fn spec_add(&self, offset: i64) -> Self;

    /// A pointer made of a base and an offset has that base and that offset.
    proof fn lemma_new(base: usize, offset: i64)
        ensures
            Self::spec_new(base, offset).spec_base() == base,
            Self::spec_new(base, offset).spec_offset() == offset,
    ;

    /// A pointer that is moved stays in its allocation; its offset wraps
    /// around.
    proof fn lemma_add(&self, offset: i64)
        ensures
            self.spec_add(offset).spec_base() == self.spec_base(),
            self.spec_add(offset).spec_offset() == self.spec_offset().wrapping_add(offset),
    ;

    /// The pointer to cell `offset` of the allocation `base`.
    fn new(base: usize, offset: i64) -> (r: Self)
        ensures
            r == Self::spec_new(base, offset),
    ;

    /// The allocation the pointer refers to.
    fn base(&self) -> (b: usize)
        ensures
            b == self.spec_base(),
    ;

    /// The distance from the start of the allocation, in cells.
    fn offset(&self) -> (o: i64)
        ensures
            o == self.spec_offset(),
    ;

    /// A new pointer into the same allocation, `offset` cells further on. No
    /// bounds are checked here: a pointer out of range is only refused when
    /// it is read or written through.
    fn add(&self, offset: i64) -> (r: Self)
        ensures
            r == self.spec_add(offset),
    ;
}

impl BrilPointer for Pointer {
    open spec fn spec_base(&self) -> usize {
        self.base
    }

    open spec fn spec_offset(&self) -> i64 {
        self.offset
    }

    open spec fn spec_new(base: usize, offset: i64) -> Self {
        Pointer { base, offset }
    }

    open spec fn spec_add(&self, offset: i64) -> Self {
        Pointer { base: self.base, offset: self.offset.wrapping_add(offset) }
    }

    proof fn lemma_new(base: usize, offset: i64) {
    }

    proof fn lemma_add(&self, offset: i64) {
    }

    fn new(base: usize, offset: i64) -> (r: Self) {
        Pointer { base, offset }
    }

    fn base(&self) -> (b: usize) {
        self.base
    }

    fn offset(&self) -> (o: i64) {
        self.offset
    }

    fn add(&self, offset: i64) -> (r: Self) {
        Pointer { base: self.base, offset: self.offset.wrapping_add(offset) }
    }
}

/// The abstract state of a heap: the live allocations and the next fresh id.
pub struct HeapModel<P> {
    /// The cells of each live allocation.
    pub cells: Map<usize, Seq<Value<P>>>,
    /// The id that the next allocation gets. Ids below it are never handed out again.
    pub next_base: usize,
}

/// One state-changing heap operation.
pub enum HeapOp<P> {
    /// Allocate this many cells.
    Alloc(i64),
    /// Free the allocation a pointer refers to.
    Free(P),
    /// Store a value through a pointer.
    Write(P, Value<P>),
}

impl<P: BrilPointer> HeapModel<P> {
    /// The heap before anything was allocated.
    pub open spec fn empty() -> HeapModel<P> {
        HeapModel { cells: Map::empty(), next_base: 0 }
    }

    /// Every live allocation has an id below the next fresh one.
    pub open spec fn wf(self) -> bool {
        forall|b: usize| #[trigger] self.cells.contains_key(b) ==> b < self.next_base
    }

    /// No allocation is live.
    pub open spec fn is_empty(self) -> bool {
        forall|b: usize| !#[trigger] self.cells.contains_key(b)
    }

    /// Whether `p` points at a cell of a live allocation.
    pub open spec fn in_bounds(self, p: P) -> bool {
        self.cells.contains_key(p.spec_base()) && 0 <= p.spec_offset() < self.cells[p.spec_base()].len()
    }

    /// Whether a request for `amount` cells can be granted.
    pub open spec fn can_alloc(self, amount: i64) -> bool {
        0 <= amount <= usize::MAX && self.next_base < usize::MAX
    }

    /// The heap after a request for `amount` cells.
    pub open spec fn after_alloc(self, amount: i64) -> HeapModel<P> {
        if self.can_alloc(amount) {
            HeapModel {
                cells: self.cells.insert(
                    self.next_base,
                    Seq::new(amount as nat, |i: int| Value::Uninitialized),
                ),
                next_base: (self.next_base + 1) as usize,
            }
        } else {
            self
        }
    }

    /// What a request for `amount` cells returns: a pointer to the start of a
    /// fresh allocation, or `CannotAllocSize`.
    pub open spec fn alloc_result(self, amount: i64) -> Result<Value<P>, InterpError> {
        if self.can_alloc(amount) {
            Ok(Value::Pointer(P::spec_new(self.next_base, 0)))
        } else {
            Err(InterpError::CannotAllocSize(amount))
        }
    }

    /// The heap after a free through `p`: without the allocation `p` points
    /// to if the free is legal, and as it was if it is not.
    pub open spec fn after_free(self, p: P) -> HeapModel<P> {
        if self.free_result(p) is Ok {
            HeapModel { cells: self.cells.remove(p.spec_base()), next_base: self.next_base }
        } else {
            self
        }
    }

    /// What a free through `p` returns: success exactly for a pointer to the
    /// start of a live allocation.
    pub open spec fn free_result(self, p: P) -> Result<(), InterpError> {
        if self.cells.contains_key(p.spec_base()) && p.spec_offset() == 0 {
            Ok(())
        } else {
            Err(InterpError::IllegalFree(p.spec_base(), p.spec_offset()))
        }
    }

    /// The heap after a store of `v` through `p`.
    pub open spec fn after_write(self, p: P, v: Value<P>) -> HeapModel<P> {
        if self.in_bounds(p) {
            HeapModel {
                cells: self.cells.insert(
                    p.spec_base(),
                    self.cells[p.spec_base()].update(p.spec_offset() as int, v),
                ),
                next_base: self.next_base,
            }
        } else {
            self
        }
    }

    /// What a store through `p` returns.
    pub open spec fn write_result(self, p: P) -> Result<(), InterpError> {
        if self.in_bounds(p) {
            Ok(())
        } else {
            Err(InterpError::InvalidMemoryAccess(p.spec_base(), p.spec_offset()))
        }
    }

    /// What a load through `p` returns.
    pub open spec fn read_result(self, p: P) -> Result<Value<P>, InterpError> {
        if !self.in_bounds(p) {
            Err(InterpError::InvalidMemoryAccess(p.spec_base(), p.spec_offset()))
        } else if self.cells[p.spec_base()][p.spec_offset() as int] == Value::<P>::Uninitialized {
            Err(InterpError::UsingUninitializedMemory)
        } else {
            Ok(self.cells[p.spec_base()][p.spec_offset() as int])
        }
    }

    /// The heap after one operation.
    pub open spec fn after(self, op: HeapOp<P>) -> HeapModel<P> {
        match op {
            HeapOp::Alloc(amount) => self.after_alloc(amount),
            HeapOp::Free(p) => self.after_free(p),
            HeapOp::Write(p, v) => self.after_write(p, v),
        }
    }

    /// The heap after a sequence of operations, the first one first.
    pub open spec fn after_all(self, ops: Seq<HeapOp<P>>) -> HeapModel<P>
        decreases ops.len(),
    {
        if ops.len() == 0 {
            self
        } else {
            self.after(ops[0]).after_all(ops.drop_first())
        }
    }

    /// The id `base` was handed out once and its allocation is gone.
    pub open spec fn retired(self, base: usize) -> bool {
        base < self.next_base && !self.cells.contains_key(base)
    }
}

impl<P: BrilPointer> HeapOp<P> {
    /// Whether the operation stores into or frees the allocation `base`.
    pub open spec fn touches(self, base: usize) -> bool {
        match self {
            HeapOp::Alloc(_) => false,
            HeapOp::Free(p) => p.spec_base() == base,
            HeapOp::Write(p, _) => p.spec_base() == base,
        }
    }
}

/// Every operation keeps a well-formed heap well-formed.
pub proof fn lemma_op_keeps_wf<P: BrilPointer>(h: HeapModel<P>, op: HeapOp<P>)
    requires
        h.wf(),
    ensures
        h.after(op).wf(),
{
}

/// A retired id stays retired whatever is done to the heap.
pub proof fn lemma_retired_forever<P: BrilPointer>(
    h: HeapModel<P>,
    base: usize,
    ops: Seq<HeapOp<P>>,
)
    requires
        h.retired(base),
    ensures
        h.after_all(ops).retired(base),
    decreases ops.len(),
{
    if ops.len() > 0 {
        lemma_retired_forever(h.after(ops[0]), base, ops.drop_first());
    }
}

/// Whatever is done to a well-formed heap, it stays well-formed and the next
/// fresh id never falls.
pub proof fn lemma_next_base_never_falls<P: BrilPointer>(h: HeapModel<P>, ops: Seq<HeapOp<P>>)
    requires
        h.wf(),
    ensures
        h.after_all(ops).wf(),
        h.after_all(ops).next_base >= h.next_base,
    decreases ops.len(),
{
    if ops.len() > 0 {
        lemma_op_keeps_wf(h, ops[0]);
        lemma_next_base_never_falls(h.after(ops[0]), ops.drop_first());
    }
}

/// Every allocation gets an id that no allocation before it had, freed or
/// not: an allocation that is granted returns a pointer at offset zero to the
/// next fresh id, and whatever is done to the heap in between, a later
/// allocation that is granted returns a greater id.
pub proof fn lemma_allocation_ids_are_fresh<P: BrilPointer>(
    h: HeapModel<P>,
    first: i64,
    ops: Seq<HeapOp<P>>,
    second: i64,
)
    requires
        h.wf(),
        h.can_alloc(first),
        h.after_alloc(first).after_all(ops).can_alloc(second),
    ensures
        h.alloc_result(first) == Ok::<Value<P>, InterpError>(
            Value::Pointer(P::spec_new(h.next_base, 0)),
        ),
        h.after_alloc(first).after_all(ops).alloc_result(second) == Ok::<Value<P>, InterpError>(
            Value::Pointer(P::spec_new(h.after_alloc(first).after_all(ops).next_base, 0)),
        ),
        h.after_alloc(first).after_all(ops).next_base > h.next_base,
        !h.cells.contains_key(h.next_base),
        !h.after_alloc(first).after_all(ops).cells.contains_key(
            h.after_alloc(first).after_all(ops).next_base,
        ),
{
    lemma_op_keeps_wf(h, HeapOp::Alloc(first));
    lemma_next_base_never_falls(h.after_alloc(first), ops);
}

/// A fresh allocation reads as uninitialized at every index until it is
/// written to: after a successful request for `n` cells and any operations
/// that neither store into nor free the new allocation, a load at any index
/// `0 <= i < n` fails with `UsingUninitializedMemory`.
pub proof fn lemma_fresh_cells_are_uninitialized<P: BrilPointer>(
    h: HeapModel<P>,
    n: i64,
    ops: Seq<HeapOp<P>>,
    i: i64,
)
    requires
        h.wf(),
        h.can_alloc(n),
        0 <= i < n,
        forall|k: int| 0 <= k < ops.len() ==> !(#[trigger] ops[k]).touches(h.next_base),
    ensures
        h.after_alloc(n).after_all(ops).read_result(P::spec_new(h.next_base, i))
            == Err::<Value<P>, InterpError>(InterpError::UsingUninitializedMemory),
{
    let base = h.next_base;
    let h1 = h.after_alloc(n);
    P::lemma_new(base, i);
    lemma_untouched_allocation_is_kept(h1, base, ops);
}

/// Operations that neither store into nor free the allocation `base` leave its
/// cells as they are.
pub proof fn lemma_untouched_allocation_is_kept<P: BrilPointer>(
    h: HeapModel<P>,
    base: usize,
    ops: Seq<HeapOp<P>>,
)
    requires
        h.cells.contains_key(base),
        base < h.next_base,
        forall|k: int| 0 <= k < ops.len() ==> !(#[trigger] ops[k]).touches(base),
    ensures
        h.after_all(ops).cells.contains_key(base),
        h.after_all(ops).cells[base] == h.cells[base],
    decreases ops.len(),
{
    if ops.len() > 0 {
        let rest = ops.drop_first();
        assert(!ops[0].touches(base));
        assert forall|k: int| 0 <= k < rest.len() implies !(#[trigger] rest[k]).touches(base) by {
            assert(rest[k] == ops[k + 1]);
        }
        lemma_untouched_allocation_is_kept(h.after(ops[0]), base, rest);
    }
}

/// A free through a pointer with a nonzero offset fails with `IllegalFree`,
/// whether or not the allocation it points into is live.
pub proof fn lemma_free_needs_offset_zero<P: BrilPointer>(h: HeapModel<P>, p: P)
    requires
        p.spec_offset() != 0,
    ensures
        h.free_result(p) == Err::<(), InterpError>(
            InterpError::IllegalFree(p.spec_base(), p.spec_offset()),
        ),
{
}

/// A free that fails changes nothing: the heap is as it was, and the
/// allocation that the pointer points into, if there is one, stays live with
/// all its cells.
pub proof fn lemma_failed_free_changes_nothing<P: BrilPointer>(h: HeapModel<P>, p: P)
    requires
        h.free_result(p) is Err,
    ensures
        h.after_free(p) == h,
{
}

/// Ids are never reused: once an allocation has been freed through `p`,
/// whatever is done to the heap afterwards, every load and store through a
/// pointer with `p`'s id fails with `InvalidMemoryAccess` and every free with
/// `IllegalFree`.
pub proof fn lemma_use_after_free_fails<P: BrilPointer>(
    h: HeapModel<P>,
    p: P,
    ops: Seq<HeapOp<P>>,
    q: P,
)
    requires
        h.wf(),
        h.free_result(p) is Ok,
        q.spec_base() == p.spec_base(),
    ensures
        ({
            let later = h.after_free(p).after_all(ops);
            &&& later.read_result(q) == Err::<Value<P>, InterpError>(
                InterpError::InvalidMemoryAccess(q.spec_base(), q.spec_offset()),
            )
            &&& later.write_result(q) == Err::<(), InterpError>(
                InterpError::InvalidMemoryAccess(q.spec_base(), q.spec_offset()),
            )
            &&& later.free_result(q) == Err::<(), InterpError>(
                InterpError::IllegalFree(q.spec_base(), q.spec_offset()),
            )
        }),
{
    lemma_retired_forever(h.after_free(p), p.spec_base(), ops);
}

/// A heap for the memory instructions. Every implementation behaves as
/// [`HeapModel<P>`] says; how it stores the cells is its own business.
pub trait BrilAllocator<P: BrilPointer>: Sized {
    /// The abstract state of the heap.
    spec fn model(&self) -> HeapModel<P>;

    /// What the implementation needs to hold of itself between calls.
    spec fn inv(&self) -> bool;

    /// The invariant includes that live ids lie below the next fresh id.
    proof fn lemma_inv_wf(&self)
        requires
            self.inv(),
        ensures
            self.model().wf(),
    ;

    /// Whether no allocation is live.
    fn is_empty(&self) -> (b: bool)
        requires
            self.inv(),
        ensures
            b == self.model().is_empty(),
    ;

    /// Reserves a fresh allocation of `amount` uninitialized cells and returns a
    /// pointer to its start; fails with `CannotAllocSize` for a negative or
    /// unrepresentable amount.
    fn allocate(&mut self, amount: i64) -> (r: Result<Value<P>, InterpError>)
        requires
            old(self).inv(),
        ensures
            final(self).inv(),
            final(self).model() == old(self).model().after_alloc(amount),
            r == old(self).model().alloc_result(amount),
    ;

    /// Frees the allocation `key` points to; fails with `IllegalFree`, and
    /// changes nothing, unless `key` points to the start of a live
    /// allocation.
    fn free(&mut self, key: &P) -> (r: Result<(), InterpError>)
        requires
            old(self).inv(),
        ensures
            final(self).inv(),
            final(self).model() == old(self).model().after_free(*key),
            r == old(self).model().free_result(*key),
    ;

    /// Stores `val` in the cell `key` points to; fails with
    /// `InvalidMemoryAccess` if there is no such cell.
    fn write(&mut self, key: &P, val: Value<P>) -> (r: Result<(), InterpError>)
        requires
            old(self).inv(),
        ensures
            final(self).inv(),
            final(self).model() == old(self).model().after_write(*key, val),
            r == old(self).model().write_result(*key),
    ;

    /// The value in the cell `key` points to; fails with `InvalidMemoryAccess`
    /// if there is no such cell and with `UsingUninitializedMemory` if nothing
    /// was ever stored in it.
    fn read(&self, key: &P) -> (r: Result<&Value<P>, InterpError>)
        requires
            self.inv(),
        ensures
            match r {
                Ok(v) => self.model().read_result(*key) == Ok::<Value<P>, InterpError>(*v),
                Err(e) => self.model().read_result(*key) == Err::<Value<P>, InterpError>(e),
            },
    ;
}

} // verus!
