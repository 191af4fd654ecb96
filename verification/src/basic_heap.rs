use vstd::prelude::*;
use fxhash::FxHashMap;
use crate::allocator::{uninitialized, BrilAllocator, HeapModel, Pointer, Value};
use crate::error::InterpError;

verus! {

/// The backing store of [`BasicHeap`]: a hash map from allocation ids to buffers.
pub type CellTable = FxHashMap<usize, Vec<Value<Pointer>>>;

/// What a [`CellTable`] holds: the buffer of each allocation id that is present.
pub uninterp spec fn table_cells(t: CellTable) -> Map<usize, Seq<Value<Pointer>>>;

/// The store without any allocation.
pub open spec fn no_cells() -> Map<usize, Seq<Value<Pointer>>> {
    Map::empty()
}

/// `HashMap::with_capacity_and_hasher`: a new map holds nothing.
#[verifier::external_body]
fn table_new() -> (table: CellTable)
    ensures
        table_cells(table) == no_cells(),
{
    FxHashMap::with_capacity_and_hasher(20, fxhash::FxBuildHasher::default())
}

/// `HashMap::is_empty`: whether the map holds no entry at all.
#[verifier::external_body]
fn table_is_empty(t: &CellTable) -> (b: bool)
    ensures
        b == (table_cells(*t) == no_cells()),
{
    t.is_empty()
}

/// `HashMap::insert`: afterwards the map holds `cells` under `base`, whatever it
/// held there before, and every other entry as it was.
#[verifier::external_body]
fn table_insert(t: &mut CellTable, base: usize, cells: Vec<Value<Pointer>>)
    ensures
        table_cells(*final(t)) == table_cells(*old(t)).insert(base, cells@),
{
    t.insert(base, cells);
}

/// `HashMap::remove`: takes the entry under `base` out of the map and returns
/// its buffer, or returns `None` and leaves the map alone if there is none.
#[verifier::external_body]
fn table_remove(t: &mut CellTable, base: usize) -> (r: Option<Vec<Value<Pointer>>>)
    ensures
        table_cells(*final(t)) == table_cells(*old(t)).remove(base),
        r.is_some() == table_cells(*old(t)).contains_key(base),
        r.is_some() ==> r.unwrap()@ == table_cells(*old(t))[base],
{
    t.remove(&base)
}

/// `HashMap::get`: the buffer under `base`, if there is one.
#[verifier::external_body]
fn table_get(t: &CellTable, base: usize) -> (r: Option<&Vec<Value<Pointer>>>)
    ensures
        r.is_some() == table_cells(*t).contains_key(base),
        r.is_some() ==> r.unwrap()@ == table_cells(*t)[base],
{
    t.get(&base)
}

/// `HashMap::get_mut`: a mutable reference to the buffer under `base`, if there
/// is one. What the buffer holds when the reference is given up is what the map
/// holds under `base` from then on; no other entry changes.
#[verifier::external_body]
fn table_get_mut(t: &mut CellTable, base: usize) -> (r: Option<&mut Vec<Value<Pointer>>>)
    ensures
        match r {
            Some(v) => table_cells(*old(t)).contains_key(base) && v@ == table_cells(*old(t))[base]
                && table_cells(*final(t)) == table_cells(*old(t)).insert(base, final(v)@),
            None => !table_cells(*old(t)).contains_key(base) && table_cells(*final(t))
                == table_cells(*old(t)),
        },
{
    t.get_mut(&base)
}

/// A heap kept in a hash map from allocation ids to buffers of cells. Ids are
/// handed out in increasing order and never reused.
pub struct BasicHeap {
    memory: CellTable,
    base_num_counter: usize,
}

impl BasicHeap {
    /// The abstract state of this heap.
    pub closed spec fn spec_model(&self) -> HeapModel<Pointer> {
        HeapModel { cells: table_cells(self.memory), next_base: self.base_num_counter }
    }
}

impl Default for BasicHeap {
    fn default() -> (r: Self)
        ensures
            r.inv(),
            r.model() == HeapModel::<Pointer>::empty(),
    {
        let r = BasicHeap { memory: table_new(), base_num_counter: 0 };
        assert(r.model().cells =~= HeapModel::<Pointer>::empty().cells);
        r
    }
}

impl BrilAllocator<Pointer> for BasicHeap {
    open spec fn model(&self) -> HeapModel<Pointer> {
        self.spec_model()
    }

    open spec fn inv(&self) -> bool {
        self.model().wf()
    }

    proof fn lemma_inv_wf(&self) {
    }

    fn is_empty(&self) -> (b: bool) {
        let b = table_is_empty(&self.memory);
        proof {
            if self.model().is_empty() {
                assert forall|k: usize| !table_cells(self.memory).dom().contains(k) by {
                    assert(!self.model().cells.contains_key(k));
                }
                assert(table_cells(self.memory) =~= no_cells());
            }
        }
        b
    }

    fn allocate(&mut self, amount: i64) -> (r: Result<Value<Pointer>, InterpError>) {
        if amount < 0 || amount as u64 > usize::MAX as u64 || self.base_num_counter == usize::MAX {
            return Err(InterpError::CannotAllocSize(amount));
        }
        let size = amount as usize;
        let base = self.base_num_counter;
        self.base_num_counter = base + 1;
        let cells = uninitialized(size);
        assert(cells@ =~= Seq::new(amount as nat, |i: int| Value::Uninitialized));
        table_insert(&mut self.memory, base, cells);
        proof {
            let expected = old(self).model().after_alloc(amount);
            assert(self.model().cells =~= expected.cells);
            assert forall|b: usize| #[trigger]
                self.model().cells.contains_key(b) implies b < self.model().next_base by {
                if b != base {
                    assert(old(self).model().cells.contains_key(b));
                }
            }
        }
        Ok(Value::Pointer(Pointer { base, offset: 0 }))
    }

    fn free(&mut self, key: &Pointer) -> (r: Result<(), InterpError>) {
        if key.offset != 0 {
            return Err(InterpError::IllegalFree(key.base, key.offset));
        }
        let removed = table_remove(&mut self.memory, key.base);
        proof {
            assert forall|b: usize| #[trigger]
                self.model().cells.contains_key(b) implies b < self.model().next_base by {
                assert(old(self).model().cells.contains_key(b));
            }
            if removed is None {
                assert(self.model().cells =~= old(self).model().cells);
            }
        }
        if removed.is_some() {
            Ok(())
        } else {
            Err(InterpError::IllegalFree(key.base, key.offset))
        }
    }

    fn write(&mut self, key: &Pointer, val: Value<Pointer>) -> (r: Result<(), InterpError>) {
        let r = match table_get_mut(&mut self.memory, key.base) {
            Some(vec) => {
                if key.offset >= 0 && (key.offset as u64) < vec.len() as u64 {
                    vec[key.offset as usize] = val;
                    Ok(())
                } else {
                    Err(InterpError::InvalidMemoryAccess(key.base, key.offset))
                }
            },
            None => Err(InterpError::InvalidMemoryAccess(key.base, key.offset)),
        };
        proof {
            let expected = old(self).model().after_write(*key, val);
            assert(self.model().cells =~= expected.cells);
            assert forall|b: usize| #[trigger]
                self.model().cells.contains_key(b) implies b < self.model().next_base by {
                assert(old(self).model().cells.contains_key(b));
            }
        }
        r
    }

    fn read(&self, key: &Pointer) -> (r: Result<&Value<Pointer>, InterpError>) {
        match table_get(&self.memory, key.base) {
            Some(vec) => {
                if key.offset >= 0 && (key.offset as u64) < vec.len() as u64 {
                    let val = &vec[key.offset as usize];
                    match val {
                        Value::Uninitialized => Err(InterpError::UsingUninitializedMemory),
                        _ => Ok(val),
                    }
                } else {
                    Err(InterpError::InvalidMemoryAccess(key.base, key.offset))
                }
            },
            None => Err(InterpError::InvalidMemoryAccess(key.base, key.offset)),
        }
    }
}

} // verus!
