use vstd::prelude::*;
use crate::allocator::{uninitialized, Value};

verus! {

/// The abstract state of an [`Environment`].
pub struct EnvModel<P> {
    /// Every slot of the stack, live or not.
    pub slots: Seq<Value<P>>,
    /// Where the current frame starts.
    pub current_pointer: usize,
    /// How many slots the current frame has.
    pub current_frame_size: usize,
    /// Start and size of each frame below the current one, the oldest first.
    pub stack_pointers: Seq<(usize, usize)>,
}

/// The smallest number of slots a new environment is given.
pub const MIN_STACK_SLOTS: usize = 50;

impl<P> EnvModel<P> {
    /// The current frame lies within the stack.
    pub open spec fn wf(self) -> bool {
        self.current_pointer + self.current_frame_size <= self.slots.len() <= usize::MAX
    }

    /// The environment for a first frame of `size` slots.
    pub open spec fn fresh(size: usize) -> EnvModel<P> {
        EnvModel {
            slots: Seq::new(
                (if size > MIN_STACK_SLOTS { size } else { MIN_STACK_SLOTS }) as nat,
                |i: int| Value::<P>::Uninitialized,
            ),
            current_pointer: 0,
            current_frame_size: size,
            stack_pointers: Seq::empty(),
        }
    }

    /// The value in slot `ident` of the current frame.
    pub open spec fn get(self, ident: usize) -> Value<P> {
        self.slots[self.current_pointer + ident]
    }

    /// The value in slot `ident` of the frame just below the current one.
    pub open spec fn get_from_last_frame(self, ident: usize) -> Value<P> {
        self.slots[self.stack_pointers.last().0 + ident]
    }

    /// The environment with `val` in slot `ident` of the current frame.
    pub open spec fn set(self, ident: usize, val: Value<P>) -> EnvModel<P> {
        EnvModel { slots: self.slots.update(self.current_pointer + ident, val), ..self }
    }

    /// Whether a frame of `size` slots can be put on top of the current one.
    pub open spec fn can_push(self, size: usize) -> bool {
        self.current_pointer + self.current_frame_size + size <= usize::MAX
    }

    /// How many slots the stack has after a frame of `size` slots is pushed: as
    /// many as before if the new frame fits, else the larger of four times as
    /// many and what the new frame needs.
    pub open spec fn grown_len(self, size: usize) -> nat {
        let needed: nat = (self.current_pointer + self.current_frame_size + size) as nat;
        let fourfold: nat = if self.slots.len() * 4 <= usize::MAX {
            self.slots.len() * 4
        } else {
            usize::MAX as nat
        };
        if needed <= self.slots.len() {
            self.slots.len()
        } else if fourfold >= needed {
            fourfold
        } else {
            needed
        }
    }

    /// The environment with a new frame of `size` slots on top. Every slot
    /// of the new frame is uninitialized, whatever a frame that stood there
    /// before has left; the slots below it keep what they held.
    pub open spec fn push_frame(self, size: usize) -> EnvModel<P> {
        let start = self.current_pointer + self.current_frame_size;
        EnvModel {
            slots: Seq::new(
                self.grown_len(size),
                |i: int|
                    if i < start {
                        self.slots[i]
                    } else if i < start + size || i >= self.slots.len() {
                        Value::<P>::Uninitialized
                    } else {
                        self.slots[i]
                    },
            ),
            current_pointer: start as usize,
            current_frame_size: size,
            stack_pointers: self.stack_pointers.push(
                (self.current_pointer, self.current_frame_size),
            ),
        }
    }

    /// The environment with the current frame given up for the one below it.
    pub open spec fn pop_frame(self) -> EnvModel<P> {
        EnvModel {
            slots: self.slots,
            current_pointer: self.stack_pointers.last().0,
            current_frame_size: self.stack_pointers.last().1,
            stack_pointers: self.stack_pointers.drop_last(),
        }
    }
}

/// A push never shrinks the stack and never touches the frames below: every
/// slot below the new frame keeps its value, every slot of the new frame is
/// uninitialized, the new frame lies within the stack, and a stack that had
/// to grow has at least four times its old size, or all the slots there can
/// be. A pop after the push gives back the frame that was current before.
pub proof fn lemma_push_frame_keeps<P>(env: EnvModel<P>, size: usize)
    requires
        env.wf(),
        env.can_push(size),
    ensures
        env.push_frame(size).wf(),
        env.push_frame(size).slots.len() >= env.slots.len(),
        env.push_frame(size).current_pointer == env.current_pointer + env.current_frame_size,
        env.push_frame(size).current_frame_size == size,
        forall|i: int|
            0 <= i < env.current_pointer + env.current_frame_size ==> #[trigger] env.push_frame(
                size,
            ).slots[i] == env.slots[i],
        forall|ident: usize|
            ident < size ==> #[trigger] env.push_frame(size).get(ident) == Value::<P>::Uninitialized,
        env.push_frame(size).slots.len() > env.slots.len() ==> env.push_frame(size).slots.len() >= 4
            * env.slots.len() || env.push_frame(size).slots.len() >= usize::MAX,
        env.push_frame(size).pop_frame().current_pointer == env.current_pointer,
        env.push_frame(size).pop_frame().current_frame_size == env.current_frame_size,
        env.push_frame(size).pop_frame().stack_pointers == env.stack_pointers,
{
    assert(env.push_frame(size).pop_frame().stack_pointers =~= env.stack_pointers);
}

/// The stack of the running program. Every variable of a function has a slot
/// number, and each call gets a frame: a run of slots, one per variable.
///
/// ```text
///  frame of "main" (3 slots)
///  |        frame of "foo" (2 slots)
///  |        |
/// [a, b, c, a, b]
/// ```
pub struct Environment<P> {
    // Where the current frame starts
    current_pointer: usize,
    // Size of the current frame
    current_frame_size: usize,
    // Start and size of every frame below the current one
    stack_pointers: Vec<(usize, usize)>,
    // The slots; this only ever grows
    env: Vec<Value<P>>,
}

impl<P> View for Environment<P> {
    type V = EnvModel<P>;

    closed spec fn view(&self) -> EnvModel<P> {
        EnvModel {
            slots: self.env@,
            current_pointer: self.current_pointer,
            current_frame_size: self.current_frame_size,
            stack_pointers: self.stack_pointers@,
        }
    }
}

impl<P: Copy> Environment<P> {
    /// An environment with one frame of `size` uninitialized slots.
    pub fn new(size: usize) -> (r: Self)
        ensures
            r@ == EnvModel::<P>::fresh(size),
            r@.wf(),
    {
        let len = if size > MIN_STACK_SLOTS { size } else { MIN_STACK_SLOTS };
        let r = Environment {
            current_pointer: 0,
            current_frame_size: size,
            stack_pointers: Vec::new(),
            env: uninitialized(len),
        };
        assert(r@.slots =~= EnvModel::<P>::fresh(size).slots);
        r
    }

    /// The value in slot `ident` of the current frame.
    pub fn get(&self, ident: usize) -> (r: &Value<P>)
        requires
            self@.wf(),
            ident < self@.current_frame_size,
        ensures
            *r == self@.get(ident),
    {
        &self.env[self.current_pointer + ident]
    }

    /// The value in slot `ident` of the frame below the current one: where a
    /// callee's arguments are read from.
    pub fn get_from_last_frame(&self, ident: usize) -> (r: &Value<P>)
        requires
            self@.stack_pointers.len() > 0,
            self@.stack_pointers.last().0 + ident < self@.slots.len(),
        ensures
            *r == self@.get_from_last_frame(ident),
    {
        let past_pointer = self.stack_pointers[self.stack_pointers.len() - 1].0;
        proof {
            vstd::std_specs::vec::axiom_spec_len(&self.env);
        }
        &self.env[past_pointer + ident]
    }

    /// Writes `val` to slot `ident` of the current frame.
    pub fn set(&mut self, ident: usize, val: Value<P>)
        requires
            old(self)@.wf(),
            ident < old(self)@.current_frame_size,
        ensures
            final(self)@ == old(self)@.set(ident, val),
            final(self)@.wf(),
    {
        self.env[self.current_pointer + ident] = val;
    }

    /// Whether a frame of `size` slots can be put on top of the stack: whether
    /// its slots can still be numbered.
    pub fn can_push(&self, size: usize) -> (b: bool)
        requires
            self@.wf(),
        ensures
            b == self@.can_push(size),
    {
        size <= usize::MAX - (self.current_pointer + self.current_frame_size)
    }

    /// Puts a new frame of `size` uninitialized slots on top of the stack,
    /// growing the stack if the frame does not fit.
    #[verifier::loop_isolation(false)]
    pub fn push_frame(&mut self, size: usize)
        requires
            old(self)@.wf(),
            old(self)@.can_push(size),
        ensures
            final(self)@ == old(self)@.push_frame(size),
            final(self)@.wf(),
    {
        self.stack_pointers.push((self.current_pointer, self.current_frame_size));
        self.current_pointer = self.current_pointer + self.current_frame_size;
        self.current_frame_size = size;
        let start = self.current_pointer;
        let needed = start + size;
        if needed > self.env.len() {
            let len = self.env.len();
            let fourfold = if len <= usize::MAX / 4 { len * 4 } else { usize::MAX };
            let new_len = if fourfold >= needed { fourfold } else { needed };
            while self.env.len() < new_len
                invariant
                    len <= self.env@.len() <= new_len,
                    forall|j: int| 0 <= j < len ==> self.env@[j] == old(self).env@[j],
                    forall|j: int| len <= j < self.env@.len() ==> self.env@[j]
                        == Value::<P>::Uninitialized,
                    self.current_pointer == start,
                    self.current_frame_size == size,
                    self.stack_pointers@ == old(self).stack_pointers@.push(
                        (old(self).current_pointer, old(self).current_frame_size),
                    ),
                decreases new_len - self.env@.len(),
            {
                self.env.push(Value::Uninitialized);
            }
        }
        let ghost grown = self.env@;
        let ghost before = old(self).env@;
        proof {
            vstd::std_specs::vec::axiom_spec_len(&self.env);
            assert(grown.len() == old(self)@.grown_len(size));
            assert forall|j: int| 0 <= j < before.len() implies grown[j] == before[j] by {}
            assert forall|j: int| before.len() <= j < grown.len() implies grown[j]
                == Value::<P>::Uninitialized by {}
        }
        let mut i: usize = 0;
        while i < size
            invariant
                i <= size,
                start + size <= self.env@.len(),
                self.env@.len() == grown.len(),
                forall|j: int| 0 <= j < start ==> self.env@[j] == grown[j],
                forall|j: int| start <= j < start + i ==> self.env@[j] == Value::<P>::Uninitialized,
                forall|j: int| start + i <= j < grown.len() ==> self.env@[j] == grown[j],
                self.current_pointer == start,
                self.current_frame_size == size,
                self.stack_pointers@ == old(self).stack_pointers@.push(
                    (old(self).current_pointer, old(self).current_frame_size),
                ),
            decreases size - i,
        {
            self.env[start + i] = Value::<P>::Uninitialized;
            i = i + 1;
        }
        proof {
            let expected = old(self)@.push_frame(size).slots;
            assert(self.env@.len() == expected.len());
            assert forall|j: int| 0 <= j < expected.len() implies self.env@[j] == expected[j] by {
                if j < start {
                    assert(self.env@[j] == grown[j]);
                } else if j < start + size {
                } else {
                    assert(self.env@[j] == grown[j]);
                }
            }
            assert(self@.slots =~= expected);
        }
    }

    /// Gives up the current frame: the frame below becomes the current one.
    pub fn pop_frame(&mut self)
        requires
            old(self)@.stack_pointers.len() > 0,
        ensures
            final(self)@ == old(self)@.pop_frame(),
    {
        let (pointer, size) = self.stack_pointers.pop().unwrap();
        self.current_pointer = pointer;
        self.current_frame_size = size;
    }
}

} // verus!
