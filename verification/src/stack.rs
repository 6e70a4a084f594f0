//! The call stack: sixteen slots for return addresses and a pointer to the
//! next free slot.
//!
//! A slot holds an address only once one has been stored in it. The stack
//! keeps count of the slots stored to so far, and the pointer never stands
//! above that count: what lies below the pointer, and what the pointer names
//! right after a pop, is always an address that a push put there.

use vstd::prelude::*;

verus! {

/// The number of return addresses the stack can hold.
pub const STACK_CAPACITY: usize = 16;

/// The report of a push onto a stack that has no free slot left.
#[derive(Clone, Copy, Debug, PartialEq, Eq, Structural)]
pub struct StackOverflow;

/// The call stack. The slots below the pointer hold the live return
/// addresses, oldest first; the pointer names the next free slot.
#[derive(Clone, Copy, Debug)]
pub struct Stack {
    slots: [u16; 16],
    pointer: usize,
    stored: usize,
}

impl View for Stack {
    type V = Seq<u16>;

    /// The live return addresses, oldest first.
    open spec fn view(&self) -> Seq<u16> {
        self.slots().take(self.pointer() as int)
    }
}

impl Stack {
    /// All sixteen slots, live or not.
    pub closed spec fn slots(&self) -> Seq<u16> {
        self.slots@
    }

    /// The index of the next free slot, which is also the number of live
    /// entries.
    pub closed spec fn pointer(&self) -> nat {
        self.pointer as nat
    }

    /// The number of slots that have been stored to: slots `0..stored()`
    /// hold addresses that were pushed, the slots from there on hold none.
    pub closed spec fn stored(&self) -> nat {
        self.stored as nat
    }

    /// What holds of every stack: the pointer stands at or below the count
    /// of the slots stored to, and that count is no more than sixteen.
    #[verifier::type_invariant]
    pub open spec fn pointer_in_range(self) -> bool {
        self.pointer() <= self.stored() <= STACK_CAPACITY
    }

    /// There are always exactly sixteen slots.
    pub proof fn lemma_slot_count(&self)
        ensures
            self.slots().len() == STACK_CAPACITY,
    {
    }

    /// An empty stack: the pointer at slot zero and no slot stored to.
    pub fn new() -> (stack: Self)
        ensures
            stack.pointer() == 0,
            stack.stored() == 0,
            stack.slots() == Seq::new(STACK_CAPACITY as nat, |i: int| 0u16),
            stack@ == Seq::<u16>::empty(),
    {
        Self { slots: [0; 16], pointer: 0, stored: 0 }
    }

    /// Stores `val` in the next free slot. The pointer stays where it is:
    /// the entry becomes live when the pointer is moved past it. With all
    /// sixteen slots live there is no free slot; the push is then reported
    /// as an overflow and changes nothing.
    pub fn push(&mut self, val: u16) -> (result: Result<(), StackOverflow>)
        ensures
            final(self).pointer() == old(self).pointer(),
            final(self)@ == old(self)@,
            result is Ok <==> old(self).pointer() < STACK_CAPACITY,
            result is Ok ==> final(self).slots() == old(self).slots().update(
                old(self).pointer() as int,
                val,
            ),
            result is Ok ==> final(self).stored() == if old(self).pointer() < old(self).stored() {
                old(self).stored()
            } else {
                old(self).pointer() + 1
            },
            result is Err ==> final(self).slots() == old(self).slots(),
            result is Err ==> final(self).stored() == old(self).stored(),
    {
        proof {
            use_type_invariant(&*self);
        }
        if self.pointer < STACK_CAPACITY {
            self.slots[self.pointer] = val;
            if self.stored == self.pointer {
                self.stored = self.pointer + 1;
            }
            Ok(())
        } else {
            Err(StackOverflow)
        }
    }

    /// Drops the newest live entry by moving the pointer down one slot. The
    /// dropped value stays readable in the slot the pointer now names.
    /// Popping an empty stack is a fatal condition and is excluded here.
    pub fn pop(&mut self)
        requires
            old(self).pointer() > 0,
        ensures
            final(self).pointer() == old(self).pointer() - 1,
            final(self).slots() == old(self).slots(),
            final(self).stored() == old(self).stored(),
            final(self)@ == old(self)@.drop_last(),
    {
        proof {
            use_type_invariant(&*self);
        }
        self.pointer = self.pointer - 1;
    }

    /// Moves the pointer to `value`, which must not lie above the slots
    /// stored to so far.
    pub fn set_pointer(&mut self, value: usize)
        requires
            value <= old(self).stored(),
        ensures
            final(self).pointer() == value,
            final(self).slots() == old(self).slots(),
            final(self).stored() == old(self).stored(),
    {
        proof {
            use_type_invariant(&*self);
        }
        self.pointer = value;
    }

    /// The index of the next free slot; never above [`STACK_CAPACITY`].
    pub fn get_pointer(&self) -> (pointer: usize)
        ensures
            pointer == self.pointer(),
            pointer <= self.stored(),
            pointer <= STACK_CAPACITY,
    {
        proof {
            use_type_invariant(self);
        }
        self.pointer
    }

    /// The number of slots stored to so far; never above
    /// [`STACK_CAPACITY`].
    pub fn get_stored(&self) -> (stored: usize)
        ensures
            stored == self.stored(),
            self.pointer() <= stored <= STACK_CAPACITY,
    {
        proof {
            use_type_invariant(self);
        }
        self.stored
    }

    /// The address in the slot the pointer names. The slot must have been
    /// stored to: on a new stack, or with the pointer behind the last slot
    /// stored to, there is no address to give and the call is excluded.
    pub fn get_value_at_pointer(&self) -> (val: u16)
        requires
            self.pointer() < self.stored(),
        ensures
            val == self.slots()[self.pointer() as int],
    {
        proof {
            use_type_invariant(self);
        }
        self.slots[self.pointer]
    }
}

} // verus!
