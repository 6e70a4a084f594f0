//! The 16-bit index register `I`, the pointer used by memory-indexed opcodes.

use vstd::prelude::*;

verus! {

/// The index register. Any 16-bit value may be stored; whether it is a valid
/// address is decided only when memory is accessed through it.
#[derive(Clone, Copy, Debug)]
pub struct IndexRegister {
    value: u16,
}

impl View for IndexRegister {
    type V = u16;

    closed spec fn view(&self) -> u16 {
        self.value
    }
}

impl IndexRegister {
    /// An index register pointing at address zero.
    pub fn new() -> (reg: Self)
        ensures
            reg@ == 0,
    {
        Self { value: 0 }
    }

    /// Points the register at `val`.
    pub fn set(&mut self, val: u16)
        ensures
            final(self)@ == val,
    {
        self.value = val;
    }

    /// The address currently held.
    pub fn get(&self) -> (val: u16)
        ensures
            val == self@,
    {
        self.value
    }
}

} // verus!
