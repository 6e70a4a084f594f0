//! One of the sixteen 8-bit general-purpose registers `V0`..`VF`.

use vstd::prelude::*;

verus! {

/// An 8-bit general-purpose register.
#[derive(Clone, Copy, Debug)]
pub struct VariableRegister {
    value: u8,
}

impl View for VariableRegister {
    type V = u8;

    closed spec fn view(&self) -> u8 {
        self.value
    }
}

impl VariableRegister {
    /// A register holding zero.
    pub fn new() -> (reg: Self)
        ensures
            reg@ == 0,
    {
        Self { value: 0 }
    }

    /// Overwrites the register with `val`.
    pub fn set(&mut self, val: u8)
        ensures
            final(self)@ == val,
    {
        self.value = val;
    }

    /// The byte currently held.
    pub fn get(&self) -> (val: u8)
        ensures
            val == self@,
    {
        self.value
    }
}

} // verus!
