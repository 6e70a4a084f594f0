//! The program counter: a cursor into memory that always leaves room for one
//! full two-byte instruction word.

use vstd::prelude::*;

verus! {

/// The highest address the program counter may hold: the last position from
/// which a whole instruction word can still be read.
pub const PC_MAX: u32 = 4094;

/// The program counter.
#[derive(Clone, Copy, Debug)]
pub struct ProgramCounter {
    points_at: u32,
}

impl View for ProgramCounter {
    type V = u32;

    closed spec fn view(&self) -> u32 {
        self.points_at
    }
}

impl ProgramCounter {
    /// What holds of every program counter: a whole instruction word can be
    /// fetched from the address it holds.
    #[verifier::type_invariant]
    pub open spec fn in_range(self) -> bool {
        self@ <= PC_MAX
    }

    /// A program counter at address zero.
    pub fn new() -> (pc: Self)
        ensures
            pc@ == 0,
    {
        Self { points_at: 0 }
    }

    /// The address of the next instruction to fetch; never above [`PC_MAX`].
    pub fn get_point_value(&self) -> (val: u32)
        ensures
            val == self@,
            val <= PC_MAX,
    {
        proof {
            use_type_invariant(self);
        }
        self.points_at
    }

    /// Moves the cursor to `val`. An address above [`PC_MAX`] is a fatal
    /// condition for the machine and is excluded here; callers test first.
    pub fn set_point_value(&mut self, val: u32)
        requires
            val <= PC_MAX,
        ensures
            final(self)@ == val,
    {
        self.points_at = val;
    }
}

} // verus!
