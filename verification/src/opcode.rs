//! Instructions: the operations of the machine with their operand fields, and
//! the decoding of a 16-bit instruction word into one of them.
//!
//! A word `0xFXYN` has four nibbles. `F`, the top one, selects the family; `X`
//! and `Y` name registers; `N` is the lowest nibble, `NN` the low byte and
//! `NNN` the low twelve bits. Families `0` and `8` look at `N` as well to
//! select the operation.
//!
//! Two instructions are read differently by different interpreters. This
//! machine shifts `V[X]` in place and does not read `V[Y]`, and its jump with
//! offset adds `V[0]`.

use vstd::prelude::*;

verus! {

/// One decoded instruction.
#[derive(Clone, Copy, Debug, PartialEq, Eq, Structural)]
pub enum Opcode {
    /// `0__0`: turn every pixel off.
    ClearScreen,
    /// `0__N`, `N` not zero: return from a subroutine.
    Return,
    /// `1NNN`: jump to `address`.
    Jump { address: u16 },
    /// `2NNN`: call the subroutine at `address`.
    Call { address: u16 },
    /// `3XNN`: skip the next instruction if `V[x] == value`.
    SkipIfEqual { x: u8, value: u8 },
    /// `4XNN`: skip the next instruction if `V[x] != value`.
    SkipIfNotEqual { x: u8, value: u8 },
    /// `5XY_`: skip the next instruction if `V[x] == V[y]`.
    SkipIfRegistersEqual { x: u8, y: u8 },
    /// `6XNN`: `V[x] = value`.
    LoadImmediate { x: u8, value: u8 },
    /// `7XNN`: `V[x] = V[x] + value`, wrapping; the flag is not touched.
    AddImmediate { x: u8, value: u8 },
    /// `8XY0`: `V[x] = V[y]`.
    Copy { x: u8, y: u8 },
    /// `8XY1`: `V[x] = V[x] | V[y]`.
    Or { x: u8, y: u8 },
    /// `8XY2`: `V[x] = V[x] & V[y]`.
    And { x: u8, y: u8 },
    /// `8XY3`: `V[x] = V[x] ^ V[y]`.
    Xor { x: u8, y: u8 },
    /// `8XY4`: `V[x] = V[x] + V[y]`, wrapping; the flag tells of a carry.
    AddWithCarry { x: u8, y: u8 },
    /// `8XY5`: `V[x] = V[x] - V[y]`, wrapping; the flag tells of no borrow.
    SubtractWithBorrow { x: u8, y: u8 },
    /// `8XY6`: `V[x]` shifted right by one; the flag gets the bit shifted
    /// out. `y` is carried along and not read.
    ShiftRight { x: u8, y: u8 },
    /// `8XY7`: `V[x] = V[y] - V[x]`, wrapping; the flag tells of no borrow.
    ReverseSubtract { x: u8, y: u8 },
    /// `8XYE`: `V[x]` shifted left by one; the flag gets the bit shifted out.
    /// `y` is carried along and not read.
    ShiftLeft { x: u8, y: u8 },
    /// `9XY_`: skip the next instruction if `V[x] != V[y]`.
    SkipIfRegistersNotEqual { x: u8, y: u8 },
    /// `ANNN`: `I = address`.
    LoadIndex { address: u16 },
    /// `BNNN`: jump to `address + V[0]`.
    JumpWithOffset { address: u16 },
    /// `CXNN`: `V[x]` = a random byte masked with `mask`.
    Random { x: u8, mask: u8 },
    /// `DXYN`: draw the sprite of `height` rows at `I` at `(V[x], V[y])`.
    Draw { x: u8, y: u8, height: u8 },
    /// Any other word: an instruction this machine does not implement. It is
    /// reported and has no effect.
    Unimplemented { word: u16 },
}

/// The top nibble of `word`.
pub open spec fn family_of(word: u16) -> int {
    word as int / 4096
}

/// The `X` field of `word`: its second nibble.
pub open spec fn x_of(word: u16) -> u8 {
    ((word as int / 256) % 16) as u8
}

/// The `Y` field of `word`: its third nibble.
pub open spec fn y_of(word: u16) -> u8 {
    ((word as int / 16) % 16) as u8
}

/// The `N` field of `word`: its lowest nibble.
pub open spec fn n_of(word: u16) -> u8 {
    (word as int % 16) as u8
}

/// The `NN` field of `word`: its low byte.
pub open spec fn nn_of(word: u16) -> u8 {
    (word as int % 256) as u8
}

/// The `NNN` field of `word`: its low twelve bits.
pub open spec fn nnn_of(word: u16) -> u16 {
    (word as int % 4096) as u16
}

/// The operation of family `8` that the low nibble `n` selects.
pub open spec fn decoded_arithmetic(word: u16) -> Opcode {
    let x = x_of(word);
    let y = y_of(word);
    let n = n_of(word);
    if n == 0 {
        Opcode::Copy { x, y }
    } else if n == 1 {
        Opcode::Or { x, y }
    } else if n == 2 {
        Opcode::And { x, y }
    } else if n == 3 {
        Opcode::Xor { x, y }
    } else if n == 4 {
        Opcode::AddWithCarry { x, y }
    } else if n == 5 {
        Opcode::SubtractWithBorrow { x, y }
    } else if n == 6 {
        Opcode::ShiftRight { x, y }
    } else if n == 7 {
        Opcode::ReverseSubtract { x, y }
    } else if n == 0xe {
        Opcode::ShiftLeft { x, y }
    } else {
        Opcode::Unimplemented { word }
    }
}

/// The instruction that `word` encodes.
pub open spec fn decoded(word: u16) -> Opcode {
    let family = family_of(word);
    let x = x_of(word);
    let y = y_of(word);
    if family == 0x0 {
        if n_of(word) == 0 {
            Opcode::ClearScreen
        } else {
            Opcode::Return
        }
    } else if family == 0x1 {
        Opcode::Jump { address: nnn_of(word) }
    } else if family == 0x2 {
        Opcode::Call { address: nnn_of(word) }
    } else if family == 0x3 {
        Opcode::SkipIfEqual { x, value: nn_of(word) }
    } else if family == 0x4 {
        Opcode::SkipIfNotEqual { x, value: nn_of(word) }
    } else if family == 0x5 {
        Opcode::SkipIfRegistersEqual { x, y }
    } else if family == 0x6 {
        Opcode::LoadImmediate { x, value: nn_of(word) }
    } else if family == 0x7 {
        Opcode::AddImmediate { x, value: nn_of(word) }
    } else if family == 0x8 {
        decoded_arithmetic(word)
    } else if family == 0x9 {
        Opcode::SkipIfRegistersNotEqual { x, y }
    } else if family == 0xa {
        Opcode::LoadIndex { address: nnn_of(word) }
    } else if family == 0xb {
        Opcode::JumpWithOffset { address: nnn_of(word) }
    } else if family == 0xc {
        Opcode::Random { x, mask: nn_of(word) }
    } else if family == 0xd {
        Opcode::Draw { x, y, height: n_of(word) }
    } else {
        Opcode::Unimplemented { word }
    }
}

impl Opcode {
    /// Whether the operand fields are as wide as their places in an
    /// instruction word: register numbers and sprite heights below 16,
    /// addresses below 4096.
    pub open spec fn well_formed(self) -> bool {
        match self {
            Opcode::ClearScreen | Opcode::Return | Opcode::Unimplemented { .. } => true,
            Opcode::Jump { address }
            | Opcode::Call { address }
            | Opcode::LoadIndex { address }
            | Opcode::JumpWithOffset { address } => address < 4096,
            Opcode::SkipIfEqual { x, .. }
            | Opcode::SkipIfNotEqual { x, .. }
            | Opcode::LoadImmediate { x, .. }
            | Opcode::AddImmediate { x, .. }
            | Opcode::Random { x, .. } => x < 16,
            Opcode::SkipIfRegistersEqual { x, y }
            | Opcode::Copy { x, y }
            | Opcode::Or { x, y }
            | Opcode::And { x, y }
            | Opcode::Xor { x, y }
            | Opcode::AddWithCarry { x, y }
            | Opcode::SubtractWithBorrow { x, y }
            | Opcode::ShiftRight { x, y }
            | Opcode::ReverseSubtract { x, y }
            | Opcode::ShiftLeft { x, y }
            | Opcode::SkipIfRegistersNotEqual { x, y } => x < 16 && y < 16,
            Opcode::Draw { x, y, height } => x < 16 && y < 16 && height < 16,
        }
    }

    /// Whether `self` fits in an instruction word, tested at run time.
    pub fn is_well_formed(&self) -> (fits: bool)
        ensures
            fits == self.well_formed(),
    {
        match *self {
            Opcode::ClearScreen | Opcode::Return | Opcode::Unimplemented { .. } => true,
            Opcode::Jump { address }
            | Opcode::Call { address }
            | Opcode::LoadIndex { address }
            | Opcode::JumpWithOffset { address } => address < 4096,
            Opcode::SkipIfEqual { x, .. }
            | Opcode::SkipIfNotEqual { x, .. }
            | Opcode::LoadImmediate { x, .. }
            | Opcode::AddImmediate { x, .. }
            | Opcode::Random { x, .. } => x < 16,
            Opcode::SkipIfRegistersEqual { x, y }
            | Opcode::Copy { x, y }
            | Opcode::Or { x, y }
            | Opcode::And { x, y }
            | Opcode::Xor { x, y }
            | Opcode::AddWithCarry { x, y }
            | Opcode::SubtractWithBorrow { x, y }
            | Opcode::ShiftRight { x, y }
            | Opcode::ReverseSubtract { x, y }
            | Opcode::ShiftLeft { x, y }
            | Opcode::SkipIfRegistersNotEqual { x, y } => x < 16 && y < 16,
            Opcode::Draw { x, y, height } => x < 16 && y < 16 && height < 16,
        }
    }
}

/// Every word decodes to an instruction whose operand fields are as wide as
/// their places in the word.
pub proof fn lemma_decoded_is_well_formed(word: u16)
    ensures
        decoded(word).well_formed(),
{
}

/// Decodes one instruction word. Every word decodes: one that names no
/// implemented operation becomes [`Opcode::Unimplemented`].
pub fn decode(word: u16) -> (op: Opcode)
    ensures
        op == decoded(word),
        op.well_formed(),
{
    let family = word & 0xf000;
    let x = ((word & 0x0f00) >> 8) as u8;
    let y = ((word & 0x00f0) >> 4) as u8;
    let n = (word & 0x000f) as u8;
    let nn = (word & 0x00ff) as u8;
    let nnn = word & 0x0fff;
    assert(word & 0xf000 == (word / 4096) * 4096) by (bit_vector);
    assert((word & 0x0f00) >> 8 == (word / 256) % 16) by (bit_vector);
    assert((word & 0x00f0) >> 4 == (word / 16) % 16) by (bit_vector);
    assert(word & 0x000f == word % 16) by (bit_vector);
    assert(word & 0x00ff == word % 256) by (bit_vector);
    assert(word & 0x0fff == word % 4096) by (bit_vector);
    match family {
        0x0000 => {
            if n == 0 {
                Opcode::ClearScreen
            } else {
                Opcode::Return
            }
        },
        0x1000 => Opcode::Jump { address: nnn },
        0x2000 => Opcode::Call { address: nnn },
        0x3000 => Opcode::SkipIfEqual { x, value: nn },
        0x4000 => Opcode::SkipIfNotEqual { x, value: nn },
        0x5000 => Opcode::SkipIfRegistersEqual { x, y },
        0x6000 => Opcode::LoadImmediate { x, value: nn },
        0x7000 => Opcode::AddImmediate { x, value: nn },
        0x8000 => {
            match n {
                0x0 => Opcode::Copy { x, y },
                0x1 => Opcode::Or { x, y },
                0x2 => Opcode::And { x, y },
                0x3 => Opcode::Xor { x, y },
                0x4 => Opcode::AddWithCarry { x, y },
                0x5 => Opcode::SubtractWithBorrow { x, y },
                0x6 => Opcode::ShiftRight { x, y },
                0x7 => Opcode::ReverseSubtract { x, y },
                0xe => Opcode::ShiftLeft { x, y },
                _ => Opcode::Unimplemented { word },
            }
        },
        0x9000 => Opcode::SkipIfRegistersNotEqual { x, y },
        0xa000 => Opcode::LoadIndex { address: nnn },
        0xb000 => Opcode::JumpWithOffset { address: nnn },
        0xc000 => Opcode::Random { x, mask: nn },
        0xd000 => Opcode::Draw { x, y, height: n },
        _ => Opcode::Unimplemented { word },
    }
}

} // verus!
