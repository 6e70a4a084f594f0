//! The addressable memory: 4096 bytes, the font in the lowest eighty and a
//! program from address `0x200` on.

use vstd::prelude::*;
use vstd::slice::slice_subrange;
use crate::font::{font_of, read_font, FONT_SIZE};

verus! {

/// The number of bytes of memory.
pub const MEMORY_SIZE: usize = 4096;

/// The address at which a program is loaded.
pub const PROGRAM_START: usize = 0x200;

/// The report of a program that does not fit between [`PROGRAM_START`] and
/// the end of memory.
#[derive(Clone, Copy, Debug, PartialEq, Eq, Structural)]
pub struct ProgramTooLarge;

/// The 16-bit word whose high byte is at `address` and whose low byte follows
/// it: an instruction as it lies in memory, big-endian.
pub open spec fn word_at(memory: Seq<u8>, address: int) -> u16 {
    (memory[address] as int * 256 + memory[address + 1] as int) as u16
}

/// Memory as it is when the machine is made: `font` from address zero on and
/// zero everywhere else.
pub open spec fn initial_memory(font: Seq<u8>) -> Seq<u8> {
    Seq::new(
        MEMORY_SIZE as nat,
        |address: int|
            if address < font.len() {
                font[address]
            } else {
                0u8
            },
    )
}

/// `memory` with `program` copied in from [`PROGRAM_START`] on.
pub open spec fn with_program(memory: Seq<u8>, program: Seq<u8>) -> Seq<u8> {
    Seq::new(
        memory.len(),
        |address: int|
            if PROGRAM_START <= address < PROGRAM_START + program.len() {
                program[address - PROGRAM_START]
            } else {
                memory[address]
            },
    )
}

/// The memory of the machine.
#[derive(Clone, Copy, Debug)]
pub struct Memory {
    ram: [u8; 4096],
}

impl View for Memory {
    type V = Seq<u8>;

    closed spec fn view(&self) -> Seq<u8> {
        self.ram@
    }
}

impl Memory {
    /// Memory always has [`MEMORY_SIZE`] bytes.
    pub proof fn lemma_size(&self)
        ensures
            self@.len() == MEMORY_SIZE,
    {
    }

    /// Makes the memory from the eighty bytes of a font: they lie at
    /// addresses 0 to 79, in order, and the rest is zero.
    pub fn from_font(font: &[u8; 80]) -> (memory: Self)
        ensures
            memory@ == initial_memory(font@),
    {
        let mut ram = [0u8; 4096];
        let mut i: usize = 0;
        while i < FONT_SIZE
            invariant
                i <= FONT_SIZE,
                font@.len() == FONT_SIZE,
                forall|k: int| 0 <= k < i ==> ram@[k] == font@[k],
                forall|k: int| i <= k < MEMORY_SIZE ==> ram@[k] == 0,
            decreases FONT_SIZE - i,
        {
            ram[i] = font[i];
            i += 1;
        }
        let memory = Self { ram };
        assert(memory@ =~= initial_memory(font@));
        memory
    }

    /// Makes the memory from a font definition: the eighty bytes that the
    /// text names lie at addresses 0 to 79, in order, and the rest is zero.
    /// A text that is no font definition, because it has fewer or more than
    /// eighty entries or an entry that is no hexadecimal byte, is a fatal
    /// condition and is excluded here; callers test the text first.
    pub fn new(font_source: &str) -> (memory: Self)
        requires
            font_of(font_source@) is Ok,
        ensures
            memory@ == initial_memory(font_of(font_source@)->Ok_0),
    {
        let font = read_font(font_source).unwrap();
        Self::from_font(&font)
    }

    /// The instruction word at `pointer_value`: the byte there is the high
    /// byte, the next one the low byte. Both must lie inside memory.
    pub fn get_instruction(&self, pointer_value: u32) -> (word: u16)
        requires
            pointer_value + 1 < MEMORY_SIZE,
        ensures
            word == word_at(self@, pointer_value as int),
    {
        let high = self.ram[pointer_value as usize];
        let low = self.ram[(pointer_value + 1) as usize];
        assert(((high as u16) << 8) | (low as u16) == (high as u16) * 256 + (low as u16))
            by (bit_vector);
        ((high as u16) << 8) | (low as u16)
    }

    /// The byte at `base + offset`, which must lie inside memory.
    pub fn get_byte(&self, base: usize, offset: usize) -> (byte: u8)
        requires
            base + offset < MEMORY_SIZE,
        ensures
            byte == self@[base + offset],
    {
        self.ram[base + offset]
    }

    /// The `height` bytes from `address` on, which must all lie inside
    /// memory: the rows of a sprite.
    pub fn sprite(&self, address: usize, height: usize) -> (rows: &[u8])
        requires
            address + height <= MEMORY_SIZE,
        ensures
            rows@ == self@.subrange(address as int, address + height),
    {
        slice_subrange(self.ram.as_slice(), address, address + height)
    }

    /// Copies `program` into memory, byte for byte, from [`PROGRAM_START`]
    /// on. A program longer than the space from there to the end of memory
    /// is rejected and memory stays as it was.
    pub fn load_program(&mut self, program: &[u8]) -> (result: Result<(), ProgramTooLarge>)
        ensures
            result is Ok <==> program@.len() <= MEMORY_SIZE - PROGRAM_START,
            result is Ok ==> final(self)@ == with_program(old(self)@, program@),
            result is Err ==> final(self)@ == old(self)@,
    {
        let length = program.len();
        if length > MEMORY_SIZE - PROGRAM_START {
            return Err(ProgramTooLarge);
        }
        let mut i: usize = 0;
        while i < length
            invariant
                i <= length,
                length == program@.len(),
                length <= MEMORY_SIZE - PROGRAM_START,
                forall|k: int| 0 <= k < i ==> self@[PROGRAM_START + k] == program@[k],
                forall|k: int|
                    0 <= k < MEMORY_SIZE && !(PROGRAM_START <= k < PROGRAM_START + i) ==> self@[k]
                        == old(self)@[k],
            decreases length - i,
        {
            self.ram[PROGRAM_START + i] = program[i];
            i += 1;
        }
        assert(self@ =~= with_program(old(self)@, program@));
        Ok(())
    }
}

} // verus!
