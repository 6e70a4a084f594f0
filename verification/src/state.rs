//! The machine as a mathematical value, and what each instruction does to
//! it. The executable machine is specified against these definitions.
//!
//! Order matters where an instruction writes two registers. The arithmetic
//! instructions read their operands first, then write the flag, then the
//! result, so with `X` naming the flag register the result is what stays.
//! The shifts write the flag and then shift whatever `V[X]` holds after that.
//! Drawing reads its coordinates before it clears the flag.

use vstd::prelude::*;
use crate::display::{
    blank, collides, drawn, is_grid, lemma_draw_twice_restores, on_screen, DISPLAY_HEIGHT,
    DISPLAY_WIDTH,
};
use crate::memory::{initial_memory, with_program, word_at, MEMORY_SIZE};
use crate::opcode::{decoded, lemma_decoded_is_well_formed, Opcode};
use crate::program_counter::PC_MAX;
use crate::stack::STACK_CAPACITY;
use crate::timer::{ticked, INITIAL_VALUE};

verus! {

/// The number of general-purpose registers.
pub const REGISTER_COUNT: usize = 16;

/// The register that doubles as the carry, borrow and collision flag.
pub const FLAG_REGISTER: usize = 15;

/// How an instruction that did not stop the machine ended.
#[derive(Clone, Copy, Debug, PartialEq, Eq, Structural)]
pub enum Report {
    /// The instruction did what it is there for.
    Executed,
    /// A call found all sixteen stack slots live. Nothing was changed.
    StackOverflow,
    /// The word names no instruction of this machine. Nothing was changed.
    Unimplemented { word: u16 },
}

/// A condition that leaves the machine unable to run on. The instruction that
/// met it changed nothing.
#[derive(Clone, Copy, Debug, PartialEq, Eq, Structural)]
pub enum Fatal {
    /// The program counter would have gone beyond the last address from
    /// which an instruction can be fetched.
    ProgramCounterOutOfRange,
    /// A return found no live entry on the stack.
    StackUnderflow,
    /// A sprite would have been read from beyond the end of memory.
    MemoryOutOfBounds,
}

/// The whole state of the machine.
pub struct MachineState {
    /// The 4096 bytes of memory.
    pub memory: Seq<u8>,
    /// The screen, `display[y][x]`.
    pub display: Seq<Seq<bool>>,
    /// The address of the next instruction.
    pub pc: nat,
    /// The index register `I`.
    pub index: u16,
    /// The sixteen stack slots.
    pub stack: Seq<u16>,
    /// The next free stack slot: the slots below it are live.
    pub stack_pointer: nat,
    /// The delay timer.
    pub delay_timer: u8,
    /// The sound timer.
    pub sound_timer: u8,
    /// The registers `V[0]` to `V[15]`.
    pub registers: Seq<u8>,
}

/// A state together with how the step that led to it ended.
pub type Outcome = (MachineState, Result<Report, Fatal>);

/// One for a condition that holds and zero for one that does not: the value
/// the flag register gets.
pub open spec fn flag(condition: bool) -> u8 {
    if condition {
        1
    } else {
        0
    }
}

/// The number of rows of a sprite of `height` rows that lie on the screen
/// when its first row is row `y0`.
pub open spec fn visible_rows(height: int, y0: int) -> int {
    if height < DISPLAY_HEIGHT - y0 {
        height
    } else {
        DISPLAY_HEIGHT - y0
    }
}

impl MachineState {
    /// Whether every part has its size and the counters are in range.
    pub open spec fn well_formed(self) -> bool {
        &&& self.memory.len() == MEMORY_SIZE
        &&& is_grid(self.display)
        &&& self.pc <= PC_MAX
        &&& self.stack.len() == STACK_CAPACITY
        &&& self.stack_pointer <= STACK_CAPACITY
        &&& self.registers.len() == REGISTER_COUNT
    }

    /// The state of a machine that has just been made with `font`.
    pub open spec fn initial(font: Seq<u8>) -> Self {
        MachineState {
            memory: initial_memory(font),
            display: blank(),
            pc: 0,
            index: 0,
            stack: Seq::new(STACK_CAPACITY as nat, |i: int| 0u16),
            stack_pointer: 0,
            delay_timer: INITIAL_VALUE,
            sound_timer: INITIAL_VALUE,
            registers: Seq::new(REGISTER_COUNT as nat, |i: int| 0u8),
        }
    }

    /// `self` with `program` in memory from `0x200` on.
    pub open spec fn with_program(self, program: Seq<u8>) -> Self {
        MachineState { memory: with_program(self.memory, program), ..self }
    }

    /// `self` after one tick of both timers.
    pub open spec fn with_timers_ticked(self) -> Self {
        MachineState {
            delay_timer: ticked(self.delay_timer),
            sound_timer: ticked(self.sound_timer),
            ..self
        }
    }

    /// `self` with the program counter at `pc`.
    pub open spec fn with_pc(self, pc: nat) -> Self {
        MachineState { pc, ..self }
    }

    /// `self` with `value` in register `x`.
    pub open spec fn with_register(self, x: int, value: u8) -> Self {
        MachineState { registers: self.registers.update(x, value), ..self }
    }

    /// `self` with `flag` in the flag register and then `value` in register
    /// `x`.
    pub open spec fn with_flag_and_register(self, flag: u8, x: int, value: u8) -> Self {
        self.with_register(FLAG_REGISTER as int, flag).with_register(x, value)
    }

    /// The program counter moves to `target`, if an instruction can be
    /// fetched from there.
    pub open spec fn jump(self, target: int) -> Outcome {
        if 0 <= target <= PC_MAX {
            (self.with_pc(target as nat), Ok(Report::Executed))
        } else {
            (self, Err(Fatal::ProgramCounterOutOfRange))
        }
    }

    /// The next instruction is skipped if `condition` holds.
    pub open spec fn skip_if(self, condition: bool) -> Outcome {
        if condition {
            self.jump((self.pc + 2) as int)
        } else {
            (self, Ok(Report::Executed))
        }
    }

    /// A subroutine call: the current program counter goes into the next
    /// free stack slot, the pointer moves up, and the program counter moves
    /// to `address`. With no free slot left the call is over before it has
    /// looked at the address: nothing happens but the report, and that is
    /// never fatal.
    pub open spec fn call(self, address: int) -> Outcome {
        if self.stack_pointer >= STACK_CAPACITY {
            (self, Ok(Report::StackOverflow))
        } else if address > PC_MAX {
            (self, Err(Fatal::ProgramCounterOutOfRange))
        } else {
            (
                MachineState {
                    pc: address as nat,
                    stack: self.stack.update(self.stack_pointer as int, self.pc as u16),
                    stack_pointer: self.stack_pointer + 1,
                    ..self
                },
                Ok(Report::Executed),
            )
        }
    }

    /// A return: the pointer moves down one slot and the program counter
    /// moves to the address held there.
    pub open spec fn ret(self) -> Outcome {
        if self.stack_pointer == 0 {
            (self, Err(Fatal::StackUnderflow))
        } else {
            let target = self.stack[self.stack_pointer - 1];
            if target <= PC_MAX {
                (
                    MachineState {
                        pc: target as nat,
                        stack_pointer: (self.stack_pointer - 1) as nat,
                        ..self
                    },
                    Ok(Report::Executed),
                )
            } else {
                (self, Err(Fatal::ProgramCounterOutOfRange))
            }
        }
    }

    /// The rows of the sprite that drawing `height` rows from row `y0` on
    /// reads: those from the index register on that lie on the screen.
    pub open spec fn sprite(self, height: int, y0: int) -> Seq<u8> {
        Seq::new(visible_rows(height, y0) as nat, |row: int| self.memory[self.index + row])
    }

    /// Whether one of the rows that drawing `height` rows from row `y0` on
    /// reads lies beyond the end of memory. A sprite of no rows reads
    /// nothing, wherever the index register points.
    pub open spec fn sprite_out_of_bounds(self, height: int, y0: int) -> bool {
        visible_rows(height, y0) > 0 && self.index + visible_rows(height, y0) > MEMORY_SIZE
    }

    /// Drawing the sprite of `height` rows at `I` with its corner at
    /// `(V[x] mod 64, V[y] mod 32)`. The flag register ends as one if a lit
    /// pixel was turned off and as zero if none was.
    pub open spec fn draw(self, x: int, y: int, height: int) -> Outcome {
        let x0 = self.registers[x] as int % DISPLAY_WIDTH as int;
        let y0 = self.registers[y] as int % DISPLAY_HEIGHT as int;
        if self.sprite_out_of_bounds(height, y0) {
            (self, Err(Fatal::MemoryOutOfBounds))
        } else {
            let sprite = self.sprite(height, y0);
            (
                MachineState {
                    display: drawn(self.display, sprite, x0, y0),
                    registers: self.registers.update(
                        FLAG_REGISTER as int,
                        flag(collides(self.display, sprite, x0, y0)),
                    ),
                    ..self
                },
                Ok(Report::Executed),
            )
        }
    }

    /// Every pixel goes off.
    pub open spec fn clear_screen(self) -> Self {
        MachineState { display: blank(), ..self }
    }

    /// `V[x]` grows by `value`, wrapping at 256. No other register changes,
    /// the flag register included unless `x` names it.
    pub open spec fn add_immediate(self, x: int, value: u8) -> Self {
        self.with_register(x, ((self.registers[x] + value) % 256) as u8)
    }

    /// `V[x]` becomes `V[x] + V[y]`, wrapping at 256; the flag is one if the
    /// sum went beyond 255.
    pub open spec fn add_with_carry(self, x: int, y: int) -> Self {
        let sum = self.registers[x] + self.registers[y];
        self.with_flag_and_register(flag(sum > 255), x, (sum % 256) as u8)
    }

    /// `V[x]` becomes `V[a] - V[b]`, wrapping at 256; the flag is one if
    /// nothing had to be borrowed, that is if `V[a] >= V[b]`.
    pub open spec fn subtract(self, x: int, a: int, b: int) -> Self {
        let difference = self.registers[a] - self.registers[b];
        self.with_flag_and_register(flag(difference >= 0), x, (difference % 256) as u8)
    }

    /// The flag gets the lowest bit of `V[x]`; then `V[x]` is halved.
    pub open spec fn shift_right(self, x: int) -> Self {
        let flagged = self.with_register(FLAG_REGISTER as int, self.registers[x] % 2);
        flagged.with_register(x, flagged.registers[x] / 2)
    }

    /// The flag gets the highest bit of `V[x]`; then `V[x]` is doubled,
    /// wrapping at 256.
    pub open spec fn shift_left(self, x: int) -> Self {
        let flagged = self.with_register(FLAG_REGISTER as int, self.registers[x] / 128);
        flagged.with_register(x, ((flagged.registers[x] * 2) % 256) as u8)
    }

    /// The index register points at `address`.
    pub open spec fn load_index(self, address: u16) -> Self {
        MachineState { index: address, ..self }
    }

    /// What executing `op` does. `random` is the byte that chance supplies;
    /// only [`Opcode::Random`] looks at it.
    pub open spec fn step(self, op: Opcode, random: u8) -> Outcome {
        let v = self.registers;
        match op {
            Opcode::ClearScreen => (self.clear_screen(), Ok(Report::Executed)),
            Opcode::Return => self.ret(),
            Opcode::Jump { address } => self.jump(address as int),
            Opcode::Call { address } => self.call(address as int),
            Opcode::SkipIfEqual { x, value } => self.skip_if(v[x as int] == value),
            Opcode::SkipIfNotEqual { x, value } => self.skip_if(v[x as int] != value),
            Opcode::SkipIfRegistersEqual { x, y } => self.skip_if(v[x as int] == v[y as int]),
            Opcode::LoadImmediate { x, value } => (
                self.with_register(x as int, value),
                Ok(Report::Executed),
            ),
            Opcode::AddImmediate { x, value } => (
                self.add_immediate(x as int, value),
                Ok(Report::Executed),
            ),
            Opcode::Copy { x, y } => (
                self.with_register(x as int, v[y as int]),
                Ok(Report::Executed),
            ),
            Opcode::Or { x, y } => (
                self.with_register(x as int, v[x as int] | v[y as int]),
                Ok(Report::Executed),
            ),
            Opcode::And { x, y } => (
                self.with_register(x as int, v[x as int] & v[y as int]),
                Ok(Report::Executed),
            ),
            Opcode::Xor { x, y } => (
                self.with_register(x as int, v[x as int] ^ v[y as int]),
                Ok(Report::Executed),
            ),
            Opcode::AddWithCarry { x, y } => (
                self.add_with_carry(x as int, y as int),
                Ok(Report::Executed),
            ),
            Opcode::SubtractWithBorrow { x, y } => (
                self.subtract(x as int, x as int, y as int),
                Ok(Report::Executed),
            ),
            Opcode::ShiftRight { x, y } => (self.shift_right(x as int), Ok(Report::Executed)),
            Opcode::ReverseSubtract { x, y } => (
                self.subtract(x as int, y as int, x as int),
                Ok(Report::Executed),
            ),
            Opcode::ShiftLeft { x, y } => (self.shift_left(x as int), Ok(Report::Executed)),
            Opcode::SkipIfRegistersNotEqual { x, y } => self.skip_if(v[x as int] != v[y as int]),
            Opcode::LoadIndex { address } => (self.load_index(address), Ok(Report::Executed)),
            Opcode::JumpWithOffset { address } => self.jump(address + v[0]),
            Opcode::Random { x, mask } => (
                self.with_register(x as int, random & mask),
                Ok(Report::Executed),
            ),
            Opcode::Draw { x, y, height } => self.draw(x as int, y as int, height as int),
            Opcode::Unimplemented { word } => (self, Ok(Report::Unimplemented { word })),
        }
    }

    /// The fatal condition that executing `op` would meet, if there is one.
    /// Chance has no part in it.
    pub open spec fn fault(self, op: Opcode) -> Option<Fatal> {
        match self.step(op, 0).1 {
            Ok(_) => None,
            Err(fatal) => Some(fatal),
        }
    }

    /// Fetching: the word at the program counter, and the program counter
    /// moved past it. The fetch fails, and changes nothing, if the program
    /// counter could not hold the address behind the word.
    pub open spec fn fetch(self) -> (MachineState, Result<u16, Fatal>) {
        if self.pc + 2 <= PC_MAX {
            (self.with_pc(self.pc + 2), Ok(word_at(self.memory, self.pc as int)))
        } else {
            (self, Err(Fatal::ProgramCounterOutOfRange))
        }
    }

    /// The instruction that the program counter points at.
    pub open spec fn next_instruction(self) -> Opcode {
        decoded(word_at(self.memory, self.pc as int))
    }

    /// One whole cycle: fetch, decode, execute. A cycle whose instruction
    /// meets a fatal condition has still moved the program counter past it.
    pub open spec fn cycle(self, random: u8) -> Outcome {
        match self.fetch() {
            (fetched, Ok(word)) => fetched.step(decoded(word), random),
            (_, Err(fatal)) => (self, Err(fatal)),
        }
    }
}

/// Every instruction leaves a well-formed machine well formed: the program
/// counter stays at or below `PC_MAX`, the stack pointer within `0..=16`, and
/// memory, screen, stack and registers keep their sizes.
pub proof fn lemma_step_keeps_well_formed(s: MachineState, op: Opcode, random: u8)
    requires
        s.well_formed(),
        op.well_formed(),
    ensures
        s.step(op, random).0.well_formed(),
{
}

/// Every cycle leaves a well-formed machine well formed, whatever word the
/// program counter points at.
pub proof fn lemma_cycle_keeps_well_formed(s: MachineState, random: u8)
    requires
        s.well_formed(),
    ensures
        s.cycle(random).0.well_formed(),
{
    if s.fetch().1 is Ok {
        lemma_decoded_is_well_formed(s.fetch().1->Ok_0);
        lemma_step_keeps_well_formed(s.fetch().0, decoded(s.fetch().1->Ok_0), random);
    }
}

/// An instruction that meets a fatal condition changes nothing.
pub proof fn lemma_fatal_changes_nothing(s: MachineState, op: Opcode, random: u8)
    requires
        s.step(op, random).1 is Err,
    ensures
        s.step(op, random).0 == s,
{
}

/// Whether an instruction meets a fatal condition, and which one, does not
/// depend on chance: the fault of an instruction is the error of its step
/// with every random byte.
pub proof fn lemma_fault_is_the_error_of_step(s: MachineState, op: Opcode, random: u8)
    ensures
        s.fault(op) is None <==> s.step(op, random).1 is Ok,
        s.fault(op) matches Some(fatal) ==> s.step(op, random) == (
            s,
            Err::<Report, Fatal>(fatal),
        ),
{
}

/// Only [`Opcode::Random`] depends on chance: every other instruction makes
/// the same step whatever the random byte is.
pub proof fn lemma_only_random_reads_chance(s: MachineState, op: Opcode, one: u8, other: u8)
    requires
        !(op is Random),
    ensures
        s.step(op, one) == s.step(op, other),
{
}

/// After loading `value` into `V[x]`, `V[x]` holds `value`, and every other
/// register holds what it held.
pub proof fn lemma_load_immediate(s: MachineState, x: u8, value: u8, random: u8)
    requires
        s.well_formed(),
        x < REGISTER_COUNT,
    ensures
        s.step(Opcode::LoadImmediate { x, value }, random).1 == Ok::<Report, Fatal>(
            Report::Executed,
        ),
        s.step(Opcode::LoadImmediate { x, value }, random).0.registers[x as int] == value,
        forall|other: int|
            0 <= other < REGISTER_COUNT && other != x ==> s.step(
                Opcode::LoadImmediate { x, value },
                random,
            ).0.registers[other] == s.registers[other],
{
}

/// Adding `value` to `V[x]` leaves `(V[x] + value) mod 256` in `V[x]` and
/// changes no other register. In particular the flag register keeps its
/// value, whether or not the sum went beyond 255, unless `x` itself names it.
pub proof fn lemma_add_immediate(s: MachineState, x: u8, value: u8, random: u8)
    requires
        s.well_formed(),
        x < REGISTER_COUNT,
    ensures
        s.step(Opcode::AddImmediate { x, value }, random).1 == Ok::<Report, Fatal>(
            Report::Executed,
        ),
        s.step(Opcode::AddImmediate { x, value }, random).0.registers[x as int] == (
        s.registers[x as int] + value) % 256,
        forall|other: int|
            0 <= other < REGISTER_COUNT && other != x ==> s.step(
                Opcode::AddImmediate { x, value },
                random,
            ).0.registers[other] == s.registers[other],
        x != FLAG_REGISTER ==> s.step(
            Opcode::AddImmediate { x, value },
            random,
        ).0.registers[FLAG_REGISTER as int] == s.registers[FLAG_REGISTER as int],
{
}

/// A call followed by a return resumes right behind the call. If the
/// instruction at the program counter is a call that succeeds, the cycle
/// that runs it leaves the program counter at the subroutine; a return
/// executed then, with the stack as the call left it, puts the program
/// counter at the address that follows the call and the stack pointer back
/// where it was.
pub proof fn lemma_return_resumes_behind_call(
    s: MachineState,
    address: u16,
    random: u8,
    later: u8,
)
    requires
        s.well_formed(),
        s.next_instruction() == (Opcode::Call { address }),
        s.pc + 2 <= PC_MAX,
        address <= PC_MAX,
        s.stack_pointer < STACK_CAPACITY,
    ensures
        s.cycle(random).1 == Ok::<Report, Fatal>(Report::Executed),
        s.cycle(random).0.pc == address,
        s.cycle(random).0.step(Opcode::Return, later).1 == Ok::<Report, Fatal>(Report::Executed),
        s.cycle(random).0.step(Opcode::Return, later).0.pc == s.pc + 2,
        s.cycle(random).0.step(Opcode::Return, later).0.stack_pointer == s.stack_pointer,
{
}

/// A call followed at once by a return undoes itself: the program counter
/// and the stack pointer are back where they stood when the call was
/// executed.
pub proof fn lemma_call_then_return(s: MachineState, address: u16, random: u8, later: u8)
    requires
        s.well_formed(),
        address <= PC_MAX,
        s.stack_pointer < STACK_CAPACITY,
    ensures
        s.step(Opcode::Call { address }, random).0.step(Opcode::Return, later).0.pc == s.pc,
        s.step(Opcode::Call { address }, random).0.step(Opcode::Return, later).0.stack_pointer
            == s.stack_pointer,
        s.step(Opcode::Call { address }, random).0.step(Opcode::Return, later).1 == Ok::<
            Report,
            Fatal,
        >(Report::Executed),
{
}

/// A call that finds sixteen live entries on the stack is reported as an
/// overflow and changes nothing, whatever address it names: the sixteen
/// entries, the stack pointer and the program counter are what they were,
/// and the condition is never fatal.
pub proof fn lemma_call_on_full_stack(s: MachineState, address: u16, random: u8)
    requires
        s.well_formed(),
        s.stack_pointer == STACK_CAPACITY,
    ensures
        s.step(Opcode::Call { address }, random) == (s, Ok::<Report, Fatal>(Report::StackOverflow)),
        s.fault(Opcode::Call { address }) is None,
{
}

/// After the screen has been cleared, every one of its 2048 pixels is off.
pub proof fn lemma_clear_screen(s: MachineState, random: u8, x: int, y: int)
    requires
        on_screen(x, y),
    ensures
        s.step(Opcode::ClearScreen, random).1 == Ok::<Report, Fatal>(Report::Executed),
        !s.step(Opcode::ClearScreen, random).0.display[y][x],
{
}

/// Drawing the same sprite at the same place twice gives back the screen as
/// it was before the first draw. The coordinate registers must not be the
/// flag register, which the first draw overwrites.
pub proof fn lemma_draw_twice_restores_screen(
    s: MachineState,
    x: u8,
    y: u8,
    height: u8,
    random: u8,
    later: u8,
)
    requires
        s.well_formed(),
        x < FLAG_REGISTER,
        y < FLAG_REGISTER,
    ensures
        s.step(Opcode::Draw { x, y, height }, random).0.step(
            Opcode::Draw { x, y, height },
            later,
        ).0.display == s.display,
{
    let op = Opcode::Draw { x, y, height };
    let once = s.step(op, random).0;
    if s.step(op, random).1 is Ok {
        let x0 = s.registers[x as int] as int % DISPLAY_WIDTH as int;
        let y0 = s.registers[y as int] as int % DISPLAY_HEIGHT as int;
        assert(once.sprite(height as int, y0) == s.sprite(height as int, y0));
        lemma_draw_twice_restores(s.display, s.sprite(height as int, y0), x0, y0);
    }
}

} // verus!
