//! The interpreter core: one machine that owns memory, screen, registers,
//! stack and timers, and runs the fetch-decode-execute cycle on them.

use rand::Rng;
use vstd::prelude::*;
use crate::delay_timer::DelayTimer;
use crate::display::{Display, DISPLAY_HEIGHT};
use crate::font::{font_of, parse_font, FontError};
use crate::index_register::IndexRegister;
use crate::memory::{Memory, ProgramTooLarge, MEMORY_SIZE, PROGRAM_START};
use crate::opcode::{decode, Opcode};
use crate::program_counter::{ProgramCounter, PC_MAX};
use crate::sound_timer::SoundTimer;
use crate::stack::{Stack, STACK_CAPACITY};
use crate::state::{visible_rows, Fatal, MachineState, Report, FLAG_REGISTER, REGISTER_COUNT};
use crate::timer::{tick_report, Tick};
use crate::variable_register::VariableRegister;

verus! {

/// One byte from the thread-local generator of the `rand` crate, drawn as
/// `rand::thread_rng().gen::<u8>()`. Nothing is claimed of the byte: any of
/// the 256 values may come, and two calls may differ.
#[verifier::external_body]
fn random_byte() -> (byte: u8) {
    rand::thread_rng().gen::<u8>()
}

/// The machine.
pub struct Chip8 {
    memory: Memory,
    display: Display,
    pc: ProgramCounter,
    i: IndexRegister,
    stack: Stack,
    delay_timer: DelayTimer,
    sound_timer: SoundTimer,
    variable_registers: [VariableRegister; 16],
}

impl View for Chip8 {
    type V = MachineState;

    closed spec fn view(&self) -> MachineState {
        MachineState {
            memory: self.memory@,
            display: self.display@,
            pc: self.pc@ as nat,
            index: self.i@,
            stack: self.stack.slots(),
            stack_pointer: self.stack.pointer(),
            delay_timer: self.delay_timer@,
            sound_timer: self.sound_timer@,
            registers: Seq::new(REGISTER_COUNT as nat, |x: int| self.variable_registers@[x]@),
        }
    }
}

impl Chip8 {
    /// Every machine is well formed. This runs no code; it brings what holds
    /// of the parts to where a proof needs it.
    fn note_well_formed(&self)
        ensures
            self@.well_formed(),
    {
        proof {
            use_type_invariant(&self.pc);
            use_type_invariant(&self.stack);
            self.memory.lemma_size();
            self.display.lemma_shape();
            self.stack.lemma_slot_count();
        }
    }

    /// Makes a machine from a font definition: the font in the lowest eighty
    /// bytes of memory and everything else at its starting value. A text
    /// that is no font definition is rejected with the reason.
    pub fn new(font_source: &str) -> (result: Result<Self, FontError>)
        ensures
            match result {
                Ok(machine) => font_of(font_source@) is Ok && machine@ == MachineState::initial(
                    font_of(font_source@)->Ok_0,
                ),
                Err(error) => font_of(font_source@) == Err::<Seq<u8>, FontError>(error),
            },
    {
        match parse_font(font_source) {
            Err(error) => Err(error),
            Ok(font) => {
                let memory = Memory::from_font(&font);
                let display = Display::new();
                let stack = Stack::new();
                proof {
                    memory.lemma_size();
                    display.lemma_shape();
                    stack.lemma_slot_count();
                }
                let machine = Self {
                    memory,
                    display,
                    pc: ProgramCounter::new(),
                    i: IndexRegister::new(),
                    stack,
                    delay_timer: DelayTimer::new(),
                    sound_timer: SoundTimer::new(),
                    variable_registers: [VariableRegister::new();16],
                };
                assert(machine@.registers =~= MachineState::initial(font@).registers);
                Ok(machine)
            },
        }
    }

    /// Copies `program` into memory from address `0x200` on. A program that
    /// does not fit is rejected and the machine stays as it was.
    pub fn load_program(&mut self, program: &[u8]) -> (result: Result<(), ProgramTooLarge>)
        ensures
            result is Ok <==> program@.len() <= MEMORY_SIZE - PROGRAM_START,
            result is Ok ==> final(self)@ == old(self)@.with_program(program@),
            result is Err ==> final(self)@ == old(self)@,
            old(self)@.well_formed(),
            final(self)@.well_formed(),
    {
        self.note_well_formed();
        let result = self.memory.load_program(program);
        proof {
            self.memory.lemma_size();
        }
        result
    }

    /// Advances both timers by one unit, as the outside clock asks at its
    /// own rate, and says for each, delay first, whether it counted or was
    /// idle at zero.
    pub fn tick_timers(&mut self) -> (reports: (Tick, Tick))
        ensures
            final(self)@ == old(self)@.with_timers_ticked(),
            reports.0 == tick_report(old(self)@.delay_timer),
            reports.1 == tick_report(old(self)@.sound_timer),
            old(self)@.well_formed(),
            final(self)@.well_formed(),
    {
        self.note_well_formed();
        let delay = self.delay_timer.tick();
        let sound = self.sound_timer.tick();
        (delay, sound)
    }

    /// The memory, to read.
    pub fn memory(&self) -> (memory: &Memory)
        ensures
            memory@ == self@.memory,
    {
        &self.memory
    }

    /// The screen, to read.
    pub fn display(&self) -> (display: &Display)
        ensures
            display@ == self@.display,
    {
        &self.display
    }

    /// The call stack, to read.
    pub fn stack(&self) -> (stack: &Stack)
        ensures
            stack.slots() == self@.stack,
            stack.pointer() == self@.stack_pointer,
    {
        &self.stack
    }

    /// The address of the next instruction.
    pub fn program_counter(&self) -> (pc: u32)
        ensures
            pc == self@.pc,
            pc <= PC_MAX,
    {
        self.pc.get_point_value()
    }

    /// The value of the index register.
    pub fn index(&self) -> (index: u16)
        ensures
            index == self@.index,
    {
        self.i.get()
    }

    /// The value of the delay timer.
    pub fn delay_timer(&self) -> (value: u8)
        ensures
            value == self@.delay_timer,
    {
        self.delay_timer.get_value()
    }

    /// The value of the sound timer.
    pub fn sound_timer(&self) -> (value: u8)
        ensures
            value == self@.sound_timer,
    {
        self.sound_timer.get_value()
    }

    /// The value of register `V[x]`.
    pub fn register(&self, x: u8) -> (value: u8)
        requires
            x < REGISTER_COUNT,
        ensures
            value == self@.registers[x as int],
    {
        self.variable_registers[x as usize].get()
    }

    /// Writes `value` to register `V[x]`.
    fn set_register(&mut self, x: u8, value: u8)
        requires
            x < REGISTER_COUNT,
        ensures
            final(self)@ == old(self)@.with_register(x as int, value),
    {
        self.note_well_formed();
        let mut register = self.variable_registers[x as usize];
        register.set(value);
        self.variable_registers[x as usize] = register;
        assert(self@.registers =~= old(self)@.registers.update(x as int, value));
    }

    /// Moves the program counter to `target`.
    fn jump(&mut self, target: u32)
        requires
            target <= PC_MAX,
        ensures
            (final(self)@, Ok::<Report, Fatal>(Report::Executed)) == old(self)@.jump(target as int),
    {
        self.pc.set_point_value(target);
    }

    /// Skips the next instruction if `condition` holds.
    fn skip_if(&mut self, condition: bool)
        requires
            old(self)@.skip_if(condition).1 is Ok,
        ensures
            (final(self)@, Ok::<Report, Fatal>(Report::Executed)) == old(self)@.skip_if(condition),
    {
        if condition {
            let next = self.pc.get_point_value() + 2;
            self.jump(next);
        }
    }

    /// Calls the subroutine at `address`, or reports that the stack is full.
    fn call(&mut self, address: u16) -> (report: Report)
        requires
            old(self)@.call(address as int).1 is Ok,
        ensures
            (final(self)@, Ok::<Report, Fatal>(report)) == old(self)@.call(address as int),
    {
        self.note_well_formed();
        let return_address = self.pc.get_point_value() as u16;
        match self.stack.push(return_address) {
            Err(_) => Report::StackOverflow,
            Ok(()) => {
                let pointer = self.stack.get_pointer();
                self.stack.set_pointer(pointer + 1);
                self.pc.set_point_value(address as u32);
                Report::Executed
            },
        }
    }

    /// Returns from a subroutine.
    fn ret(&mut self)
        requires
            old(self)@.ret().1 is Ok,
        ensures
            (final(self)@, Ok::<Report, Fatal>(Report::Executed)) == old(self)@.ret(),
    {
        self.note_well_formed();
        proof {
            use_type_invariant(&self.stack);
        }
        self.stack.pop();
        let target = self.stack.get_value_at_pointer();
        self.pc.set_point_value(target as u32);
    }

    /// The number of rows of a sprite of `height` rows that lie on the
    /// screen when its first row is row `vy mod 32`.
    fn visible_rows(height: u8, vy: u8) -> (rows: usize)
        ensures
            rows == visible_rows(height as int, vy as int % DISPLAY_HEIGHT as int),
            rows <= DISPLAY_HEIGHT,
    {
        let room: usize = DISPLAY_HEIGHT - vy as usize % DISPLAY_HEIGHT;
        if (height as usize) < room {
            height as usize
        } else {
            room
        }
    }

    /// Draws the sprite of `height` rows that the index register points at.
    fn draw(&mut self, x: u8, y: u8, height: u8)
        requires
            x < REGISTER_COUNT,
            y < REGISTER_COUNT,
            old(self)@.draw(x as int, y as int, height as int).1 is Ok,
        ensures
            (final(self)@, Ok::<Report, Fatal>(Report::Executed)) == old(self)@.draw(
                x as int,
                y as int,
                height as int,
            ),
    {
        self.note_well_formed();
        let vx = self.register(x);
        let vy = self.register(y);
        let rows = Self::visible_rows(height, vy);
        let address: usize = if rows == 0 {
            0
        } else {
            self.i.get() as usize
        };
        let sprite = self.memory.sprite(address, rows);
        assert(sprite@ =~= old(self)@.sprite(height as int, vy as int % DISPLAY_HEIGHT as int));
        let collision = self.display.draw_sprite(vx, vy, sprite);
        self.set_register(
            FLAG_REGISTER as u8,
            if collision {
                1
            } else {
                0
            },
        );
    }

    /// Fetches the instruction word at the program counter and moves the
    /// program counter past it. A program counter that could not hold the
    /// address behind the word is a fatal condition and is excluded here.
    pub fn fetch(&mut self) -> (word: u16)
        requires
            old(self)@.pc + 2 <= PC_MAX,
        ensures
            (final(self)@, Ok::<u16, Fatal>(word)) == old(self)@.fetch(),
            old(self)@.well_formed(),
            final(self)@.well_formed(),
    {
        self.note_well_formed();
        let address = self.pc.get_point_value();
        let word = self.memory.get_instruction(address);
        self.pc.set_point_value(address + 2);
        word
    }

    /// Whether the program counter can be moved two addresses on.
    fn can_advance(&self) -> (can: bool)
        ensures
            can == (self@.pc + 2 <= PC_MAX),
    {
        self.pc.get_point_value() + 2 <= PC_MAX
    }

    /// The fatal condition that executing `op` now would meet, if there is
    /// one. Nothing is changed: this is the test to make before
    /// [`Chip8::execute`].
    pub fn fault(&self, op: Opcode) -> (fault: Option<Fatal>)
        requires
            op.well_formed(),
        ensures
            fault == self@.fault(op),
    {
        self.note_well_formed();
        let out_of_range = Some(Fatal::ProgramCounterOutOfRange);
        match op {
            Opcode::Return => {
                if self.stack.get_pointer() == 0 {
                    Some(Fatal::StackUnderflow)
                } else {
                    let mut stack = self.stack;
                    stack.pop();
                    if stack.get_value_at_pointer() as u32 > PC_MAX {
                        out_of_range
                    } else {
                        None
                    }
                }
            },
            Opcode::Jump { address } => {
                if address as u32 > PC_MAX {
                    out_of_range
                } else {
                    None
                }
            },
            Opcode::Call { address } => {
                if self.stack.get_pointer() < STACK_CAPACITY && address as u32 > PC_MAX {
                    out_of_range
                } else {
                    None
                }
            },
            Opcode::SkipIfEqual { x, value } => {
                if self.register(x) == value && !self.can_advance() {
                    out_of_range
                } else {
                    None
                }
            },
            Opcode::SkipIfNotEqual { x, value } => {
                if self.register(x) != value && !self.can_advance() {
                    out_of_range
                } else {
                    None
                }
            },
            Opcode::SkipIfRegistersEqual { x, y } => {
                if self.register(x) == self.register(y) && !self.can_advance() {
                    out_of_range
                } else {
                    None
                }
            },
            Opcode::SkipIfRegistersNotEqual { x, y } => {
                if self.register(x) != self.register(y) && !self.can_advance() {
                    out_of_range
                } else {
                    None
                }
            },
            Opcode::JumpWithOffset { address } => {
                if address as u32 + self.register(0) as u32 > PC_MAX {
                    out_of_range
                } else {
                    None
                }
            },
            Opcode::Draw { x, y, height } => {
                let rows = Self::visible_rows(height, self.register(y));
                if rows > 0 && self.i.get() as usize + rows > MEMORY_SIZE {
                    Some(Fatal::MemoryOutOfBounds)
                } else {
                    None
                }
            },
            _ => None,
        }
    }

    /// Turns every pixel off.
    fn clear_screen(&mut self)
        ensures
            final(self)@ == old(self)@.clear_screen(),
    {
        self.display.clear();
    }

    /// Adds `value` to `V[x]`.
    fn add_immediate(&mut self, x: u8, value: u8)
        requires
            x < REGISTER_COUNT,
        ensures
            final(self)@ == old(self)@.add_immediate(x as int, value),
    {
        let vx = self.register(x);
        self.set_register(x, vx.wrapping_add(value));
    }

    /// Adds `V[y]` to `V[x]` and sets the flag to the carry.
    fn add_with_carry(&mut self, x: u8, y: u8)
        requires
            x < REGISTER_COUNT,
            y < REGISTER_COUNT,
        ensures
            final(self)@ == old(self)@.add_with_carry(x as int, y as int),
    {
        let vx = self.register(x);
        let vy = self.register(y);
        let carry: u8 = if vx as u16 + vy as u16 > 255 {
            1
        } else {
            0
        };
        self.set_register(FLAG_REGISTER as u8, carry);
        self.set_register(x, vx.wrapping_add(vy));
    }

    /// Stores `V[a] - V[b]` in `V[x]` and sets the flag to one unless the
    /// subtraction borrowed.
    fn subtract(&mut self, x: u8, a: u8, b: u8)
        requires
            x < REGISTER_COUNT,
            a < REGISTER_COUNT,
            b < REGISTER_COUNT,
        ensures
            final(self)@ == old(self)@.subtract(x as int, a as int, b as int),
    {
        let minuend = self.register(a);
        let subtrahend = self.register(b);
        let no_borrow: u8 = if minuend >= subtrahend {
            1
        } else {
            0
        };
        self.set_register(FLAG_REGISTER as u8, no_borrow);
        self.set_register(x, minuend.wrapping_sub(subtrahend));
    }

    /// Shifts `V[x]` right by one bit, the bit shifted out going to the flag.
    fn shift_right(&mut self, x: u8)
        requires
            x < REGISTER_COUNT,
        ensures
            final(self)@ == old(self)@.shift_right(x as int),
    {
        let vx = self.register(x);
        assert(vx & 1 == vx % 2) by (bit_vector);
        self.set_register(FLAG_REGISTER as u8, vx & 1);
        let vx = self.register(x);
        assert(vx >> 1 == vx / 2) by (bit_vector);
        self.set_register(x, vx >> 1);
    }

    /// Shifts `V[x]` left by one bit, the bit shifted out going to the flag.
    fn shift_left(&mut self, x: u8)
        requires
            x < REGISTER_COUNT,
        ensures
            final(self)@ == old(self)@.shift_left(x as int),
    {
        let vx = self.register(x);
        assert((vx & 0x80) >> 7 == vx / 128) by (bit_vector);
        self.set_register(FLAG_REGISTER as u8, (vx & 0x80) >> 7);
        let vx = self.register(x);
        assert(vx << 1 == (vx * 2) % 256) by (bit_vector);
        self.set_register(x, vx << 1);
    }

    /// Points the index register at `address`.
    fn load_index(&mut self, address: u16)
        ensures
            final(self)@ == old(self)@.load_index(address),
    {
        self.i.set(address);
    }

    /// Executes `op`, with `random` as the byte that chance supplies to
    /// [`Opcode::Random`], and gives the report of the instruction. An
    /// instruction that would meet a fatal condition is excluded here:
    /// [`Chip8::fault`] tells beforehand.
    pub fn execute_with(&mut self, op: Opcode, random: u8) -> (report: Report)
        requires
            op.well_formed(),
            old(self)@.fault(op) is None,
        ensures
            (final(self)@, Ok::<Report, Fatal>(report)) == old(self)@.step(op, random),
            old(self)@.well_formed(),
            final(self)@.well_formed(),
    {
        self.note_well_formed();
        let mut report = Report::Executed;
        match op {
            Opcode::ClearScreen => {
                self.clear_screen();
            },
            Opcode::Return => {
                self.ret();
            },
            Opcode::Jump { address } => {
                self.jump(address as u32);
            },
            Opcode::Call { address } => {
                report = self.call(address);
            },
            Opcode::SkipIfEqual { x, value } => {
                let vx = self.register(x);
                self.skip_if(vx == value);
            },
            Opcode::SkipIfNotEqual { x, value } => {
                let vx = self.register(x);
                self.skip_if(vx != value);
            },
            Opcode::SkipIfRegistersEqual { x, y } => {
                let vx = self.register(x);
                let vy = self.register(y);
                self.skip_if(vx == vy);
            },
            Opcode::LoadImmediate { x, value } => {
                self.set_register(x, value);
            },
            Opcode::AddImmediate { x, value } => {
                self.add_immediate(x, value);
            },
            Opcode::Copy { x, y } => {
                let vy = self.register(y);
                self.set_register(x, vy);
            },
            Opcode::Or { x, y } => {
                let vx = self.register(x);
                let vy = self.register(y);
                self.set_register(x, vx | vy);
            },
            Opcode::And { x, y } => {
                let vx = self.register(x);
                let vy = self.register(y);
                self.set_register(x, vx & vy);
            },
            Opcode::Xor { x, y } => {
                let vx = self.register(x);
                let vy = self.register(y);
                self.set_register(x, vx ^ vy);
            },
            Opcode::AddWithCarry { x, y } => {
                self.add_with_carry(x, y);
            },
            Opcode::SubtractWithBorrow { x, y } => {
                self.subtract(x, x, y);
            },
            Opcode::ShiftRight { x, y } => {
                self.shift_right(x);
            },
            Opcode::ReverseSubtract { x, y } => {
                self.subtract(x, y, x);
            },
            Opcode::ShiftLeft { x, y } => {
                self.shift_left(x);
            },
            Opcode::SkipIfRegistersNotEqual { x, y } => {
                let vx = self.register(x);
                let vy = self.register(y);
                self.skip_if(vx != vy);
            },
            Opcode::LoadIndex { address } => {
                self.load_index(address);
            },
            Opcode::JumpWithOffset { address } => {
                let v0 = self.register(0);
                self.jump(address as u32 + v0 as u32);
            },
            Opcode::Random { x, mask } => {
                self.set_register(x, random & mask);
            },
            Opcode::Draw { x, y, height } => {
                self.draw(x, y, height);
            },
            Opcode::Unimplemented { word } => {
                report = Report::Unimplemented { word };
            },
        }
        self.note_well_formed();
        report
    }

    /// Executes `op`, drawing the random byte itself where `op` asks for
    /// one, and gives the report of the instruction. Whatever byte came, the
    /// machine has made the step that [`Chip8::execute_with`] makes with
    /// that byte; an instruction other than [`Opcode::Random`] makes the
    /// same step with every byte. An instruction that would meet a fatal
    /// condition is excluded here: [`Chip8::fault`] tells beforehand.
    pub fn execute(&mut self, op: Opcode) -> (report: Report)
        requires
            op.well_formed(),
            old(self)@.fault(op) is None,
        ensures
            exists|random: u8|
                (final(self)@, Ok::<Report, Fatal>(report)) == #[trigger] old(self)@.step(
                    op,
                    random,
                ),
            !(op is Random) ==> (final(self)@, Ok::<Report, Fatal>(report)) == old(self)@.step(
                op,
                0,
            ),
            old(self)@.well_formed(),
            final(self)@.well_formed(),
    {
        let random = match op {
            Opcode::Random { .. } => random_byte(),
            _ => 0,
        };
        self.execute_with(op, random)
    }

    /// Runs one cycle with `random` as the byte that chance supplies: fetch
    /// the word at the program counter, decode it, execute it. Every test is
    /// made here: a cycle that meets a fatal condition gives it as the
    /// error. The instruction that met it has changed nothing; the fetch
    /// before it has moved the program counter past it.
    pub fn cycle_with(&mut self, random: u8) -> (result: Result<Report, Fatal>)
        ensures
            (final(self)@, result) == old(self)@.cycle(random),
            old(self)@.well_formed(),
            final(self)@.well_formed(),
    {
        self.note_well_formed();
        if !self.can_advance() {
            return Err(Fatal::ProgramCounterOutOfRange);
        }
        let op = decode(self.fetch());
        match self.fault(op) {
            Some(fatal) => Err(fatal),
            None => Ok(self.execute_with(op, random)),
        }
    }

    /// Runs one cycle: fetch the word at the program counter, decode it,
    /// execute it, drawing a random byte where the instruction asks for one.
    /// Whatever byte came, the machine has made the cycle that
    /// [`Chip8::cycle_with`] makes with that byte.
    pub fn cycle(&mut self) -> (result: Result<Report, Fatal>)
        ensures
            exists|random: u8| (final(self)@, result) == #[trigger] old(self)@.cycle(random),
            !(old(self)@.next_instruction() is Random) ==> (final(self)@, result) == old(
                self,
            )@.cycle(0),
            old(self)@.well_formed(),
            final(self)@.well_formed(),
    {
        self.note_well_formed();
        if !self.can_advance() {
            assert((self@, Err::<Report, Fatal>(Fatal::ProgramCounterOutOfRange)) == old(
                self,
            )@.cycle(0));
            return Err(Fatal::ProgramCounterOutOfRange);
        }
        let op = decode(self.fetch());
        let ghost fetched = self@;
        match self.fault(op) {
            Some(fatal) => {
                assert((self@, Err::<Report, Fatal>(fatal)) == old(self)@.cycle(0));
                Err(fatal)
            },
            None => {
                let report = self.execute(op);
                proof {
                    let random = choose|random: u8|
                        (self@, Ok::<Report, Fatal>(report)) == #[trigger] fetched.step(op, random);
                    assert((self@, Ok::<Report, Fatal>(report)) == old(self)@.cycle(random));
                }
                Ok(report)
            },
        }
    }
}

} // verus!
