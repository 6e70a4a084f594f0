use chip8::delay_timer::DelayTimer;
use chip8::index_register::IndexRegister;
use chip8::program_counter::{ProgramCounter, PC_MAX};
use chip8::sound_timer::SoundTimer;
use chip8::stack::{Stack, StackOverflow, STACK_CAPACITY};
use chip8::timer::Tick;
use chip8::variable_register::VariableRegister;

/// The address in slot `index`, which must have been stored to.
fn slot(stack: &Stack, index: usize) -> u16 {
    assert!(index < stack.get_stored());
    let mut copy = *stack;
    copy.set_pointer(index);
    copy.get_value_at_pointer()
}

#[test]
fn variable_register_starts_at_zero() {
    assert_eq!(VariableRegister::new().get(), 0);
}

#[test]
fn variable_register_holds_what_was_set() {
    let mut register = VariableRegister::new();
    for value in 0..=255u8 {
        register.set(value);
        assert_eq!(register.get(), value);
    }
}

#[test]
fn index_register_starts_at_zero() {
    assert_eq!(IndexRegister::new().get(), 0);
}

#[test]
fn index_register_holds_any_sixteen_bit_value() {
    let mut index = IndexRegister::new();
    for value in [0u16, 1, 0x200, 0x0fff, 0x1000, 0xffff] {
        index.set(value);
        assert_eq!(index.get(), value);
    }
}

#[test]
fn program_counter_starts_at_zero() {
    assert_eq!(ProgramCounter::new().get_point_value(), 0);
}

#[test]
fn program_counter_holds_every_address_up_to_its_maximum() {
    assert_eq!(PC_MAX, 4094);
    let mut pc = ProgramCounter::new();
    for address in [0u32, 2, 0x200, 0x201, 4093, 4094] {
        pc.set_point_value(address);
        assert_eq!(pc.get_point_value(), address);
    }
}

#[test]
fn delay_timer_starts_at_255() {
    assert_eq!(DelayTimer::new().get_value(), 255);
}

#[test]
fn sound_timer_starts_at_255() {
    assert_eq!(SoundTimer::new().get_value(), 255);
}

#[test]
fn delay_timer_tick_counts_down_by_one() {
    let mut timer = DelayTimer::new();
    assert_eq!(timer.tick(), Tick::Counted);
    assert_eq!(timer.get_value(), 254);
}

#[test]
fn delay_timer_stops_at_zero_and_never_wraps() {
    let mut timer = DelayTimer::new();
    for expected in (0..255u8).rev() {
        assert_eq!(timer.tick(), Tick::Counted);
        assert_eq!(timer.get_value(), expected);
    }
    for _ in 0..1000 {
        assert_eq!(timer.tick(), Tick::Idle);
        assert_eq!(timer.get_value(), 0);
    }
}

#[test]
fn sound_timer_stops_at_zero_and_never_wraps() {
    let mut timer = SoundTimer::new();
    for expected in (0..255u8).rev() {
        assert_eq!(timer.tick(), Tick::Counted);
        assert_eq!(timer.get_value(), expected);
    }
    for _ in 0..1000 {
        assert_eq!(timer.tick(), Tick::Idle);
        assert_eq!(timer.get_value(), 0);
    }
}

#[test]
fn stack_starts_empty_with_no_slot_stored_to() {
    let stack = Stack::new();
    assert_eq!(stack.get_pointer(), 0);
    assert_eq!(stack.get_stored(), 0);
}

#[test]
fn stack_push_writes_the_slot_at_the_pointer_and_leaves_the_pointer() {
    let mut stack = Stack::new();
    assert_eq!(stack.push(0x0abc), Ok(()));
    assert_eq!(stack.get_pointer(), 0);
    assert_eq!(stack.get_stored(), 1);
    assert_eq!(stack.get_value_at_pointer(), 0x0abc);
    assert_eq!(stack.push(0x0def), Ok(()));
    assert_eq!(stack.get_pointer(), 0);
    assert_eq!(stack.get_stored(), 1);
    assert_eq!(stack.get_value_at_pointer(), 0x0def);
}

#[test]
fn stack_counts_the_slots_stored_to() {
    let mut stack = Stack::new();
    for index in 0..5usize {
        assert_eq!(stack.push(0x0300 + index as u16), Ok(()));
        assert_eq!(stack.get_stored(), index + 1);
        stack.set_pointer(index + 1);
    }
    stack.pop();
    stack.pop();
    assert_eq!(stack.get_pointer(), 3);
    assert_eq!(stack.get_stored(), 5);
    assert_eq!(stack.push(0x0999), Ok(()));
    assert_eq!(stack.get_stored(), 5);
    assert_eq!(slot(&stack, 3), 0x0999);
    assert_eq!(slot(&stack, 4), 0x0304);
    assert_eq!(slot(&stack, 0), 0x0300);
}

#[test]
fn stack_pop_moves_the_pointer_down_to_the_popped_value() {
    let mut stack = Stack::new();
    assert_eq!(stack.push(0x0202), Ok(()));
    stack.set_pointer(1);
    assert_eq!(stack.push(0x0404), Ok(()));
    stack.set_pointer(2);
    stack.pop();
    assert_eq!(stack.get_pointer(), 1);
    assert_eq!(stack.get_value_at_pointer(), 0x0404);
    stack.pop();
    assert_eq!(stack.get_pointer(), 0);
    assert_eq!(stack.get_value_at_pointer(), 0x0202);
}

#[test]
fn stack_seventeenth_push_reports_overflow_and_keeps_sixteen_entries() {
    let mut stack = Stack::new();
    for index in 0..STACK_CAPACITY {
        assert_eq!(stack.push(0x0200 + 2 * index as u16), Ok(()));
        stack.set_pointer(index + 1);
    }
    assert_eq!(stack.get_pointer(), 16);
    assert_eq!(stack.get_stored(), 16);
    assert_eq!(stack.push(0x0fff), Err(StackOverflow));
    assert_eq!(stack.get_pointer(), 16);
    assert_eq!(stack.get_stored(), 16);
    for index in 0..STACK_CAPACITY {
        assert_eq!(slot(&stack, index), 0x0200 + 2 * index as u16);
    }
}

#[test]
fn stack_pointer_can_be_set_to_every_position_up_to_the_slots_stored_to() {
    let mut stack = Stack::new();
    for index in 0..STACK_CAPACITY {
        assert_eq!(stack.push(index as u16), Ok(()));
        stack.set_pointer(index + 1);
    }
    for pointer in 0..=STACK_CAPACITY {
        stack.set_pointer(pointer);
        assert_eq!(stack.get_pointer(), pointer);
        assert_eq!(stack.get_stored(), 16);
    }
}
