use tape_machine::{Action, Error, Instruction, Machine, ReadEvent};

#[test]
fn a_new_machine_is_zeroed() {
    let machine = Machine::new(vec![Instruction::Increment], 4);
    assert_eq!(machine.tape(), &vec![0, 0, 0, 0]);
    assert_eq!(machine.pointer(), 0);
    assert_eq!(machine.instruction_pointer(), 0);
    assert!(!machine.is_halted());
}

#[test]
fn increment_wraps_from_255_to_0() {
    let mut machine = Machine::new(vec![Instruction::Read, Instruction::Increment], 1);
    assert_eq!(machine.step(), Ok(Action::Input));
    assert_eq!(machine.feed(ReadEvent::Byte(255)), Ok(()));
    assert_eq!(machine.step(), Ok(Action::Continue));
    assert_eq!(machine.tape()[0], 0);
}

#[test]
fn decrement_wraps_from_0_to_255() {
    let mut machine = Machine::new(vec![Instruction::Decrement], 1);
    assert_eq!(machine.step(), Ok(Action::Continue));
    assert_eq!(machine.tape()[0], 255);
    assert_eq!(machine.step(), Ok(Action::Halt));
}

#[test]
fn decrement_undoes_increment_on_every_value() {
    for value in 0..=255u8 {
        if value == 10 || value == 13 {
            continue;
        }
        let program = vec![Instruction::Read, Instruction::Increment, Instruction::Decrement];
        let mut machine = Machine::new(program, 1);
        machine.step().unwrap();
        machine.feed(ReadEvent::Byte(value)).unwrap();
        assert_eq!(machine.tape()[0], value);
        machine.step().unwrap();
        assert_eq!(machine.tape()[0], value.wrapping_add(1));
        machine.step().unwrap();
        assert_eq!(machine.tape()[0], value);
    }
}

#[test]
fn move_previous_on_the_first_cell_fails_and_changes_nothing() {
    let program = vec![Instruction::Increment, Instruction::MovePrevious];
    let mut machine = Machine::new(program, 3);
    assert_eq!(machine.step(), Ok(Action::Continue));
    assert_eq!(machine.step(), Err(Error::TapeBounds));
    assert_eq!(machine.tape(), &vec![1, 0, 0]);
    assert_eq!(machine.pointer(), 0);
    assert_eq!(machine.instruction_pointer(), 1);
    assert_eq!(machine.step(), Err(Error::TapeBounds));
}

#[test]
fn move_next_on_the_last_cell_fails_and_changes_nothing() {
    let program = vec![Instruction::MoveNext, Instruction::MoveNext];
    let mut machine = Machine::new(program, 2);
    assert_eq!(machine.step(), Ok(Action::Continue));
    assert_eq!(machine.pointer(), 1);
    assert_eq!(machine.step(), Err(Error::TapeBounds));
    assert_eq!(machine.pointer(), 1);
    assert_eq!(machine.instruction_pointer(), 1);
    assert_eq!(machine.tape(), &vec![0, 0]);
}

#[test]
fn moves_stay_on_the_tape() {
    let program = vec![Instruction::MoveNext, Instruction::MovePrevious];
    let mut machine = Machine::new(program, 2);
    machine.step().unwrap();
    assert_eq!(machine.pointer(), 1);
    machine.step().unwrap();
    assert_eq!(machine.pointer(), 0);
    assert!(machine.is_halted());
}

#[test]
fn carriage_return_is_dropped_and_the_read_stays_pending() {
    let mut machine = Machine::new(vec![Instruction::Increment, Instruction::Read], 2);
    machine.step().unwrap();
    assert_eq!(machine.step(), Ok(Action::Input));
    assert_eq!(machine.feed(ReadEvent::Byte(0x0D)), Ok(()));
    assert_eq!(machine.tape(), &vec![1, 0]);
    assert_eq!(machine.pointer(), 0);
    assert_eq!(machine.instruction_pointer(), 1);
    assert_eq!(machine.step(), Ok(Action::Input));
    assert_eq!(machine.feed(ReadEvent::Byte(0x41)), Ok(()));
    assert_eq!(machine.tape(), &vec![65, 0]);
    assert_eq!(machine.instruction_pointer(), 2);
    assert_eq!(machine.step(), Ok(Action::Halt));
}

#[test]
fn exhausted_stream_stores_zero_and_advances() {
    let mut machine = Machine::new(vec![Instruction::Increment, Instruction::Read], 1);
    machine.step().unwrap();
    assert_eq!(machine.tape()[0], 1);
    assert_eq!(machine.step(), Ok(Action::Input));
    assert_eq!(machine.feed(ReadEvent::Exhausted), Ok(()));
    assert_eq!(machine.tape()[0], 0);
    assert_eq!(machine.instruction_pointer(), 2);
    assert!(machine.is_halted());
}

#[test]
fn newline_stores_zero_not_ten() {
    let mut machine = Machine::new(vec![Instruction::Increment, Instruction::Read], 1);
    machine.step().unwrap();
    machine.step().unwrap();
    assert_eq!(machine.feed(ReadEvent::Byte(0x0A)), Ok(()));
    assert_eq!(machine.tape()[0], 0);
    assert_eq!(machine.instruction_pointer(), 2);
}

#[test]
fn failed_stream_is_a_stream_error_and_changes_nothing() {
    let mut machine = Machine::new(vec![Instruction::Increment, Instruction::Read], 1);
    machine.step().unwrap();
    machine.step().unwrap();
    assert_eq!(machine.feed(ReadEvent::Failed), Err(Error::Stream));
    assert_eq!(machine.tape()[0], 1);
    assert_eq!(machine.instruction_pointer(), 1);
    assert_eq!(machine.step(), Ok(Action::Input));
}

#[test]
fn an_event_is_ignored_where_no_read_is_pending() {
    let mut machine = Machine::new(vec![Instruction::Increment], 1);
    assert_eq!(machine.feed(ReadEvent::Byte(5)), Ok(()));
    assert_eq!(machine.feed(ReadEvent::Failed), Ok(()));
    assert_eq!(machine.tape()[0], 0);
    assert_eq!(machine.instruction_pointer(), 0);
    machine.step().unwrap();
    assert_eq!(machine.feed(ReadEvent::Byte(5)), Ok(()));
    assert_eq!(machine.tape()[0], 1);
    assert_eq!(machine.instruction_pointer(), 1);
}

#[test]
fn read_does_not_move_until_fed() {
    let mut machine = Machine::new(vec![Instruction::Read], 1);
    assert_eq!(machine.step(), Ok(Action::Input));
    assert_eq!(machine.step(), Ok(Action::Input));
    assert_eq!(machine.instruction_pointer(), 0);
}

#[test]
fn print_reports_the_cell() {
    let program = vec![Instruction::Increment, Instruction::Increment, Instruction::Print];
    let mut machine = Machine::new(program, 1);
    machine.step().unwrap();
    machine.step().unwrap();
    assert_eq!(machine.step(), Ok(Action::Output(2)));
    assert_eq!(machine.instruction_pointer(), 3);
}

#[test]
fn loop_start_jumps_on_zero_and_falls_through_otherwise() {
    let program = vec![
        Instruction::LoopStart { target: 2 },
        Instruction::Increment,
        Instruction::LoopEnd { target: 0 },
    ];
    let mut machine = Machine::new(program, 1);
    assert_eq!(machine.step(), Ok(Action::Continue));
    assert_eq!(machine.instruction_pointer(), 2);
    assert_eq!(machine.step(), Ok(Action::Continue));
    assert_eq!(machine.instruction_pointer(), 3);
    assert_eq!(machine.step(), Ok(Action::Halt));
    assert_eq!(machine.tape()[0], 0);

    let program = vec![
        Instruction::Increment,
        Instruction::LoopStart { target: 3 },
        Instruction::Decrement,
        Instruction::LoopEnd { target: 1 },
    ];
    let mut machine = Machine::new(program, 1);
    machine.step().unwrap();
    machine.step().unwrap();
    assert_eq!(machine.instruction_pointer(), 2);
}

#[test]
fn loop_end_jumps_back_on_nonzero_and_falls_through_on_zero() {
    let program = vec![
        Instruction::Increment,
        Instruction::Increment,
        Instruction::LoopStart { target: 4 },
        Instruction::Decrement,
        Instruction::LoopEnd { target: 2 },
    ];
    let mut machine = Machine::new(program, 1);
    for _ in 0..4 {
        machine.step().unwrap();
    }
    assert_eq!(machine.tape()[0], 1);
    assert_eq!(machine.instruction_pointer(), 4);
    machine.step().unwrap();
    assert_eq!(machine.instruction_pointer(), 2);
    machine.step().unwrap();
    machine.step().unwrap();
    assert_eq!(machine.tape()[0], 0);
    assert_eq!(machine.instruction_pointer(), 4);
    machine.step().unwrap();
    assert_eq!(machine.instruction_pointer(), 5);
    assert_eq!(machine.step(), Ok(Action::Halt));
}

#[test]
fn a_halted_machine_stays_halted() {
    let mut machine = Machine::new(Vec::new(), 1);
    assert!(machine.is_halted());
    assert_eq!(machine.step(), Ok(Action::Halt));
    assert_eq!(machine.step(), Ok(Action::Halt));
    assert_eq!(machine.into_tape(), vec![0]);
}
