use tape_machine::{create_instructions, Error, Instruction};

#[test]
fn each_symbol_becomes_its_instruction() {
    let program = create_instructions(String::from("+-><,.")).unwrap();
    assert_eq!(
        program,
        vec![
            Instruction::Increment,
            Instruction::Decrement,
            Instruction::MoveNext,
            Instruction::MovePrevious,
            Instruction::Read,
            Instruction::Print,
        ]
    );
}

#[test]
fn empty_source_is_the_empty_program() {
    assert_eq!(create_instructions(String::new()), Ok(Vec::new()));
    assert_eq!(create_instructions(String::from("no symbols here")), Ok(Vec::new()));
}

#[test]
fn loops_carry_resolved_targets() {
    let program = create_instructions(String::from("[-]")).unwrap();
    assert_eq!(
        program,
        vec![
            Instruction::LoopStart { target: 2 },
            Instruction::Decrement,
            Instruction::LoopEnd { target: 0 },
        ]
    );
}

#[test]
fn nested_and_sequential_loops() {
    let program = create_instructions(String::from("[[]+[]][]")).unwrap();
    assert_eq!(
        program,
        vec![
            Instruction::LoopStart { target: 6 },
            Instruction::LoopStart { target: 2 },
            Instruction::LoopEnd { target: 1 },
            Instruction::Increment,
            Instruction::LoopStart { target: 5 },
            Instruction::LoopEnd { target: 4 },
            Instruction::LoopEnd { target: 0 },
            Instruction::LoopStart { target: 8 },
            Instruction::LoopEnd { target: 7 },
        ]
    );
}

#[test]
fn targets_count_instructions_not_characters() {
    let program = create_instructions(String::from("a [ b - c ] d")).unwrap();
    assert_eq!(
        program,
        vec![
            Instruction::LoopStart { target: 2 },
            Instruction::Decrement,
            Instruction::LoopEnd { target: 0 },
        ]
    );
}

#[test]
fn comments_do_not_change_the_program() {
    let with = "read: , then [ print . and read , again ] (done)\n\u{2603}";
    let without = ",[.,]";
    assert_eq!(
        create_instructions(String::from(with)),
        create_instructions(String::from(without))
    );
    let with = "x]y";
    assert_eq!(create_instructions(String::from(with)), create_instructions(String::from("]")));
}

#[test]
fn loop_targets_point_back() {
    let source = "++++++++[>++++[>++>+++>+++>+<<<<-]>+>+>->>+[<]<-]>>.>---.+++++++..+++.>>.<-.<.+++.------.--------.>>+.>++.";
    let program = create_instructions(String::from(source)).unwrap();
    let mut loops = 0;
    for (i, instruction) in program.iter().enumerate() {
        if let Instruction::LoopStart { target } = *instruction {
            assert!(i < target);
            assert_eq!(program[target], Instruction::LoopEnd { target: i });
            loops += 1;
        }
        if let Instruction::LoopEnd { target } = *instruction {
            assert!(target < i);
            assert_eq!(program[target], Instruction::LoopStart { target: i });
        }
    }
    assert_eq!(loops, 3);
}

#[test]
fn unmatched_close_is_a_syntax_error() {
    assert_eq!(create_instructions(String::from("]")), Err(Error::Syntax));
    assert_eq!(create_instructions(String::from("+[-]]")), Err(Error::Syntax));
    assert_eq!(create_instructions(String::from("][")), Err(Error::Syntax));
}

#[test]
fn unclosed_open_is_a_syntax_error() {
    assert_eq!(create_instructions(String::from("[")), Err(Error::Syntax));
    assert_eq!(create_instructions(String::from("[[-]")), Err(Error::Syntax));
    assert_eq!(create_instructions(String::from("[]+[ comment")), Err(Error::Syntax));
}
