//! Runs against streams held in memory: the input is a slice of bytes, the
//! output sink a vector, and a step budget bounds the run.

use vstd::prelude::*;
use crate::compiler::create_instructions;
use crate::error::Error;
use crate::machine::{
    lemma_feed_keeps_shape, lemma_step_keeps_shape, Action, Machine, MachineView, ReadEvent,
};
use crate::program::{compiled, Instruction};
use crate::syntax::valid_source;
use crate::validator::validate;

verus! {

/// A run in progress as a mathematical value: the machine, the input that
/// is still unread and the output delivered so far.
pub struct Run {
    pub machine: MachineView,
    pub input: Seq<u8>,
    pub output: Seq<u8>,
}

/// How a run ended: the state it ended in, and whether it halted.
pub struct Outcome {
    pub end: Run,
    pub result: Result<(), Error>,
}

/// What a read on `input` yields: its first byte, or the news that it is
/// exhausted. A stream held in memory never fails.
pub open spec fn next_event(input: Seq<u8>) -> ReadEvent {
    if input.len() > 0 {
        ReadEvent::Byte(input[0])
    } else {
        ReadEvent::Exhausted
    }
}

/// The input that is left after one read.
pub open spec fn after_read(input: Seq<u8>) -> Seq<u8> {
    if input.len() > 0 {
        input.drop_first()
    } else {
        input
    }
}

impl Run {
    /// The start of a run of `program` on a zeroed tape of `capacity` cells.
    pub open spec fn start(
        program: Seq<Instruction>,
        capacity: nat,
        input: Seq<u8>,
        output: Seq<u8>,
    ) -> Run {
        Run { machine: MachineView::initial(program, capacity), input, output }
    }

    /// The run after one instruction that does not fail. A `Print` appends
    /// the cell to the output at once; a `Read` takes one byte off the input
    /// and hands it to the machine.
    pub open spec fn tick(self) -> Run {
        match self.machine.step_result() {
            Ok(Action::Input) => Run {
                machine: self.machine.feed_state(next_event(self.input)),
                input: after_read(self.input),
                output: self.output,
            },
            Ok(Action::Output(byte)) => Run {
                machine: self.machine.step_state(),
                input: self.input,
                output: self.output.push(byte),
            },
            _ => Run { machine: self.machine.step_state(), ..self },
        }
    }

    /// The run carried on for at most `budget` instructions.
    ///
    /// It ends with `Ok` where the machine has halted, with the failure of
    /// the instruction that failed, and with [`Error::StepLimit`] where the
    /// budget is spent and the machine has not halted.
    pub open spec fn run(self, budget: nat) -> Outcome
        decreases budget,
    {
        if self.machine.halted() {
            Outcome { end: self, result: Ok(()) }
        } else if budget == 0 {
            Outcome { end: self, result: Err(Error::StepLimit) }
        } else {
            match self.machine.step_result() {
                Err(e) => Outcome { end: self, result: Err(e) },
                Ok(_) => self.tick().run((budget - 1) as nat),
            }
        }
    }
}

/// A run keeps the pointer on the tape, changes neither the program nor the
/// capacity of the tape, and only ever appends to the output.
pub proof fn lemma_run_keeps_shape(run: Run, budget: nat)
    requires
        run.machine.wf(),
    ensures
        run.run(budget).end.machine.wf(),
        run.run(budget).end.machine.program == run.machine.program,
        run.run(budget).end.machine.tape.len() == run.machine.tape.len(),
        run.output.is_prefix_of(run.run(budget).end.output),
    decreases budget,
{
    if !run.machine.halted() && budget > 0 && run.machine.step_result() is Ok {
        lemma_step_keeps_shape(run.machine);
        lemma_feed_keeps_shape(run.machine, next_event(run.input));
        lemma_run_keeps_shape(run.tick(), (budget - 1) as nat);
    }
}

/// A run that halts within a budget ends the same way within any larger one.
pub proof fn lemma_run_budget_monotone(run: Run, budget: nat, more: nat)
    requires
        budget <= more,
        run.run(budget).result != Err::<(), Error>(Error::StepLimit),
    ensures
        run.run(more) == run.run(budget),
    decreases budget,
{
    if !run.machine.halted() && budget > 0 && run.machine.step_result() is Ok {
        lemma_run_budget_monotone(run.tick(), (budget - 1) as nat, (more - 1) as nat);
    }
}

/// A run against streams held in memory fails only by moving the pointer
/// off the tape or by spending its budget: such a stream never fails.
pub proof fn lemma_run_failures(run: Run, budget: nat)
    ensures
        run.run(budget).result is Err ==> run.run(budget).result == Err::<(), Error>(
            Error::TapeBounds,
        ) || run.run(budget).result == Err::<(), Error>(Error::StepLimit),
        run.run(budget).result is Ok <==> run.run(budget).end.machine.halted(),
    decreases budget,
{
    if !run.machine.halted() && budget > 0 && run.machine.step_result() is Ok {
        lemma_run_failures(run.tick(), (budget - 1) as nat);
    }
}

/// Runs `instructions` on a zeroed tape of `capacity` cells and returns the
/// final tape.
///
/// `Read` takes its bytes from `input`, one at a time, and finds the stream
/// exhausted behind the last one. `Print` appends to `output` as it happens,
/// so what a run printed before it failed is there. At most `max_steps`
/// instructions are carried out.
///
/// Fails with [`Error::TapeBounds`] where the pointer is moved off the
/// tape, and with [`Error::StepLimit`] where the program has not halted
/// when the budget is spent.
pub fn interpreter(
    instructions: Vec<Instruction>,
    capacity: usize,
    input: &[u8],
    output: &mut Vec<u8>,
    max_steps: u64,
) -> (r: Result<Vec<u8>, Error>)
    requires
        capacity >= 1,
    ensures
        ({
            let outcome = Run::start(instructions@, capacity as nat, input@, old(output)@).run(
                max_steps as nat,
            );
            &&& final(output)@ == outcome.end.output
            &&& match r {
                Ok(tape) => outcome.result is Ok && tape@ == outcome.end.machine.tape,
                Err(e) => outcome.result == Err::<(), Error>(e),
            }
        }),
        r matches Ok(tape) ==> tape@.len() == capacity,
{
    let ghost first = Run::start(instructions@, capacity as nat, input@, output@);
    let mut machine = Machine::new(instructions, capacity);
    let mut consumed: usize = 0;
    let mut remaining: u64 = max_steps;
    assert(input@.skip(0) =~= input@);
    loop
        invariant
            first == Run::start(instructions@, capacity as nat, input@, old(output)@),
            machine@.wf(),
            machine@.tape.len() == capacity,
            consumed <= input@.len(),
            first.run(max_steps as nat) == (Run {
                machine: machine@,
                input: input@.skip(consumed as int),
                output: output@,
            }).run(remaining as nat),
        decreases remaining,
    {
        let ghost now = Run {
            machine: machine@,
            input: input@.skip(consumed as int),
            output: output@,
        };
        if machine.is_halted() {
            return Ok(machine.into_tape());
        }
        if remaining == 0 {
            return Err(Error::StepLimit);
        }
        remaining = remaining - 1;
        match machine.step() {
            Err(e) => {
                return Err(e);
            },
            Ok(Action::Output(byte)) => {
                output.push(byte);
            },
            Ok(Action::Input) => {
                let event = if consumed < input.len() {
                    let byte = input[consumed];
                    consumed = consumed + 1;
                    ReadEvent::Byte(byte)
                } else {
                    ReadEvent::Exhausted
                };
                assert(input@.skip(consumed as int) =~= after_read(now.input));
                match machine.feed(event) {
                    Ok(()) => {},
                    Err(e) => {
                        return Err(e);
                    },
                }
            },
            Ok(_) => {},
        }
        assert(now.tick() == (Run {
            machine: machine@,
            input: input@.skip(consumed as int),
            output: output@,
        }));
    }
}

/// Checks `input` with the strict gate, compiles it and runs it as
/// [`interpreter`] does.
///
/// Fails with [`Error::Syntax`], before anything runs, exactly when
/// [`validate`] rejects the source.
pub fn interpret(
    input: String,
    capacity: usize,
    stdin: &[u8],
    output: &mut Vec<u8>,
    max_steps: u64,
) -> (r: Result<Vec<u8>, Error>)
    requires
        capacity >= 1,
    ensures
        !valid_source(input@) ==> r == Err::<Vec<u8>, Error>(Error::Syntax) && final(output)@
            == old(output)@,
        valid_source(input@) ==> ({
            let outcome = Run::start(
                compiled(input@),
                capacity as nat,
                stdin@,
                old(output)@,
            ).run(max_steps as nat);
            &&& final(output)@ == outcome.end.output
            &&& match r {
                Ok(tape) => outcome.result is Ok && tape@ == outcome.end.machine.tape,
                Err(e) => outcome.result == Err::<(), Error>(e),
            }
        }),
        r matches Ok(tape) ==> tape@.len() == capacity,
{
    if !validate(input.clone()) {
        return Err(Error::Syntax);
    }
    match create_instructions(input) {
        Ok(instructions) => interpreter(instructions, capacity, stdin, output, max_steps),
        Err(e) => {
            proof {
                crate::syntax::lemma_valid_source_is_balanced(input@);
            }
            Err(e)
        },
    }
}

} // verus!
