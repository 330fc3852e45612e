//! The tape machine: a program, a tape of byte cells, a pointer into the
//! tape and an instruction pointer. The machine itself does no input or
//! output: a step reports what the host has to do, and the host hands the
//! outcome of a read back in.

use vstd::prelude::*;
use crate::error::Error;
use crate::program::Instruction;

verus! {

/// What the host has to do after a step.
#[derive(Clone, Copy, Debug, PartialEq, Eq, Structural)]
pub enum Action {
    /// Nothing: an instruction was carried out.
    Continue,
    /// Deliver this byte to the output sink: a `Print` was carried out.
    Output(u8),
    /// Read one byte from the input stream and hand the outcome to
    /// [`Machine::feed`]: the machine stands at a `Read`.
    Input,
    /// Nothing more: the instruction pointer is past the last instruction.
    Halt,
}

/// The outcome of the host's attempt to read one byte from the input stream.
#[derive(Clone, Copy, Debug, PartialEq, Eq, Structural)]
pub enum ReadEvent {
    /// A byte was read.
    Byte(u8),
    /// The stream has no more bytes.
    Exhausted,
    /// The stream failed.
    Failed,
}

/// The value of a cell after `Increment`: one more, modulo 256.
pub open spec fn cell_increment(x: u8) -> u8 {
    ((x + 1) % 256) as u8
}

/// The value of a cell after `Decrement`: one less, modulo 256.
pub open spec fn cell_decrement(x: u8) -> u8 {
    ((x - 1) % 256) as u8
}

/// The state of a machine as a mathematical value.
pub struct MachineView {
    /// The instructions of the program.
    pub program: Seq<Instruction>,
    /// The cells of the tape.
    pub tape: Seq<u8>,
    /// The position on the tape of the current cell.
    pub pointer: int,
    /// The position in the program of the next instruction.
    pub ip: int,
}

impl MachineView {
    /// The pointer is on the tape.
    pub open spec fn wf(self) -> bool {
        &&& 0 <= self.pointer < self.tape.len()
        &&& 0 <= self.ip
    }

    /// The state in which a run starts: every cell zero, both pointers zero.
    pub open spec fn initial(program: Seq<Instruction>, capacity: nat) -> MachineView {
        MachineView { program, tape: Seq::new(capacity, |i: int| 0u8), pointer: 0, ip: 0 }
    }

    /// The instruction pointer is past the last instruction.
    pub open spec fn halted(self) -> bool {
        self.ip >= self.program.len()
    }

    /// The instruction that is carried out next.
    pub open spec fn current(self) -> Instruction {
        self.program[self.ip]
    }

    /// The value of the cell under the pointer.
    pub open spec fn cell(self) -> u8 {
        self.tape[self.pointer]
    }

    /// This state with `value` in the cell under the pointer.
    pub open spec fn store(self, value: u8) -> MachineView {
        MachineView { tape: self.tape.update(self.pointer, value), ..self }
    }

    /// This state with the pointer at `pointer`.
    pub open spec fn point(self, pointer: int) -> MachineView {
        MachineView { pointer, ..self }
    }

    /// This state with the instruction pointer at `ip`.
    pub open spec fn jump(self, ip: int) -> MachineView {
        MachineView { ip, ..self }
    }

    /// This state with the instruction pointer one further.
    pub open spec fn advance(self) -> MachineView {
        self.jump(self.ip + 1)
    }

    /// What a step reports: the action for the host, or the failure.
    pub open spec fn step_result(self) -> Result<Action, Error> {
        if self.halted() {
            Ok(Action::Halt)
        } else {
            match self.current() {
                Instruction::MoveNext => if self.pointer + 1 < self.tape.len() {
                    Ok(Action::Continue)
                } else {
                    Err(Error::TapeBounds)
                },
                Instruction::MovePrevious => if self.pointer > 0 {
                    Ok(Action::Continue)
                } else {
                    Err(Error::TapeBounds)
                },
                Instruction::Read => Ok(Action::Input),
                Instruction::Print => Ok(Action::Output(self.cell())),
                _ => Ok(Action::Continue),
            }
        }
    }

    /// The state after a step. A step that fails, one that finds the machine
    /// halted and one that stands at a `Read` change nothing.
    pub open spec fn step_state(self) -> MachineView {
        if self.halted() || self.step_result() is Err {
            self
        } else {
            match self.current() {
                Instruction::Increment => self.store(cell_increment(self.cell())).advance(),
                Instruction::Decrement => self.store(cell_decrement(self.cell())).advance(),
                Instruction::MoveNext => self.point(self.pointer + 1).advance(),
                Instruction::MovePrevious => self.point(self.pointer - 1).advance(),
                Instruction::LoopStart { target } => if self.cell() == 0 {
                    self.jump(target as int)
                } else {
                    self.advance()
                },
                Instruction::LoopEnd { target } => if self.cell() != 0 {
                    self.jump(target as int)
                } else {
                    self.advance()
                },
                Instruction::Read => self,
                Instruction::Print => self.advance(),
            }
        }
    }

    /// The machine stands at a `Read` and waits for the outcome of a read.
    pub open spec fn awaits_input(self) -> bool {
        !self.halted() && self.current() == Instruction::Read
    }

    /// Whether handing in `event` fails: only a failed stream does, and only
    /// at a `Read`.
    pub open spec fn feed_result(self, event: ReadEvent) -> Result<(), Error> {
        if self.awaits_input() && event == ReadEvent::Failed {
            Err(Error::Stream)
        } else {
            Ok(())
        }
    }

    /// The state after `event` is handed in at a `Read`.
    ///
    /// An exhausted stream and a newline both store zero; a carriage return
    /// is dropped, and the `Read` stays pending; any other byte is stored as
    /// it is. Where the machine does not stand at a `Read`, nothing changes.
    pub open spec fn feed_state(self, event: ReadEvent) -> MachineView {
        if !self.awaits_input() {
            self
        } else {
            match event {
                ReadEvent::Byte(b) => if b == 13 {
                    self
                } else if b == 10 {
                    self.store(0).advance()
                } else {
                    self.store(b).advance()
                },
                ReadEvent::Exhausted => self.store(0).advance(),
                ReadEvent::Failed => self,
            }
        }
    }
}

/// Wraparound: one more than 255 is 0, one less than 0 is 255, and each of
/// `Increment` and `Decrement` undoes the other on every cell value.
pub proof fn lemma_wraparound(x: u8)
    ensures
        cell_increment(255) == 0,
        cell_decrement(0) == 255,
        cell_decrement(cell_increment(x)) == x,
        cell_increment(cell_decrement(x)) == x,
{
}

/// A step keeps the pointer on the tape, and changes neither the program
/// nor the capacity of the tape.
pub proof fn lemma_step_keeps_shape(v: MachineView)
    requires
        v.wf(),
    ensures
        v.step_state().wf(),
        v.step_state().program == v.program,
        v.step_state().tape.len() == v.tape.len(),
{
}

/// Handing in the outcome of a read keeps the pointer on the tape, and
/// changes neither the program nor the capacity of the tape.
pub proof fn lemma_feed_keeps_shape(v: MachineView, event: ReadEvent)
    requires
        v.wf(),
    ensures
        v.feed_state(event).wf(),
        v.feed_state(event).program == v.program,
        v.feed_state(event).tape.len() == v.tape.len(),
{
}

/// A step fails only by moving the pointer off the tape: `MovePrevious` on
/// the first cell or `MoveNext` on the last. The failed step changes
/// nothing, neither the tape nor either pointer.
pub proof fn lemma_failed_step_changes_nothing(v: MachineView)
    requires
        v.wf(),
    ensures
        v.step_result() is Err <==> !v.halted() && (v.current() == Instruction::MovePrevious
            && v.pointer == 0 || v.current() == Instruction::MoveNext && v.pointer
            == v.tape.len() - 1),
        v.step_result() is Err ==> v.step_result() == Err::<Action, Error>(Error::TapeBounds)
            && v.step_state() == v,
{
}

/// A carriage return handed to a pending `Read` is dropped: it does not
/// fail, and it changes neither the tape nor either pointer, so the `Read`
/// is still pending.
pub proof fn lemma_carriage_return_is_dropped(v: MachineView)
    ensures
        v.feed_result(ReadEvent::Byte(13)) is Ok,
        v.feed_state(ReadEvent::Byte(13)) == v,
{
}

/// An exhausted stream handed to a pending `Read` stores zero under the
/// pointer, and the run goes on with the next instruction.
pub proof fn lemma_exhausted_stream_stores_zero(v: MachineView)
    requires
        v.wf(),
        v.awaits_input(),
    ensures
        v.feed_result(ReadEvent::Exhausted) is Ok,
        v.feed_state(ReadEvent::Exhausted).cell() == 0,
        v.feed_state(ReadEvent::Exhausted).tape == v.tape.update(v.pointer, 0u8),
        v.feed_state(ReadEvent::Exhausted).pointer == v.pointer,
        v.feed_state(ReadEvent::Exhausted).ip == v.ip + 1,
{
}

/// The execution context of one run.
pub struct Machine {
    program: Vec<Instruction>,
    tape: Vec<u8>,
    pointer: usize,
    ip: usize,
}

impl View for Machine {
    type V = MachineView;

    closed spec fn view(&self) -> MachineView {
        MachineView {
            program: self.program@,
            tape: self.tape@,
            pointer: self.pointer as int,
            ip: self.ip as int,
        }
    }
}

impl Machine {
    /// A machine that is about to run `program` on a tape of `capacity`
    /// zeroed cells.
    pub fn new(program: Vec<Instruction>, capacity: usize) -> (machine: Machine)
        requires
            capacity >= 1,
        ensures
            machine@ == MachineView::initial(program@, capacity as nat),
            machine@.wf(),
    {
        let tape = vec![0u8; capacity];
        assert(tape@ =~= Seq::new(capacity as nat, |i: int| 0u8));
        Machine { program, tape, pointer: 0, ip: 0 }
    }

    /// Carries out the instruction under the instruction pointer, unless it
    /// is a `Read`, and reports what the host has to do.
    ///
    /// Arithmetic on a cell wraps modulo 256. Moving the pointer off either
    /// end of the tape fails with [`Error::TapeBounds`] and changes nothing.
    /// A loop instruction either sets the instruction pointer to its target
    /// or lets it advance by one.
    pub fn step(&mut self) -> (r: Result<Action, Error>)
        requires
            old(self)@.wf(),
        ensures
            r == old(self)@.step_result(),
            final(self)@ == old(self)@.step_state(),
            final(self)@.wf(),
    {
        if self.ip >= self.program.len() {
            return Ok(Action::Halt);
        }
        let cell = self.tape[self.pointer];
        match self.program[self.ip] {
            Instruction::Increment => {
                self.tape.set(self.pointer, cell.wrapping_add(1));
                self.ip = self.ip + 1;
                Ok(Action::Continue)
            },
            Instruction::Decrement => {
                self.tape.set(self.pointer, cell.wrapping_sub(1));
                self.ip = self.ip + 1;
                Ok(Action::Continue)
            },
            Instruction::MoveNext => {
                if self.pointer >= self.tape.len() - 1 {
                    return Err(Error::TapeBounds);
                }
                self.pointer = self.pointer + 1;
                self.ip = self.ip + 1;
                Ok(Action::Continue)
            },
            Instruction::MovePrevious => {
                if self.pointer == 0 {
                    return Err(Error::TapeBounds);
                }
                self.pointer = self.pointer - 1;
                self.ip = self.ip + 1;
                Ok(Action::Continue)
            },
            Instruction::LoopStart { target } => {
                if cell == 0 {
                    self.ip = target;
                } else {
                    self.ip = self.ip + 1;
                }
                Ok(Action::Continue)
            },
            Instruction::LoopEnd { target } => {
                if cell != 0 {
                    self.ip = target;
                } else {
                    self.ip = self.ip + 1;
                }
                Ok(Action::Continue)
            },
            Instruction::Read => Ok(Action::Input),
            Instruction::Print => {
                self.ip = self.ip + 1;
                Ok(Action::Output(cell))
            },
        }
    }

    /// Hands the outcome of one read to the `Read` at which the machine stands.
    ///
    /// An exhausted stream stores zero and the run goes on. A carriage
    /// return (13) is dropped: no cell changes and the `Read` stays pending,
    /// so the host reads again. A newline (10) stores zero, not 10. Any
    /// other byte is stored as it is. A failed stream fails with
    /// [`Error::Stream`] and changes nothing. Where the machine does not
    /// stand at a `Read`, the event is ignored.
    pub fn feed(&mut self, event: ReadEvent) -> (r: Result<(), Error>)
        requires
            old(self)@.wf(),
        ensures
            r == old(self)@.feed_result(event),
            final(self)@ == old(self)@.feed_state(event),
            final(self)@.wf(),
    {
        if self.ip >= self.program.len() {
            return Ok(());
        }
        match self.program[self.ip] {
            Instruction::Read => {},
            _ => {
                return Ok(());
            },
        }
        match event {
            ReadEvent::Byte(13) => Ok(()),
            ReadEvent::Byte(10) | ReadEvent::Exhausted => {
                self.tape.set(self.pointer, 0);
                self.ip = self.ip + 1;
                Ok(())
            },
            ReadEvent::Byte(b) => {
                self.tape.set(self.pointer, b);
                self.ip = self.ip + 1;
                Ok(())
            },
            ReadEvent::Failed => Err(Error::Stream),
        }
    }

    /// Whether the instruction pointer is past the last instruction.
    pub fn is_halted(&self) -> (halted: bool)
        ensures
            halted == self@.halted(),
    {
        self.ip >= self.program.len()
    }

    /// The tape.
    pub fn tape(&self) -> (tape: &Vec<u8>)
        ensures
            tape@ == self@.tape,
    {
        &self.tape
    }

    /// The position of the cell under the pointer.
    pub fn pointer(&self) -> (pointer: usize)
        ensures
            pointer == self@.pointer,
    {
        self.pointer
    }

    /// The position of the instruction that is carried out next.
    pub fn instruction_pointer(&self) -> (ip: usize)
        ensures
            ip == self@.ip,
    {
        self.ip
    }

    /// Ends the run and hands out the tape.
    pub fn into_tape(self) -> (tape: Vec<u8>)
        ensures
            tape@ == self@.tape,
    {
        self.tape
    }
}

} // verus!
