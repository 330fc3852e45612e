//! Instructions, and what it means for a sequence of them to be a program.

use vstd::prelude::*;
use crate::syntax::{
    balanced, close_of, lemma_close_exists, lemma_close_unique, lemma_open_exists,
    lemma_open_unique, lemma_pairs_nest, lemma_symbols_idempotent, open_of, paired, symbols,
};

verus! {

/// One instruction of a compiled program. A loop instruction carries the
/// position of its partner in the instruction sequence.
#[derive(Clone, Copy, Debug, PartialEq, Eq, Structural)]
pub enum Instruction {
    /// `+`: add one to the cell under the pointer, modulo 256.
    Increment,
    /// `-`: take one from the cell under the pointer, modulo 256.
    Decrement,
    /// `>`: move the pointer one cell to the right.
    MoveNext,
    /// `<`: move the pointer one cell to the left.
    MovePrevious,
    /// `[`: where the cell under the pointer is zero, go to `target`, the
    /// `LoopEnd` of this loop.
    LoopStart { target: usize },
    /// `]`: where the cell under the pointer is not zero, go back to
    /// `target`, the `LoopStart` of this loop.
    LoopEnd { target: usize },
    /// `,`: read one byte from the input stream into the cell under the
    /// pointer.
    Read,
    /// `.`: send the cell under the pointer to the output sink.
    Print,
}

/// The instruction that the symbol at position `k` of `ops` compiles to.
pub open spec fn instruction_at(ops: Seq<char>, k: int) -> Instruction {
    let c = ops[k];
    if c == '+' {
        Instruction::Increment
    } else if c == '-' {
        Instruction::Decrement
    } else if c == '>' {
        Instruction::MoveNext
    } else if c == '<' {
        Instruction::MovePrevious
    } else if c == '[' {
        Instruction::LoopStart { target: close_of(ops, k) as usize }
    } else if c == ']' {
        Instruction::LoopEnd { target: open_of(ops, k) as usize }
    } else if c == ',' {
        Instruction::Read
    } else {
        Instruction::Print
    }
}

/// The program that a source compiles to: one instruction for each symbol,
/// in order, and nothing for any other character.
pub open spec fn compiled(source: Seq<char>) -> Seq<Instruction> {
    let ops = symbols(source);
    Seq::new(ops.len(), |k: int| instruction_at(ops, k))
}

/// Every loop instruction points at its partner, which points back, and
/// loops do not cross.
pub open spec fn well_formed(p: Seq<Instruction>) -> bool {
    &&& forall|i: int|
        0 <= i < p.len() ==> (#[trigger] p[i] matches Instruction::LoopStart { target } ==> i
            < target < p.len() && p[target as int] == Instruction::LoopEnd { target: i as usize })
    &&& forall|j: int|
        0 <= j < p.len() ==> (#[trigger] p[j] matches Instruction::LoopEnd { target } ==> target
            < j && p[target as int] == Instruction::LoopStart { target: j as usize })
    &&& forall|i1: int, i2: int|
        0 <= i1 < i2 < p.len() ==> (#[trigger] p[i1] matches Instruction::LoopStart {
            target: j1,
        } ==> (#[trigger] p[i2] matches Instruction::LoopStart { target: j2 } ==> i2 < j1 ==> j2
            < j1))
}

/// Bracket round trip: in the program compiled from a source with balanced
/// brackets, the target of every `LoopStart` is a `LoopEnd` whose target is
/// that `LoopStart`, and the other way round, and loops nest.
pub proof fn lemma_compiled_well_formed(source: Seq<char>)
    requires
        balanced(symbols(source)),
        symbols(source).len() <= usize::MAX,
    ensures
        well_formed(compiled(source)),
{
    let ops = symbols(source);
    let p = compiled(source);
    assert forall|i: int| 0 <= i < ops.len() && ops[i] == '[' implies paired(
        ops,
        i,
        close_of(ops, i),
    ) by {
        lemma_close_exists(ops, i, i + 1);
    }
    assert forall|j: int| 0 <= j < ops.len() && ops[j] == ']' implies paired(
        ops,
        open_of(ops, j),
        j,
    ) by {
        lemma_open_exists(ops, j, j);
    }
    assert forall|i: int| 0 <= i < p.len() implies (#[trigger] p[i] matches Instruction::LoopStart {
        target,
    } ==> i < target < p.len() && p[target as int] == Instruction::LoopEnd {
        target: i as usize,
    }) by {
        if p[i] is LoopStart {
            let j = close_of(ops, i);
            lemma_open_unique(ops, i, open_of(ops, j), j);
        }
    }
    assert forall|j: int| 0 <= j < p.len() implies (#[trigger] p[j] matches Instruction::LoopEnd {
        target,
    } ==> target < j && p[target as int] == Instruction::LoopStart { target: j as usize }) by {
        if p[j] is LoopEnd {
            let i = open_of(ops, j);
            lemma_close_unique(ops, i, j, close_of(ops, i));
        }
    }
    assert forall|i1: int, i2: int| 0 <= i1 < i2 < p.len() implies (#[trigger] p[i1] matches Instruction::LoopStart {
        target: j1,
    } ==> (#[trigger] p[i2] matches Instruction::LoopStart { target: j2 } ==> i2 < j1 ==> j2
        < j1)) by {
        if p[i1] is LoopStart && p[i2] is LoopStart && i2 < close_of(ops, i1) {
            lemma_pairs_nest(ops, i1, close_of(ops, i1), i2, close_of(ops, i2));
        }
    }
}

/// Comments do not count: a source compiles to what it compiles to with
/// every character that is not a symbol removed, and is accepted or
/// rejected as that is.
pub proof fn lemma_comments_ignored(source: Seq<char>)
    ensures
        compiled(symbols(source)) == compiled(source),
        balanced(symbols(symbols(source))) == balanced(symbols(source)),
{
    lemma_symbols_idempotent(source);
}

} // verus!
