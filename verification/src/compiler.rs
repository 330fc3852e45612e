//! The compiler: one pass over the source, loop targets resolved by a stack
//! of the positions of the loops that are still open.

use std::collections::VecDeque;
use vstd::prelude::*;
use crate::error::Error;
use crate::program::{
    compiled, instruction_at, lemma_compiled_well_formed, well_formed, Instruction,
};
use crate::syntax::{
    balanced, close_of, depth, is_symbol, lemma_close_unique, lemma_open_unique, open_of,
    paired, symbols,
};

verus! {

/// The `[` at `s` is the `k`-th loop that is still open after `n` symbols.
spec fn open_at(ops: Seq<char>, n: int, k: int, s: int) -> bool {
    &&& 0 <= s < n
    &&& ops[s] == '['
    &&& depth(ops, s) == k
    &&& forall|m: int| s < m <= n ==> #[trigger] depth(ops, m) > k
}

/// `stack` holds the loops that are still open after `n` symbols, innermost last.
spec fn stack_ok(ops: Seq<char>, n: int, stack: Seq<usize>) -> bool {
    &&& stack.len() == depth(ops, n)
    &&& forall|k: int| 0 <= k < stack.len() ==> open_at(ops, n, k, #[trigger] stack[k] as int)
}

/// The instruction emitted for the symbol at `idx` is final, or it is the
/// placeholder of a loop that is still on the stack.
spec fn slot_ok(ops: Seq<char>, ins: Instruction, stack: Seq<usize>, idx: int) -> bool {
    let c = ops[idx];
    if c == '[' {
        ins matches Instruction::LoopStart { target } && (paired(ops, idx, target as int) || (0
            <= depth(ops, idx) < stack.len() && stack[depth(ops, idx)] == idx))
    } else if c == ']' {
        ins matches Instruction::LoopEnd { target } && paired(ops, target as int, idx)
    } else {
        ins == instruction_at(ops, idx)
    }
}

/// What holds between the symbols `ops`, the instructions emitted so far
/// and the stack of open loops.
spec fn scanned(ops: Seq<char>, out: Seq<Instruction>, stack: Seq<usize>) -> bool {
    &&& out.len() <= ops.len()
    &&& forall|m: int| 0 <= m <= out.len() ==> #[trigger] depth(ops, m) >= 0
    &&& stack_ok(ops, out.len() as int, stack)
    &&& forall|idx: int| 0 <= idx < out.len() ==> slot_ok(ops, #[trigger] out[idx], stack, idx)
}

/// The symbols of a prefix of the source are a prefix of its symbols, and
/// one more character adds itself to them if it is a symbol.
proof fn lemma_symbols_step(source: Seq<char>, i: int)
    requires
        0 <= i < source.len(),
    ensures
        symbols(source.take(i + 1)) == if is_symbol(source[i]) {
            symbols(source.take(i)).push(source[i])
        } else {
            symbols(source.take(i))
        },
        symbols(source.take(i + 1)).len() <= symbols(source).len(),
        symbols(source).take(symbols(source.take(i + 1)).len() as int) == symbols(
            source.take(i + 1),
        ),
{
    let pred = |c: char| is_symbol(c);
    assert(source.take(i + 1) =~= source.take(i).push(source[i]));
    source.take(i).lemma_filter_push(source[i], pred);
    assert(source =~= source.take(i + 1) + source.skip(i + 1));
    Seq::filter_distributes_over_add(source.take(i + 1), source.skip(i + 1), pred);
    assert(symbols(source).take(symbols(source.take(i + 1)).len() as int) =~= symbols(
        source.take(i + 1),
    ));
}

/// Emitting the instruction of a symbol that is no bracket.
proof fn lemma_scan_plain(ops: Seq<char>, out: Seq<Instruction>, stack: Seq<usize>)
    requires
        scanned(ops, out, stack),
        out.len() < ops.len(),
        ops[out.len() as int] != '[',
        ops[out.len() as int] != ']',
    ensures
        scanned(ops, out.push(instruction_at(ops, out.len() as int)), stack),
{
}

/// Opening a loop: its position goes on the stack, a placeholder is emitted.
proof fn lemma_scan_open(ops: Seq<char>, out: Seq<Instruction>, stack: Seq<usize>)
    requires
        scanned(ops, out, stack),
        out.len() < ops.len(),
        out.len() <= usize::MAX,
        ops[out.len() as int] == '[',
    ensures
        scanned(
            ops,
            out.push(Instruction::LoopStart { target: 0 }),
            stack.push(out.len() as usize),
        ),
{
}

/// Closing the innermost open loop: both of its instructions become final.
proof fn lemma_scan_close(ops: Seq<char>, out: Seq<Instruction>, stack: Seq<usize>)
    requires
        scanned(ops, out, stack),
        out.len() < ops.len(),
        out.len() <= usize::MAX,
        ops[out.len() as int] == ']',
        stack.len() > 0,
    ensures
        stack.last() < out.len(),
        scanned(
            ops,
            out.push(Instruction::LoopEnd { target: stack.last() }).update(
                stack.last() as int,
                Instruction::LoopStart { target: out.len() as usize },
            ),
            stack.drop_last(),
        ),
{
}

/// Once every symbol is scanned and no loop is open, the instructions
/// emitted are the compiled program, and it is well formed.
proof fn lemma_scan_done(source: Seq<char>, out: Seq<Instruction>)
    requires
        scanned(symbols(source), out, Seq::<usize>::empty()),
        out.len() == symbols(source).len(),
        out.len() <= usize::MAX,
    ensures
        balanced(symbols(source)),
        out == compiled(source),
        well_formed(out),
{
    let ops = symbols(source);
    assert forall|idx: int| 0 <= idx < out.len() implies out[idx] == instruction_at(ops, idx) by {
        if ops[idx] == '[' {
            let t = out[idx]->LoopStart_target as int;
            lemma_close_unique(ops, idx, t, close_of(ops, idx));
        } else if ops[idx] == ']' {
            let t = out[idx]->LoopEnd_target as int;
            lemma_open_unique(ops, t, open_of(ops, idx), idx);
        }
    }
    lemma_compiled_well_formed(source);
}

/// Compiles source text into a program.
///
/// The source is scanned once, left to right. Each of the eight symbols
/// becomes one instruction; any other character is a comment and is skipped.
/// A `[` is emitted with a placeholder target and its position is pushed; the
/// `]` that closes it pops that position, takes it as its own target and
/// writes its own position back into the `[`.
///
/// Fails with [`Error::Syntax`] exactly when the brackets are not balanced: a
/// `]` with no open `[` before it, or a `[` that is never closed.
pub fn create_instructions(input: String) -> (r: Result<Vec<Instruction>, Error>)
    ensures
        r is Ok <==> balanced(symbols(input@)),
        r matches Ok(program) ==> program@ == compiled(input@) && well_formed(program@),
        r matches Err(e) ==> e == Error::Syntax,
{
    let mut instructions: Vec<Instruction> = Vec::new();
    let mut open_loops: VecDeque<usize> = VecDeque::new();
    let ghost source = input@;
    let ghost ops = symbols(source);
    assert(symbols(source.take(0)) =~= Seq::<char>::empty()) by {
        reveal(Seq::filter);
    }
    for character in it: input.as_str().chars()
        invariant
            source == input@,
            ops == symbols(source),
            it.seq() == source,
            ops.take(instructions@.len() as int) == symbols(source.take(it.index())),
            scanned(ops, instructions@, open_loops@),
    {
        let index = instructions.len();
        proof {
            lemma_symbols_step(source, it.index());
            if is_symbol(character) {
                assert(ops[index as int] == ops.take(index + 1)[index as int]);
                if character == '[' {
                    lemma_scan_open(ops, instructions@, open_loops@);
                } else if character != ']' {
                    lemma_scan_plain(ops, instructions@, open_loops@);
                } else if open_loops@.len() > 0 {
                    lemma_scan_close(ops, instructions@, open_loops@);
                }
            }
        }
        match character {
            '+' => {
                instructions.push(Instruction::Increment);
            },
            '-' => {
                instructions.push(Instruction::Decrement);
            },
            '>' => {
                instructions.push(Instruction::MoveNext);
            },
            '<' => {
                instructions.push(Instruction::MovePrevious);
            },
            '[' => {
                open_loops.push_back(index);
                instructions.push(Instruction::LoopStart { target: 0 });
            },
            ']' => {
                match open_loops.pop_back() {
                    None => {
                        assert(depth(ops, index + 1) < 0);
                        return Err(Error::Syntax);
                    },
                    Some(opener) => {
                        instructions.push(Instruction::LoopEnd { target: opener });
                        instructions.set(opener, Instruction::LoopStart { target: index });
                    },
                }
            },
            ',' => {
                instructions.push(Instruction::Read);
            },
            '.' => {
                instructions.push(Instruction::Print);
            },
            _ => {},
        }
    }
    assert(source.take(source.len() as int) =~= source);
    if open_loops.len() != 0 {
        return Err(Error::Syntax);
    }
    proof {
        assert(instructions@.len() == instructions.len());
        lemma_scan_done(source, instructions@);
    }
    Ok(instructions)
}

} // verus!
