//! The strict validator: symbols only, brackets balanced.

use std::collections::VecDeque;
use vstd::prelude::*;
use crate::syntax::{depth, is_symbol, valid_source};

verus! {

/// Decides whether `input` is a well-formed program: it holds nothing but
/// the eight symbols, every `]` closes an earlier `[`, and every `[` is
/// closed before the end.
///
/// This gate is stricter than the compiler, which skips any other character
/// as a comment.
pub fn validate(input: String) -> (valid: bool)
    ensures
        valid == valid_source(input@),
{
    let mut open_loops: VecDeque<char> = VecDeque::new();
    let ghost source = input@;
    for character in it: input.as_str().chars()
        invariant
            source == input@,
            it.seq() == source,
            open_loops@.len() == depth(source, it.index()),
            forall|n: int| 0 <= n <= it.index() ==> depth(source, n) >= 0,
            forall|i: int| 0 <= i < it.index() ==> is_symbol(#[trigger] source[i]),
    {
        match character {
            '+' | '-' | '>' | '<' | ',' | '.' => {},
            '[' => {
                open_loops.push_back('[');
            },
            ']' => {
                if open_loops.len() == 0 {
                    assert(depth(source, it.index() + 1) < 0);
                    return false;
                } else {
                    open_loops.pop_back();
                }
            },
            _ => {
                return false;
            },
        }
    }
    open_loops.len() == 0
}

} // verus!
