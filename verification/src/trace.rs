//! The trace of a run: the whole tape as one line of text.

use vstd::prelude::*;

verus! {

/// The ASCII digit for `n`, which is below ten.
pub open spec fn digit(n: int) -> u8 {
    (48 + n) as u8
}

/// One cell as text: its value in decimal, right-aligned with spaces in a
/// field of three characters, between two `|`.
pub open spec fn cell_text(value: u8) -> Seq<u8> {
    seq![
        124u8,
        if value >= 100 {
            digit(value as int / 100)
        } else {
            32u8
        },
        if value >= 10 {
            digit((value as int / 10) % 10)
        } else {
            32u8
        },
        digit(value as int % 10),
        124u8,
    ]
}

/// The tape as one line of text: the cells in order, each as
/// [`cell_text`] gives it, and a newline behind the last.
pub open spec fn line_text(tape: Seq<u8>) -> Seq<u8> {
    Seq::new(
        5 * tape.len() + 1,
        |i: int|
            if i == 5 * tape.len() {
                10u8
            } else {
                cell_text(tape[i / 5])[i % 5]
            },
    )
}

/// Renders the tape as one line of ASCII text, for a host that traces a run
/// instruction by instruction.
pub fn trace_line(tape: &[u8]) -> (line: Vec<u8>)
    ensures
        line@ == line_text(tape@),
{
    let mut line: Vec<u8> = Vec::new();
    let mut k: usize = 0;
    while k < tape.len()
        invariant
            k <= tape@.len(),
            line@.len() == 5 * k,
            forall|i: int| 0 <= i < 5 * k ==> line@[i] == cell_text(tape@[i / 5])[i % 5],
        decreases tape@.len() - k,
    {
        let value = tape[k];
        line.push(124);
        line.push(
            if value >= 100 {
                48 + value / 100
            } else {
                32
            },
        );
        line.push(
            if value >= 10 {
                48 + (value / 10) % 10
            } else {
                32
            },
        );
        line.push(48 + value % 10);
        line.push(124);
        k = k + 1;
    }
    line.push(10);
    line
}

} // verus!
