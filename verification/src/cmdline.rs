//! The debugger's own command line.

use vstd::prelude::*;
use crate::error::DebugError;

verus! {

/// The code unit of a double quote.
pub const QUOTE: u16 = 0x22;

/// The code unit of a blank.
pub const BLANK: u16 = 0x20;

/// The index of the first `unit` from `from` on, or the length of the line.
pub open spec fn unit_index(line: Seq<u16>, unit: u16, from: int) -> int
    decreases line.len() - from,
{
    if from < 0 || from >= line.len() {
        line.len() as int
    } else if line[from] == unit {
        from
    } else {
        unit_index(line, unit, from + 1)
    }
}

/// The first position at or after `from` that holds no blank.
pub open spec fn after_blanks(line: Seq<u16>, from: int) -> int
    decreases line.len() - from,
{
    if 0 <= from < line.len() && line[from] == BLANK {
        after_blanks(line, from + 1)
    } else {
        from
    }
}

/// The command line of the program to debug: the debugger's command line
/// without its first token and the blanks after it. The first token ends
/// at the next double quote if it starts with one, else at the first blank.
pub open spec fn target_command_line(line: Seq<u16>) -> Result<Seq<u16>, DebugError> {
    if line.len() == 0 {
        Err(DebugError::EmptyCommandLine)
    } else {
        let end = unit_index(
            line,
            if line[0] == QUOTE {
                QUOTE
            } else {
                BLANK
            },
            1,
        );
        if end >= line.len() {
            Err(DebugError::NoArguments)
        } else {
            Ok(line.skip(after_blanks(line, end + 1)))
        }
    }
}

/// Takes the debugger's own name off its command line, given in 16-bit
/// units with the closing NUL, and leaves the command line of the program
/// to debug as it was typed.
pub fn parse_command_line(cmd_line: &[u16]) -> (r: Result<Vec<u16>, DebugError>)
    ensures
        match target_command_line(cmd_line@) {
            Ok(rest) => r is Ok && r->Ok_0@ == rest,
            Err(e) => r is Err && r->Err_0 == e,
        },
{
    if cmd_line.len() == 0 {
        return Err(DebugError::EmptyCommandLine);
    }
    let first = cmd_line[0];
    // A quote at the start is matched by the next quote; else the first blank ends the token.
    let end_char: u16 = if first == QUOTE {
        QUOTE
    } else {
        BLANK
    };
    let mut i: usize = 1;
    while i < cmd_line.len() && cmd_line[i] != end_char
        invariant
            1 <= i <= cmd_line.len(),
            unit_index(cmd_line@, end_char, 1) == unit_index(cmd_line@, end_char, i as int),
        decreases cmd_line.len() - i,
    {
        i = i + 1;
    }
    if i >= cmd_line.len() {
        return Err(DebugError::NoArguments);
    }
    let mut k: usize = i + 1;
    while k < cmd_line.len() && cmd_line[k] == BLANK
        invariant
            i + 1 <= k <= cmd_line.len(),
            after_blanks(cmd_line@, i + 1) == after_blanks(cmd_line@, k as int),
        decreases cmd_line.len() - k,
    {
        k = k + 1;
    }
    let mut rest: Vec<u16> = Vec::new();
    let start = k;
    while k < cmd_line.len()
        invariant
            start <= k <= cmd_line.len(),
            rest@ == cmd_line@.subrange(start as int, k as int),
        decreases cmd_line.len() - k,
    {
        rest.push(cmd_line[k]);
        proof {
            assert(rest@ =~= cmd_line@.subrange(start as int, k + 1));
        }
        k = k + 1;
    }
    proof {
        assert(cmd_line@.subrange(start as int, cmd_line@.len() as int) =~= cmd_line@.skip(
            start as int,
        ));
    }
    Ok(rest)
}

} // verus!
