//! The instructions a rover understands, one character each.

use vstd::prelude::*;
use vstd::std_specs::convert::TryFromSpecImpl;

verus! {

/// One command for a rover.
#[derive(Debug, Clone, Copy, PartialEq, Eq, Structural)]
pub enum Instruction {
    /// Turn a quarter turn counter-clockwise, in place.
    Left,
    /// Turn a quarter turn clockwise, in place.
    Right,
    /// Go one step forward along the current heading.
    Move,
}

/// Why a character is no instruction.
#[derive(Debug, Clone, Copy, PartialEq, Eq, Structural)]
pub enum ParseInstructionError {
    /// The character is none of `L`, `R`, `M`; it is kept for the report.
    Unrecognized(char),
}

impl Instruction {
    /// What a character decodes to: `L`, `R` and `M` are the three
    /// instructions, in upper case only, and any other character is an error
    /// that carries it.
    pub open spec fn decoded(c: char) -> Result<Instruction, ParseInstructionError> {
        if c == 'L' {
            Ok(Instruction::Left)
        } else if c == 'R' {
            Ok(Instruction::Right)
        } else if c == 'M' {
            Ok(Instruction::Move)
        } else {
            Err(ParseInstructionError::Unrecognized(c))
        }
    }
}

impl TryFrom<char> for Instruction {
    type Error = ParseInstructionError;

    fn try_from(value: char) -> (instruction: Result<Instruction, ParseInstructionError>) {
        match value {
            'L' => Ok(Instruction::Left),
            'R' => Ok(Instruction::Right),
            'M' => Ok(Instruction::Move),
            o => Err(ParseInstructionError::Unrecognized(o)),
        }
    }
}

impl TryFromSpecImpl<char> for Instruction {
    open spec fn obeys_try_from_spec() -> bool {
        true
    }

    open spec fn try_from_spec(value: char) -> Result<Instruction, ParseInstructionError> {
        Instruction::decoded(value)
    }
}

} // verus!
