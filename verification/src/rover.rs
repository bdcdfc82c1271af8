//! The rover: a pose on the grid, and the effect of one instruction on it.

use crate::direction::Direction;
use crate::instruction::Instruction;
use crate::text::{
    chars_of, coordinate_value, decimal, is_canonical_numeral, is_token,
    lemma_decimal_of_canonical, lemma_numeral_is_token, lemma_parse_decimal,
    lemma_tokens_of_token, lemma_tokens_of_token_and_rest, next_token, parse_coordinate,
    push_decimal, tokens,
};
use crate::CoordinateUnit;
use std::str::FromStr;
use vstd::prelude::*;
use vstd::slice::slice_subrange;

verus! {

/// Why a line describes no rover.
#[derive(Debug, Clone, Copy, PartialEq, Eq, Structural)]
pub enum ParseRoverError {
    /// The line holds no token.
    MissingX,
    /// The line holds one token only.
    MissingY,
    /// The line holds two tokens only.
    MissingDirection,
    /// The first token is no coordinate.
    UnparsableX,
    /// The second token is no coordinate.
    UnparsableY,
    /// The third token names no heading.
    UnparsableDirection,
}

/// The mathematical model of a rover: a point of the unbounded grid and a
/// heading.
pub struct Pose {
    pub x: int,
    pub y: int,
    pub direction: Direction,
}

impl Pose {
    /// The pose after one instruction. A turn changes the heading and leaves
    /// the position; a move adds the heading's unit step to the position and
    /// leaves the heading.
    pub open spec fn step(self, instruction: Instruction) -> Pose {
        match instruction {
            Instruction::Left => Pose { direction: self.direction.left(), ..self },
            Instruction::Right => Pose { direction: self.direction.right(), ..self },
            Instruction::Move => Pose {
                x: self.x + self.direction.vector().0,
                y: self.y + self.direction.vector().1,
                ..self
            },
        }
    }

    /// Whether both coordinates fit the coordinate type, so that a rover can
    /// hold this pose.
    pub open spec fn representable(self) -> bool {
        &&& CoordinateUnit::MIN <= self.x <= CoordinateUnit::MAX
        &&& CoordinateUnit::MIN <= self.y <= CoordinateUnit::MAX
    }

    /// The line that reports this pose: `x`, `y` and the heading's letter,
    /// with one space between them.
    pub open spec fn line(self) -> Seq<char> {
        decimal(self.x) + seq![' '] + decimal(self.y) + seq![' ', self.direction.letter()]
    }

    /// The pose that a line describes: its first three tokens are `x`, `y`
    /// and the heading, and what follows them is not looked at. Each token is
    /// judged before the next is looked for.
    pub open spec fn parsed(line: Seq<char>) -> Result<Pose, ParseRoverError> {
        let fields = tokens(line);
        if fields.len() < 1 {
            Err(ParseRoverError::MissingX)
        } else if coordinate_value(fields[0]) is None {
            Err(ParseRoverError::UnparsableX)
        } else if fields.len() < 2 {
            Err(ParseRoverError::MissingY)
        } else if coordinate_value(fields[1]) is None {
            Err(ParseRoverError::UnparsableY)
        } else if fields.len() < 3 {
            Err(ParseRoverError::MissingDirection)
        } else if Direction::named_by(fields[2]) is None {
            Err(ParseRoverError::UnparsableDirection)
        } else {
            Ok(
                Pose {
                    x: coordinate_value(fields[0]).unwrap(),
                    y: coordinate_value(fields[1]).unwrap(),
                    direction: Direction::named_by(fields[2]).unwrap(),
                },
            )
        }
    }

    /// A turn never changes the position, and a move never changes the
    /// heading.
    pub proof fn lemma_turning_and_moving_are_independent(self, instruction: Instruction)
        ensures
            instruction != Instruction::Move ==> self.step(instruction).x == self.x && self.step(
                instruction,
            ).y == self.y,
            instruction == Instruction::Move ==> self.step(instruction).direction
                == self.direction,
    {
    }
}

/// Three tokens with one space between each two are the three tokens of the
/// line they make.
proof fn lemma_tokens_of_three(x: Seq<char>, y: Seq<char>, z: Seq<char>)
    requires
        is_token(x),
        is_token(y),
        is_token(z),
    ensures
        tokens(x + seq![' '] + y + seq![' '] + z) == seq![x, y, z],
{
    let tail = y + seq![' '] + z;
    lemma_tokens_of_token(z);
    lemma_tokens_of_token_and_rest(y, z);
    lemma_tokens_of_token_and_rest(x, tail);
    assert(x + seq![' '] + y + seq![' '] + z =~= x + seq![' '] + tail);
    assert(seq![x] + (seq![y] + seq![z]) =~= seq![x, y, z]);
}

impl Pose {
    /// Reading the line that reports a pose gives the pose back.
    pub proof fn lemma_line_is_read_back(self)
        requires
            self.representable(),
        ensures
            Pose::parsed(self.line()) == Ok::<Pose, ParseRoverError>(self),
    {
        let x = decimal(self.x);
        let y = decimal(self.y);
        let z = seq![self.direction.letter()];
        lemma_parse_decimal(self.x);
        lemma_parse_decimal(self.y);
        lemma_numeral_is_token(x);
        lemma_numeral_is_token(y);
        self.direction.lemma_letter_names_heading();
        assert(z[0] == self.direction.letter());
        lemma_tokens_of_three(x, y, z);
        assert(self.line() =~= x + seq![' '] + y + seq![' '] + z);
    }

    /// A rover line in the form in which reports are written is reported as
    /// it was read: `x` and `y` as canonical numerals, then the letter of the
    /// heading, with one space between them and nothing around them.
    pub proof fn lemma_canonical_line_is_reported(
        line: Seq<char>,
        x: Seq<char>,
        y: Seq<char>,
        heading: Seq<char>,
    )
        requires
            line == x + seq![' '] + y + seq![' '] + heading,
            is_canonical_numeral(x),
            is_canonical_numeral(y),
            Direction::named_by(heading) is Some,
            Pose::parsed(line) is Ok,
        ensures
            Pose::parsed(line).unwrap().line() == line,
    {
        lemma_decimal_of_canonical(x);
        lemma_decimal_of_canonical(y);
        lemma_numeral_is_token(x);
        lemma_numeral_is_token(y);
        Direction::lemma_heading_letter_is_token(heading);
        assert(heading[0] == Direction::named_by(heading).unwrap().letter());
        lemma_tokens_of_three(x, y, heading);
        let pose = Pose::parsed(line).unwrap();
        assert(pose.line() =~= line);
    }
}

/// A rover: where it stands and where it faces.
#[derive(Debug, PartialEq, Eq)]
pub struct Rover {
    x: CoordinateUnit,
    y: CoordinateUnit,
    direction: Direction,
}

impl View for Rover {
    type V = Pose;

    closed spec fn view(&self) -> Pose {
        Pose { x: self.x as int, y: self.y as int, direction: self.direction }
    }
}

impl Rover {
    /// A rover at `(x, y)` that faces `direction`. No plateau is consulted.
    pub fn new(x: CoordinateUnit, y: CoordinateUnit, direction: Direction) -> (rover: Rover)
        ensures
            rover@ == (Pose { x: x as int, y: y as int, direction }),
    {
        Self { x, y, direction }
    }

    /// Where the rover stands, west to east.
    pub fn x(&self) -> (x: CoordinateUnit)
        ensures
            x == self@.x,
    {
        self.x
    }

    /// Where the rover stands, south to north.
    pub fn y(&self) -> (y: CoordinateUnit)
        ensures
            y == self@.y,
    {
        self.y
    }

    /// Where the rover faces.
    pub fn direction(&self) -> (direction: Direction)
        ensures
            direction == self@.direction,
    {
        self.direction
    }

    /// Carries out one instruction. The plateau is not consulted: whoever
    /// drives the rover confirms the new position.
    pub fn follow_instruction(&mut self, instruction: Instruction)
        requires
            old(self)@.step(instruction).representable(),
        ensures
            final(self)@ == old(self)@.step(instruction),
            instruction != Instruction::Move ==> final(self)@.x == old(self)@.x && final(self)@.y
                == old(self)@.y,
            instruction == Instruction::Move ==> final(self)@.direction == old(self)@.direction,
    {
        match instruction {
            Instruction::Left => self.direction = self.direction.rotate_left(),
            Instruction::Right => self.direction = self.direction.rotate_right(),
            Instruction::Move => {
                let vector = self.direction.to_vector();
                self.x += vector.0;
                self.y += vector.1;
            },
        }
    }

    /// Carries out one instruction if the pose it leads to fits the
    /// coordinate type, and says whether it did. A rover that cannot follow
    /// stays as it is.
    pub fn try_follow_instruction(&mut self, instruction: Instruction) -> (followed: bool)
        ensures
            followed == old(self)@.step(instruction).representable(),
            followed ==> final(self)@ == old(self)@.step(instruction),
            !followed ==> final(self)@ == old(self)@,
    {
        let vector = self.direction.to_vector();
        let fits = match instruction {
            Instruction::Move => {
                let x = self.x as i32 + vector.0 as i32;
                let y = self.y as i32 + vector.1 as i32;
                let least = CoordinateUnit::MIN as i32;
                let most = CoordinateUnit::MAX as i32;
                least <= x && x <= most && least <= y && y <= most
            },
            _ => true,
        };
        if fits {
            self.follow_instruction(instruction);
        }
        fits
    }

    /// Appends the line that reports this rover's pose.
    pub fn push_line(&self, out: &mut String)
        ensures
            final(out)@ == old(out)@ + self@.line(),
    {
        proof {
            reveal_strlit(" ");
            reveal_strlit("N");
            reveal_strlit("E");
            reveal_strlit("S");
            reveal_strlit("W");
        }
        push_decimal(out, self.x as i32);
        out.append(" ");
        push_decimal(out, self.y as i32);
        out.append(" ");
        out.append(
            match self.direction {
                Direction::North => "N",
                Direction::East => "E",
                Direction::South => "S",
                Direction::West => "W",
            },
        );
        assert(out@ =~= old(out)@ + self@.line());
    }

    /// The line that reports this rover's pose.
    pub fn format(&self) -> (line: String)
        ensures
            line@ == self@.line(),
    {
        let mut line = String::new();
        self.push_line(&mut line);
        line
    }

    /// Reads a rover from the characters of a line.
    pub fn parse_chars(line: &[char]) -> (rover: Result<Rover, ParseRoverError>)
        ensures
            match rover {
                Ok(r) => Pose::parsed(line@) == Ok::<Pose, ParseRoverError>(r@),
                Err(e) => Pose::parsed(line@) == Err::<Pose, ParseRoverError>(e),
            },
    {
        let first = match next_token(line, 0) {
            Some(span) => span,
            None => {
                return Err(ParseRoverError::MissingX);
            },
        };
        let x = match parse_coordinate(slice_subrange(line, first.0, first.1)) {
            Some(value) => value,
            None => {
                return Err(ParseRoverError::UnparsableX);
            },
        };
        let second = match next_token(line, first.1) {
            Some(span) => span,
            None => {
                return Err(ParseRoverError::MissingY);
            },
        };
        let y = match parse_coordinate(slice_subrange(line, second.0, second.1)) {
            Some(value) => value,
            None => {
                return Err(ParseRoverError::UnparsableY);
            },
        };
        let third = match next_token(line, second.1) {
            Some(span) => span,
            None => {
                return Err(ParseRoverError::MissingDirection);
            },
        };
        let direction = match Direction::parse_chars(slice_subrange(line, third.0, third.1)) {
            Ok(direction) => direction,
            Err(_) => {
                return Err(ParseRoverError::UnparsableDirection);
            },
        };
        Ok(Rover { x, y, direction })
    }

    /// Reads a rover from a line.
    pub fn parse(line: &str) -> (rover: Result<Rover, ParseRoverError>)
        ensures
            match rover {
                Ok(r) => Pose::parsed(line@) == Ok::<Pose, ParseRoverError>(r@),
                Err(e) => Pose::parsed(line@) == Err::<Pose, ParseRoverError>(e),
            },
    {
        let chars = chars_of(line);
        Rover::parse_chars(chars.as_slice())
    }
}

impl FromStr for Rover {
    type Err = ParseRoverError;

    fn from_str(s: &str) -> (rover: Result<Rover, ParseRoverError>)
        ensures
            match rover {
                Ok(r) => Pose::parsed(s@) == Ok::<Pose, ParseRoverError>(r@),
                Err(e) => Pose::parsed(s@) == Err::<Pose, ParseRoverError>(e),
            },
    {
        Rover::parse(s)
    }
}

} // verus!
