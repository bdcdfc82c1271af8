//! Compass headings: quarter turns, unit steps, and the letters that name them.

use crate::text::chars_of;
use crate::CoordinateUnit;
use std::str::FromStr;
use vstd::prelude::*;
use vstd::std_specs::convert::FromSpecImpl;

verus! {

/// The token that was read is none of `N`, `E`, `S`, `W`.
#[derive(Debug, Clone, Copy, PartialEq, Eq, Structural)]
pub struct ParseDirectionError;

/// One of the four headings a rover can face.
#[derive(Debug, Clone, Copy, PartialEq, Eq, Structural)]
pub enum Direction {
    North,
    East,
    South,
    West,
}

impl Direction {
    /// The change in `(x, y)` made by one step along this heading.
    pub open spec fn vector(self) -> (int, int) {
        match self {
            Direction::North => (0, 1),
            Direction::East => (1, 0),
            Direction::South => (0, -1),
            Direction::West => (-1, 0),
        }
    }

    /// The heading a quarter turn counter-clockwise from this one.
    pub open spec fn left(self) -> Direction {
        match self {
            Direction::North => Direction::West,
            Direction::East => Direction::North,
            Direction::South => Direction::East,
            Direction::West => Direction::South,
        }
    }

    /// The heading a quarter turn clockwise from this one.
    pub open spec fn right(self) -> Direction {
        match self {
            Direction::North => Direction::East,
            Direction::East => Direction::South,
            Direction::South => Direction::West,
            Direction::West => Direction::North,
        }
    }

    /// The letter that names this heading.
    pub open spec fn letter(self) -> char {
        match self {
            Direction::North => 'N',
            Direction::East => 'E',
            Direction::South => 'S',
            Direction::West => 'W',
        }
    }

    /// The heading that a token names: the token is exactly one of the four
    /// letters, in upper case.
    pub open spec fn named_by(token: Seq<char>) -> Option<Direction> {
        if token == seq!['N'] {
            Some(Direction::North)
        } else if token == seq!['E'] {
            Some(Direction::East)
        } else if token == seq!['S'] {
            Some(Direction::South)
        } else if token == seq!['W'] {
            Some(Direction::West)
        } else {
            None
        }
    }

    /// What reading a token yields: the heading it names, or the error.
    pub open spec fn parsed(token: Seq<char>) -> Result<Direction, ParseDirectionError> {
        match Direction::named_by(token) {
            Some(direction) => Ok(direction),
            None => Err(ParseDirectionError),
        }
    }

    /// The unit step along this heading, as `(dx, dy)`.
    pub fn to_vector(&self) -> (v: (CoordinateUnit, CoordinateUnit))
        ensures
            (v.0 as int, v.1 as int) == self.vector(),
    {
        match self {
            Direction::North => (0, 1),
            Direction::East => (1, 0),
            Direction::South => (0, -1),
            Direction::West => (-1, 0),
        }
    }

    /// The heading after a quarter turn counter-clockwise.
    pub fn rotate_left(&self) -> (turned: Direction)
        ensures
            turned == self.left(),
    {
        match self {
            Direction::North => Direction::West,
            Direction::East => Direction::North,
            Direction::South => Direction::East,
            Direction::West => Direction::South,
        }
    }

    /// The heading after a quarter turn clockwise.
    pub fn rotate_right(&self) -> (turned: Direction)
        ensures
            turned == self.right(),
    {
        match self {
            Direction::North => Direction::East,
            Direction::East => Direction::South,
            Direction::South => Direction::West,
            Direction::West => Direction::North,
        }
    }

    /// The letter that names this heading.
    pub fn to_char(&self) -> (c: char)
        ensures
            c == self.letter(),
    {
        match self {
            Direction::North => 'N',
            Direction::East => 'E',
            Direction::South => 'S',
            Direction::West => 'W',
        }
    }

    /// Reads a heading from the characters of a token.
    pub fn parse_chars(token: &[char]) -> (heading: Result<Direction, ParseDirectionError>)
        ensures
            heading == Direction::parsed(token@),
    {
        if token.len() != 1 {
            return Err(ParseDirectionError);
        }
        let c = token[0];
        assert(token@ =~= seq![c]);
        if c == 'N' {
            Ok(Direction::North)
        } else if c == 'E' {
            Ok(Direction::East)
        } else if c == 'S' {
            Ok(Direction::South)
        } else if c == 'W' {
            Ok(Direction::West)
        } else {
            Err(ParseDirectionError)
        }
    }

    /// Reads a heading from a token.
    pub fn parse(token: &str) -> (heading: Result<Direction, ParseDirectionError>)
        ensures
            heading == Direction::parsed(token@),
    {
        let chars = chars_of(token);
        Direction::parse_chars(chars.as_slice())
    }

    /// A quarter turn one way undoes a quarter turn the other way.
    pub proof fn lemma_opposite_turns_cancel(self)
        ensures
            self.right().left() == self,
            self.left().right() == self,
    {
    }

    /// Four quarter turns the same way come back to the heading they began
    /// with.
    pub proof fn lemma_four_turns_return(self)
        ensures
            self.left().left().left().left() == self,
            self.right().right().right().right() == self,
    {
    }

    /// Reading the letter of a heading gives the heading.
    pub proof fn lemma_letter_names_heading(self)
        ensures
            Direction::parsed(seq![self.letter()]) == Ok::<Direction, ParseDirectionError>(self),
    {
        let token = seq![self.letter()];
        assert(token[0] == self.letter());
        assert(seq!['N'][0] == 'N' && seq!['E'][0] == 'E' && seq!['S'][0] == 'S' && seq!['W'][0]
            == 'W');
    }

    /// A token that names a heading is the letter of that heading.
    pub proof fn lemma_heading_letter_is_token(token: Seq<char>)
        requires
            Direction::parsed(token) is Ok,
        ensures
            seq![Direction::parsed(token).unwrap().letter()] == token,
    {
    }
}

impl FromStr for Direction {
    type Err = ParseDirectionError;

    fn from_str(s: &str) -> (heading: Result<Direction, ParseDirectionError>)
        ensures
            heading == Direction::parsed(s@),
    {
        Direction::parse(s)
    }
}

impl From<&Direction> for char {
    fn from(direction: &Direction) -> (c: char) {
        direction.to_char()
    }
}

impl FromSpecImpl<&Direction> for char {
    open spec fn obeys_from_spec() -> bool {
        true
    }

    open spec fn from_spec(direction: &Direction) -> char {
        direction.letter()
    }
}

} // verus!
