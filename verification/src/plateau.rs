//! The plateau: a rectangle of grid points with one corner at the origin.

use crate::text::{chars_of, coordinate_value, next_token, parse_coordinate, tokens};
use crate::CoordinateUnit;
use std::str::FromStr;
use vstd::prelude::*;
use vstd::slice::slice_subrange;

verus! {

/// Why a line describes no plateau.
#[derive(Debug, Clone, Copy, PartialEq, Eq, Structural)]
pub enum ParsePlateauError {
    /// The line holds no token.
    MissingUpperX,
    /// The line holds one token only.
    MissingUpperY,
    /// The first token is no coordinate.
    UnparsableUpperX,
    /// The second token is no coordinate.
    UnparsableUpperY,
}

/// A position that lies outside a plateau, and the corner of that plateau.
///
/// The position is held in a wider type than a coordinate, so that the point
/// one step beyond the largest coordinate can be reported as it is.
#[derive(Debug, Clone, Copy, PartialEq, Eq, Structural)]
pub struct OutOfPlataeuError {
    pub x: i32,
    pub y: i32,
    pub upper_x: CoordinateUnit,
    pub upper_y: CoordinateUnit,
}

/// The mathematical model of a plateau: its upper-right corner. The
/// lower-left corner is the origin, and both corners belong to the plateau.
pub struct Bounds {
    pub upper_x: int,
    pub upper_y: int,
}

impl Bounds {
    /// Whether `(x, y)` lies in the closed rectangle between the origin and
    /// the upper-right corner.
    pub open spec fn contains(self, x: int, y: int) -> bool {
        0 <= x <= self.upper_x && 0 <= y <= self.upper_y
    }

    /// The report that `(x, y)` lies outside these bounds.
    pub open spec fn rejection(self, x: int, y: int) -> OutOfPlataeuError {
        OutOfPlataeuError {
            x: x as i32,
            y: y as i32,
            upper_x: self.upper_x as CoordinateUnit,
            upper_y: self.upper_y as CoordinateUnit,
        }
    }

    /// What confirming `(x, y)` yields: nothing if the position is within
    /// the bounds, the report if it is not.
    pub open spec fn confirmed(self, x: int, y: int) -> Result<(), OutOfPlataeuError> {
        if self.contains(x, y) {
            Ok(())
        } else {
            Err(self.rejection(x, y))
        }
    }

    /// The bounds that a line describes: its first two tokens are the
    /// corner's coordinates, and what follows them is not looked at. The
    /// first token is judged before the second is looked for.
    pub open spec fn parsed(line: Seq<char>) -> Result<Bounds, ParsePlateauError> {
        let fields = tokens(line);
        if fields.len() < 1 {
            Err(ParsePlateauError::MissingUpperX)
        } else if coordinate_value(fields[0]) is None {
            Err(ParsePlateauError::UnparsableUpperX)
        } else if fields.len() < 2 {
            Err(ParsePlateauError::MissingUpperY)
        } else if coordinate_value(fields[1]) is None {
            Err(ParsePlateauError::UnparsableUpperY)
        } else {
            Ok(
                Bounds {
                    upper_x: coordinate_value(fields[0]).unwrap(),
                    upper_y: coordinate_value(fields[1]).unwrap(),
                },
            )
        }
    }

    /// The edges belong to the plateau: a point of the line `x = 0`,
    /// `x = upper_x`, `y = 0` or `y = upper_y` whose other coordinate is in
    /// range lies within the bounds. A point one step beyond an edge never
    /// does.
    pub proof fn lemma_edges_are_inside(self, x: int, y: int)
        ensures
            0 <= self.upper_x && 0 <= y <= self.upper_y ==> self.contains(0, y) && self.contains(
                self.upper_x,
                y,
            ),
            0 <= self.upper_y && 0 <= x <= self.upper_x ==> self.contains(x, 0) && self.contains(
                x,
                self.upper_y,
            ),
            !self.contains(-1, y),
            !self.contains(self.upper_x + 1, y),
            !self.contains(x, -1),
            !self.contains(x, self.upper_y + 1),
    {
    }
}

/// A plateau. It is made once and never changes.
#[derive(Debug, Clone, Copy, PartialEq, Eq)]
pub struct Plateau {
    upper_x: CoordinateUnit,
    upper_y: CoordinateUnit,
}

impl View for Plateau {
    type V = Bounds;

    closed spec fn view(&self) -> Bounds {
        Bounds { upper_x: self.upper_x as int, upper_y: self.upper_y as int }
    }
}

impl Plateau {
    /// The plateau whose upper-right corner is `(upper_x, upper_y)`.
    pub fn new(upper_x: CoordinateUnit, upper_y: CoordinateUnit) -> (plateau: Plateau)
        ensures
            plateau@ == (Bounds { upper_x: upper_x as int, upper_y: upper_y as int }),
    {
        Plateau { upper_x, upper_y }
    }

    /// The largest `x` on the plateau.
    pub fn upper_x(&self) -> (x: CoordinateUnit)
        ensures
            x == self@.upper_x,
    {
        self.upper_x
    }

    /// The largest `y` on the plateau.
    pub fn upper_y(&self) -> (y: CoordinateUnit)
        ensures
            y == self@.upper_y,
    {
        self.upper_y
    }

    /// Whether `(x, y)` is on the plateau.
    pub fn contains(&self, x: CoordinateUnit, y: CoordinateUnit) -> (inside: bool)
        ensures
            inside == self@.contains(x as int, y as int),
    {
        x >= 0 && x <= self.upper_x && y >= 0 && y <= self.upper_y
    }

    /// Confirms that `(x, y)` is on the plateau, or reports the position and
    /// the plateau's corner.
    pub fn confirm_within(&self, x: CoordinateUnit, y: CoordinateUnit) -> (confirmed: Result<
        (),
        OutOfPlataeuError,
    >)
        ensures
            confirmed == self@.confirmed(x as int, y as int),
    {
        if x >= 0 && x <= self.upper_x && y >= 0 && y <= self.upper_y {
            Ok(())
        } else {
            Err(
                OutOfPlataeuError {
                    x: x as i32,
                    y: y as i32,
                    upper_x: self.upper_x,
                    upper_y: self.upper_y,
                },
            )
        }
    }

    /// Reads a plateau from the characters of a line.
    pub fn parse_chars(line: &[char]) -> (plateau: Result<Plateau, ParsePlateauError>)
        ensures
            match plateau {
                Ok(p) => Bounds::parsed(line@) == Ok::<Bounds, ParsePlateauError>(p@),
                Err(e) => Bounds::parsed(line@) == Err::<Bounds, ParsePlateauError>(e),
            },
    {
        let first = match next_token(line, 0) {
            Some(span) => span,
            None => {
                return Err(ParsePlateauError::MissingUpperX);
            },
        };
        let upper_x = match parse_coordinate(slice_subrange(line, first.0, first.1)) {
            Some(value) => value,
            None => {
                return Err(ParsePlateauError::UnparsableUpperX);
            },
        };
        let second = match next_token(line, first.1) {
            Some(span) => span,
            None => {
                return Err(ParsePlateauError::MissingUpperY);
            },
        };
        let upper_y = match parse_coordinate(slice_subrange(line, second.0, second.1)) {
            Some(value) => value,
            None => {
                return Err(ParsePlateauError::UnparsableUpperY);
            },
        };
        Ok(Plateau { upper_x, upper_y })
    }

    /// Reads a plateau from a line.
    pub fn parse(line: &str) -> (plateau: Result<Plateau, ParsePlateauError>)
        ensures
            match plateau {
                Ok(p) => Bounds::parsed(line@) == Ok::<Bounds, ParsePlateauError>(p@),
                Err(e) => Bounds::parsed(line@) == Err::<Bounds, ParsePlateauError>(e),
            },
    {
        let chars = chars_of(line);
        Plateau::parse_chars(chars.as_slice())
    }
}

impl FromStr for Plateau {
    type Err = ParsePlateauError;

    fn from_str(s: &str) -> (plateau: Result<Plateau, ParsePlateauError>)
        ensures
            match plateau {
                Ok(p) => Bounds::parsed(s@) == Ok::<Bounds, ParsePlateauError>(p@),
                Err(e) => Bounds::parsed(s@) == Err::<Bounds, ParsePlateauError>(e),
            },
    {
        Plateau::parse(s)
    }
}

} // verus!
