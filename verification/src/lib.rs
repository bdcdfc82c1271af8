//! A simulator for rovers that drive over a rectangular plateau.
//!
//! A session reads the plateau's upper-right corner, then, rover by rover, a
//! starting pose and a string of instructions. Every rule of that protocol is
//! stated as a specification over plain mathematical values and proved of the
//! code that implements it.

use vstd::prelude::*;

pub mod direction;
pub mod instruction;
pub mod plateau;
pub mod rover;
pub mod session;
pub mod text;

pub use direction::{Direction, ParseDirectionError};
pub use instruction::{Instruction, ParseInstructionError};
pub use plateau::{Bounds, OutOfPlataeuError, ParsePlateauError, Plateau};
pub use rover::{ParseRoverError, Pose, Rover};
pub use session::{interact, run_rover, InteractionError, Session, Stage, Transcript};

verus! {

/// The integer type of a coordinate on the grid.
pub type CoordinateUnit = i16;

} // verus!
