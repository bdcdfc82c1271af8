//! The session: a plateau line, then a rover line and an instruction line for
//! each rover, and one report line for each rover that stayed on the plateau.

use crate::instruction::{Instruction, ParseInstructionError};
use crate::plateau::{Bounds, OutOfPlataeuError, ParsePlateauError, Plateau};
use crate::rover::{ParseRoverError, Pose, Rover};
use crate::text::{chars_of, lines, lines_from, next_line};
use vstd::prelude::*;
use vstd::slice::slice_subrange;

verus! {

/// Why a session stopped before the end of its input, or could not end where
/// the input ended.
#[derive(Debug, Clone, Copy, PartialEq, Eq, Structural)]
pub enum InteractionError {
    /// The input holds no line at all.
    MissingPlateau,
    /// The first line describes no plateau.
    PlateauInvalid(ParsePlateauError),
    /// A rover line describes no rover.
    RoverInvalid(ParseRoverError),
    /// The input ends behind a rover line.
    MissingInstructions,
    /// An instruction line holds a character that is no instruction.
    InvalidInstruction(ParseInstructionError),
    /// A rover starts outside the plateau, or an instruction took it there.
    OutsidePlateau(OutOfPlataeuError),
}

/// Where a rover ends that starts at `pose` and follows `instructions` one
/// character at a time. After each instruction the new position is confirmed
/// against `bounds`. The first character that is no instruction, or the first
/// instruction that takes the rover outside, ends the drive with its error,
/// and nothing behind it is looked at.
pub open spec fn drive(bounds: Bounds, pose: Pose, instructions: Seq<char>) -> Result<
    Pose,
    InteractionError,
>
    decreases instructions.len(),
{
    if instructions.len() == 0 {
        Ok(pose)
    } else {
        match Instruction::decoded(instructions[0]) {
            Err(e) => Err(InteractionError::InvalidInstruction(e)),
            Ok(instruction) => {
                let next = pose.step(instruction);
                if bounds.contains(next.x, next.y) {
                    drive(bounds, next, instructions.skip(1))
                } else {
                    Err(InteractionError::OutsidePlateau(bounds.rejection(next.x, next.y)))
                }
            },
        }
    }
}

/// Where a rover ends that is set down at `pose` and then follows
/// `instructions`: the starting position is confirmed before the first
/// instruction is looked at.
pub open spec fn explore(bounds: Bounds, pose: Pose, instructions: Seq<char>) -> Result<
    Pose,
    InteractionError,
> {
    if bounds.contains(pose.x, pose.y) {
        drive(bounds, pose, instructions)
    } else {
        Err(InteractionError::OutsidePlateau(bounds.rejection(pose.x, pose.y)))
    }
}

/// The pose after every one of `instructions`, with no plateau to leave.
/// Characters that are no instruction are not meant to occur in it.
pub open spec fn pose_after(pose: Pose, instructions: Seq<char>) -> Pose
    decreases instructions.len(),
{
    if instructions.len() == 0 {
        pose
    } else {
        pose_after(
            pose.step(Instruction::decoded(instructions[0]).unwrap()),
            instructions.skip(1),
        )
    }
}

/// The pose after the first `i` instructions is the pose that the rest of
/// them lead to from where the first one led.
proof fn lemma_pose_after_unfolds(pose: Pose, instructions: Seq<char>, i: int)
    requires
        1 <= i <= instructions.len(),
    ensures
        pose_after(pose, instructions.take(i)) == pose_after(
            pose.step(Instruction::decoded(instructions[0]).unwrap()),
            instructions.skip(1).take(i - 1),
        ),
{
    assert(instructions.take(i)[0] == instructions[0]);
    assert(instructions.take(i).skip(1) =~= instructions.skip(1).take(i - 1));
}

/// A drive that has stopped with an error stops with it whatever follows: no
/// instruction behind the failing one is carried out.
pub proof fn lemma_failure_is_final(
    bounds: Bounds,
    pose: Pose,
    driven: Seq<char>,
    rest: Seq<char>,
)
    requires
        drive(bounds, pose, driven) is Err,
    ensures
        drive(bounds, pose, driven + rest) == drive(bounds, pose, driven),
    decreases driven.len(),
{
    let all = driven + rest;
    assert(all[0] == driven[0]);
    assert(all.skip(1) =~= driven.skip(1) + rest);
    if let Ok(instruction) = Instruction::decoded(driven[0]) {
        let next = pose.step(instruction);
        if bounds.contains(next.x, next.y) {
            lemma_failure_is_final(bounds, next, driven.skip(1), rest);
        }
    }
}

/// A drive that comes through has met instructions only, has stayed on the
/// plateau, and ends in the pose that the instructions lead to.
pub proof fn lemma_drive_ends_where_instructions_lead(
    bounds: Bounds,
    pose: Pose,
    instructions: Seq<char>,
)
    requires
        bounds.contains(pose.x, pose.y),
        drive(bounds, pose, instructions) is Ok,
    ensures
        drive(bounds, pose, instructions) == Ok::<Pose, InteractionError>(
            pose_after(pose, instructions),
        ),
        bounds.contains(pose_after(pose, instructions).x, pose_after(pose, instructions).y),
        forall|i: int|
            0 <= i < instructions.len() ==> Instruction::decoded(#[trigger] instructions[i]) is Ok,
    decreases instructions.len(),
{
    if instructions.len() > 0 {
        let next = pose.step(Instruction::decoded(instructions[0]).unwrap());
        let rest = instructions.skip(1);
        lemma_drive_ends_where_instructions_lead(bounds, next, rest);
        assert forall|i: int| 0 <= i < instructions.len() implies Instruction::decoded(
            #[trigger] instructions[i],
        ) is Ok by {
            if i > 0 {
                assert(instructions[i] == rest[i - 1]);
            }
        }
    }
}

/// The first instruction that takes the rover off the plateau ends the
/// drive, and the error names the position just after that instruction.
/// Here `instructions[k]` is that instruction: it and all before it are
/// instructions, the positions after each of those before it lie on the
/// plateau, and the position after it does not. What follows it has no
/// bearing on the result.
pub proof fn lemma_first_violation_ends_drive(
    bounds: Bounds,
    pose: Pose,
    instructions: Seq<char>,
    k: int,
)
    requires
        0 <= k < instructions.len(),
        forall|i: int| 0 <= i <= k ==> Instruction::decoded(#[trigger] instructions[i]) is Ok,
        forall|i: int|
            0 < i <= k ==> bounds.contains(
                (#[trigger] pose_after(pose, instructions.take(i))).x,
                pose_after(pose, instructions.take(i)).y,
            ),
        !bounds.contains(
            pose_after(pose, instructions.take(k + 1)).x,
            pose_after(pose, instructions.take(k + 1)).y,
        ),
    ensures
        drive(bounds, pose, instructions) == Err::<Pose, InteractionError>(
            InteractionError::OutsidePlateau(
                bounds.rejection(
                    pose_after(pose, instructions.take(k + 1)).x,
                    pose_after(pose, instructions.take(k + 1)).y,
                ),
            ),
        ),
        drive(bounds, pose, instructions) == drive(bounds, pose, instructions.take(k + 1)),
    decreases k,
{
    let next = pose.step(Instruction::decoded(instructions[0]).unwrap());
    let rest = instructions.skip(1);
    lemma_pose_after_unfolds(pose, instructions, 1);
    assert(pose_after(next, rest.take(0)) == next);
    let prefix = instructions.take(k + 1);
    assert(prefix[0] == instructions[0]);
    assert(prefix.skip(1) =~= rest.take(k));
    if k > 0 {
        assert forall|i: int| 0 <= i <= k - 1 implies Instruction::decoded(
            #[trigger] rest[i],
        ) is Ok by {
            assert(rest[i] == instructions[i + 1]);
        }
        assert forall|i: int| 0 < i <= k - 1 implies bounds.contains(
            (#[trigger] pose_after(next, rest.take(i))).x,
            pose_after(next, rest.take(i)).y,
        ) by {
            lemma_pose_after_unfolds(pose, instructions, i + 1);
            assert(bounds.contains(
                pose_after(pose, instructions.take(i + 1)).x,
                pose_after(pose, instructions.take(i + 1)).y,
            ));
        }
        lemma_pose_after_unfolds(pose, instructions, k + 1);
        assert(bounds.contains(
            pose_after(pose, instructions.take(1)).x,
            pose_after(pose, instructions.take(1)).y,
        ));
        lemma_first_violation_ends_drive(bounds, next, rest, k - 1);
        assert(rest.take(k - 1 + 1) =~= rest.take(k));
    }
}

/// What a session waits for.
pub enum Stage {
    /// The plateau line.
    AwaitingPlateau,
    /// A rover line, or the end of the input.
    AwaitingRover(Bounds),
    /// The instruction line of the rover that was read last.
    AwaitingInstructions(Bounds, Pose),
}

impl Stage {
    /// What one more line leads to: the next stage and, where a rover has
    /// finished, the line that reports it; or the error that ends the
    /// session.
    pub open spec fn fed(self, line: Seq<char>) -> Result<
        (Stage, Option<Seq<char>>),
        InteractionError,
    > {
        match self {
            Stage::AwaitingPlateau => match Bounds::parsed(line) {
                Ok(bounds) => Ok((Stage::AwaitingRover(bounds), None)),
                Err(e) => Err(InteractionError::PlateauInvalid(e)),
            },
            Stage::AwaitingRover(bounds) => match Pose::parsed(line) {
                Ok(pose) => match bounds.confirmed(pose.x, pose.y) {
                    Ok(_) => Ok((Stage::AwaitingInstructions(bounds, pose), None)),
                    Err(e) => Err(InteractionError::OutsidePlateau(e)),
                },
                Err(e) => Err(InteractionError::RoverInvalid(e)),
            },
            Stage::AwaitingInstructions(bounds, pose) => match drive(bounds, pose, line) {
                Ok(end) => Ok((Stage::AwaitingRover(bounds), Some(end.line()))),
                Err(e) => Err(e),
            },
        }
    }

    /// Whether a rover that waits for its instructions stands on the plateau.
    pub open spec fn well_formed(self) -> bool {
        match self {
            Stage::AwaitingInstructions(bounds, pose) => bounds.contains(pose.x, pose.y),
            _ => true,
        }
    }

    /// Every stage that a line leads to is well formed: no session comes to
    /// hold a rover that stands outside its plateau.
    pub proof fn lemma_fed_is_well_formed(self, line: Seq<char>)
        requires
            self.fed(line) is Ok,
        ensures
            self.fed(line).unwrap().0.well_formed(),
    {
    }

    /// What the end of the input means at this stage.
    pub open spec fn finished(self) -> Result<(), InteractionError> {
        match self {
            Stage::AwaitingPlateau => Err(InteractionError::MissingPlateau),
            Stage::AwaitingRover(_) => Ok(()),
            Stage::AwaitingInstructions(_, _) => Err(InteractionError::MissingInstructions),
        }
    }

    /// What a session at this stage makes of `lines` and the end of the input.
    pub open spec fn run(self, lines: Seq<Seq<char>>) -> Transcript
        decreases lines.len(),
    {
        if lines.len() == 0 {
            Transcript { output: Seq::empty(), outcome: self.finished() }
        } else {
            match self.fed(lines[0]) {
                Ok((next, report)) => {
                    let rest = next.run(lines.skip(1));
                    Transcript { output: written(report) + rest.output, outcome: rest.outcome }
                },
                Err(e) => Transcript { output: Seq::empty(), outcome: Err(e) },
            }
        }
    }
}

/// What a session wrote, and how it ended.
pub struct Transcript {
    /// The report lines, each with a line feed behind it.
    pub output: Seq<char>,
    /// Nothing if every line was taken, the error of the first line that was
    /// not.
    pub outcome: Result<(), InteractionError>,
}

/// The text that a report adds to the output: the line and a line feed.
pub open spec fn written(report: Option<Seq<char>>) -> Seq<char> {
    match report {
        Some(line) => line + seq!['\n'],
        None => Seq::empty(),
    }
}

/// The view of a report.
pub open spec fn report_view(report: Option<String>) -> Option<Seq<char>> {
    match report {
        Some(line) => Some(line@),
        None => None,
    }
}

/// What a whole session makes of its input.
pub open spec fn transcript(input: Seq<char>) -> Transcript {
    Stage::AwaitingPlateau.run(lines(input))
}

enum State {
    AwaitingPlateau,
    AwaitingRover(Plateau),
    AwaitingInstructions(Plateau, Rover),
}

/// A session in progress. It takes the input line by line, so that whoever
/// reads the input can write each report as soon as it is due.
pub struct Session {
    state: State,
}

impl View for Session {
    type V = Stage;

    closed spec fn view(&self) -> Stage {
        match self.state {
            State::AwaitingPlateau => Stage::AwaitingPlateau,
            State::AwaitingRover(plateau) => Stage::AwaitingRover(plateau@),
            State::AwaitingInstructions(plateau, rover) => Stage::AwaitingInstructions(
                plateau@,
                rover@,
            ),
        }
    }
}

impl Session {
    /// A rover that waits for its instructions stands on the plateau.
    #[verifier::type_invariant]
    spec fn rover_is_on_plateau(self) -> bool {
        match self.state {
            State::AwaitingInstructions(plateau, rover) => plateau@.contains(rover@.x, rover@.y),
            _ => true,
        }
    }

    /// A session that has read nothing yet.
    pub fn new() -> (session: Session)
        ensures
            session@ == Stage::AwaitingPlateau,
    {
        Session { state: State::AwaitingPlateau }
    }

    /// Takes the characters of the next line of input.
    pub fn feed_chars(self, line: &[char]) -> (fed: Result<
        (Session, Option<String>),
        InteractionError,
    >)
        ensures
            match fed {
                Ok((next, report)) => self@.fed(line@) == Ok::<
                    (Stage, Option<Seq<char>>),
                    InteractionError,
                >((next@, report_view(report))),
                Err(e) => self@.fed(line@) == Err::<(Stage, Option<Seq<char>>), InteractionError>(
                    e,
                ),
            },
    {
        proof {
            use_type_invariant(&self);
        }
        match self.state {
            State::AwaitingPlateau => match Plateau::parse_chars(line) {
                Ok(plateau) => Ok((Session { state: State::AwaitingRover(plateau) }, None)),
                Err(e) => Err(InteractionError::PlateauInvalid(e)),
            },
            State::AwaitingRover(plateau) => match Rover::parse_chars(line) {
                Ok(rover) => match plateau.confirm_within(rover.x(), rover.y()) {
                    Ok(_) => Ok(
                        (Session { state: State::AwaitingInstructions(plateau, rover) }, None),
                    ),
                    Err(e) => Err(InteractionError::OutsidePlateau(e)),
                },
                Err(e) => Err(InteractionError::RoverInvalid(e)),
            },
            State::AwaitingInstructions(plateau, rover) => match drive_chars(
                &plateau,
                rover,
                line,
            ) {
                Ok(end) => Ok((Session { state: State::AwaitingRover(plateau) }, Some(end.format()))),
                Err(e) => Err(e),
            },
        }
    }

    /// Takes the next line of input: the text of the line, without what ends
    /// it.
    pub fn feed(self, line: &str) -> (fed: Result<(Session, Option<String>), InteractionError>)
        ensures
            match fed {
                Ok((next, report)) => self@.fed(line@) == Ok::<
                    (Stage, Option<Seq<char>>),
                    InteractionError,
                >((next@, report_view(report))),
                Err(e) => self@.fed(line@) == Err::<(Stage, Option<Seq<char>>), InteractionError>(
                    e,
                ),
            },
    {
        let chars = chars_of(line);
        self.feed_chars(chars.as_slice())
    }

    /// Takes the end of the input.
    pub fn finish(self) -> (outcome: Result<(), InteractionError>)
        ensures
            outcome == self@.finished(),
    {
        match self.state {
            State::AwaitingPlateau => Err(InteractionError::MissingPlateau),
            State::AwaitingRover(_) => Ok(()),
            State::AwaitingInstructions(_, _) => Err(InteractionError::MissingInstructions),
        }
    }
}

/// Drives a rover that stands on the plateau through the characters of an
/// instruction line.
fn drive_chars(plateau: &Plateau, rover: Rover, instructions: &[char]) -> (end: Result<
    Rover,
    InteractionError,
>)
    requires
        plateau@.contains(rover@.x, rover@.y),
    ensures
        match end {
            Ok(r) => drive(plateau@, rover@, instructions@) == Ok::<Pose, InteractionError>(r@),
            Err(e) => drive(plateau@, rover@, instructions@) == Err::<Pose, InteractionError>(e),
        },
{
    let mut driven = rover;
    let mut i: usize = 0;
    assert(instructions@.skip(0) =~= instructions@);
    while i < instructions.len()
        invariant
            i <= instructions@.len(),
            plateau@.contains(driven@.x, driven@.y),
            drive(plateau@, rover@, instructions@) == drive(
                plateau@,
                driven@,
                instructions@.skip(i as int),
            ),
        decreases instructions@.len() - i,
    {
        let ghost rest = instructions@.skip(i as int);
        assert(rest[0] == instructions@[i as int]);
        assert(rest.skip(1) =~= instructions@.skip(i + 1));
        let instruction = match Instruction::try_from(instructions[i]) {
            Ok(instruction) => instruction,
            Err(e) => {
                return Err(InteractionError::InvalidInstruction(e));
            },
        };
        let upper_x = plateau.upper_x();
        let upper_y = plateau.upper_y();
        if !driven.try_follow_instruction(instruction) {
            let vector = driven.direction().to_vector();
            return Err(
                InteractionError::OutsidePlateau(
                    OutOfPlataeuError {
                        x: driven.x() as i32 + vector.0 as i32,
                        y: driven.y() as i32 + vector.1 as i32,
                        upper_x,
                        upper_y,
                    },
                ),
            );
        }
        match plateau.confirm_within(driven.x(), driven.y()) {
            Ok(_) => {},
            Err(e) => {
                return Err(InteractionError::OutsidePlateau(e));
            },
        }
        i = i + 1;
    }
    assert(instructions@.skip(i as int).len() == 0);
    Ok(driven)
}

/// Sets a rover down on the plateau and drives it through a string of
/// instructions.
pub fn run_rover(plateau: &Plateau, rover: Rover, instructions: &str) -> (end: Result<
    Rover,
    InteractionError,
>)
    ensures
        match end {
            Ok(r) => explore(plateau@, rover@, instructions@) == Ok::<Pose, InteractionError>(r@),
            Err(e) => explore(plateau@, rover@, instructions@) == Err::<Pose, InteractionError>(
                e,
            ),
        },
{
    match plateau.confirm_within(rover.x(), rover.y()) {
        Ok(_) => {},
        Err(e) => {
            return Err(InteractionError::OutsidePlateau(e));
        },
    }
    let chars = chars_of(instructions);
    drive_chars(plateau, rover, chars.as_slice())
}

/// Runs a whole session on `input` and appends its report lines to `output`.
/// What was reported before an error stays in `output`.
pub fn interact(input: &str, output: &mut String) -> (outcome: Result<(), InteractionError>)
    ensures
        final(output)@ == old(output)@ + transcript(input@).output,
        outcome == transcript(input@).outcome,
{
    let chars = chars_of(input);
    let text = chars.as_slice();
    let mut session = Session::new();
    let mut from: usize = 0;
    proof {
        reveal_strlit("\n");
    }
    loop
        invariant
            text@ == input@,
            from <= text@.len(),
            "\n"@ == seq!['\n'],
            old(output)@ + transcript(input@).output == output@ + session@.run(
                lines_from(text@, from as int),
            ).output,
            transcript(input@).outcome == session@.run(lines_from(text@, from as int)).outcome,
        decreases text@.len() - from,
    {
        let (stop, next) = match next_line(text, from) {
            Some(span) => span,
            None => {
                return session.finish();
            },
        };
        let ghost rest = lines_from(text@, from as int);
        assert(rest[0] == text@.subrange(from as int, stop as int));
        assert(rest.skip(1) =~= lines_from(text@, next as int));
        let ghost before = session@;
        match session.feed_chars(slice_subrange(text, from, stop)) {
            Ok((following, report)) => {
                session = following;
                let ghost written_before = output@;
                match report {
                    Some(line) => {
                        output.append(line.as_str());
                        output.append("\n");
                    },
                    None => {},
                }
                assert(output@ =~= written_before + written(report_view(report)));
                assert(written_before + before.run(rest).output =~= output@ + session@.run(
                    lines_from(text@, next as int),
                ).output);
            },
            Err(e) => {
                return Err(e);
            },
        }
        from = next;
    }
}

} // verus!
