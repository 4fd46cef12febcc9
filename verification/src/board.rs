//! Position arithmetic and square classification for the reference board:
//! a linear track of 64 squares numbered 0 to 63, with one bridge square,
//! a fixed set of goose squares, and the end square.

use vstd::prelude::*;

verus! {

/// Index of the final square.
pub const END_SQUARE: u32 = 63;

/// Index of the bridge square.
pub const BRIDGE_SQUARE: u32 = 6;

/// Square a player is relocated to after landing on the bridge.
pub const BRIDGE_TARGET: u32 = 12;

/// Largest move distance (sum of two dice) the engine accepts.  Keeping the
/// distance within this bound guarantees that the bounce-back formula never
/// falls below square 0, whatever the starting square; callers are expected
/// to hand in small die faces anyway.
pub const MAX_DISTANCE: u32 = 64;

/// The kind of a square on the track.
#[derive(PartialEq, Eq, Debug)]
pub enum PositionType {
    TheBridge,
    TheGoose,
    Normal,
    End,
}

/// Outcome of advancing a position: either the move overshot the end square
/// and bounced back (carrying the resting square and the touched end
/// square), or it landed normally.
#[derive(PartialEq, Eq, Debug)]
pub enum AddPosition<P> {
    Bounced(P, P),
    Normal(P),
}

/// Whether `square` is one of the board's goose squares.
pub open spec fn is_goose_square(square: int) -> bool {
    square == 5 || square == 9 || square == 14 || square == 18 || square == 23 || square == 27
}

/// The kind of the square at index `square`.
pub open spec fn square_type(square: int) -> PositionType {
    if square == BRIDGE_SQUARE {
        PositionType::TheBridge
    } else if is_goose_square(square) {
        PositionType::TheGoose
    } else if square == END_SQUARE {
        PositionType::End
    } else {
        PositionType::Normal
    }
}

/// Whether a move of `distance` from `start` overshoots the end square.
pub open spec fn bounces(start: int, distance: int) -> bool {
    start + distance > END_SQUARE
}

/// The square such a move touches: the end square on an overshoot,
/// otherwise the sum itself.
pub open spec fn touched(start: int, distance: int) -> int {
    if bounces(start, distance) {
        END_SQUARE as int
    } else {
        start + distance
    }
}

/// The square the move comes to rest on.  An overshoot reflects off the end
/// square: the piece ends up as far beyond the end as it overshot, counted
/// backwards.
pub open spec fn landing(start: int, distance: int) -> int {
    if bounces(start, distance) {
        END_SQUARE * 2 - start - distance + 1
    } else {
        start + distance
    }
}

/// Advance `start` by `distance`, reporting either the bounced resting
/// square together with the touched end square, or the normal landing
/// square.
pub fn advance(start: u32, distance: u32) -> (r: AddPosition<u32>)
    requires
        start <= END_SQUARE,
        distance <= MAX_DISTANCE,
    ensures
        (match r {
            AddPosition::Bounced(rest, end) => bounces(start as int, distance as int)
                && rest == landing(start as int, distance as int) && end == END_SQUARE,
            AddPosition::Normal(next) => !bounces(start as int, distance as int) && next
                == landing(start as int, distance as int),
        }),
{
    if start + distance > END_SQUARE {
        AddPosition::Bounced(END_SQUARE * 2 + 1 - start - distance, END_SQUARE)
    } else {
        AddPosition::Normal(start + distance)
    }
}

/// Classify the square at index `square`.
pub fn classify(square: u32) -> (t: PositionType)
    ensures
        t == square_type(square as int),
{
    if square == BRIDGE_SQUARE {
        PositionType::TheBridge
    } else if square == 5 || square == 9 || square == 14 || square == 18 || square == 23
        || square == 27 {
        PositionType::TheGoose
    } else if square == END_SQUARE {
        PositionType::End
    } else {
        PositionType::Normal
    }
}

/// A track position as a plain square index.
#[derive(Clone, Copy, PartialEq, Eq, Structural, Debug)]
pub struct SamplePosition(pub u32);

impl View for SamplePosition {
    type V = int;

    open spec fn view(&self) -> int {
        self.0 as int
    }
}

impl SamplePosition {
    /// Advance this position by one roll, bouncing off the end square on an
    /// overshoot.
    pub fn add(self, roll: u32) -> (r: AddPosition<SamplePosition>)
        requires
            self@ <= END_SQUARE,
            roll <= MAX_DISTANCE,
        ensures
            (match r {
                AddPosition::Bounced(rest, end) => bounces(self@, roll as int) && rest@ == landing(
                    self@,
                    roll as int,
                ) && end@ == END_SQUARE,
                AddPosition::Normal(next) => !bounces(self@, roll as int) && next@ == landing(
                    self@,
                    roll as int,
                ),
            }),
    {
        match advance(self.0, roll) {
            AddPosition::Bounced(rest, end) => AddPosition::Bounced(
                SamplePosition(rest),
                SamplePosition(end),
            ),
            AddPosition::Normal(next) => AddPosition::Normal(SamplePosition(next)),
        }
    }

    /// The kind of the square this position rests on.
    pub fn get_type(&self) -> (t: PositionType)
        ensures
            t == square_type(self@),
    {
        classify(self.0)
    }
}

} // verus!
