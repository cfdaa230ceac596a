use vstd::prelude::*;

verus! {

/// The seven playable tetromino kinds.
#[derive(Debug, Clone, Copy, PartialEq, Eq, Structural)]
pub enum PlayableTetrisPieceType {
    T,
    L,
    J,
    O,
    I,
    S,
    Z,
}

/// What a filled cell holds: a playable kind, or pre-seeded obstacle content.
#[derive(Debug, Clone, Copy, PartialEq, Eq, Structural)]
pub enum TetrisPieceType {
    Playable(PlayableTetrisPieceType),
    NotPlayable,
}

/// The four rotation states, cyclic in the order listed.
#[derive(Debug, Clone, Copy, PartialEq, Eq, Structural)]
pub enum TetrisPieceRotation {
    ZERO,
    RIGHT,
    TWO,
    LEFT,
}

/// Clockwise successor of a rotation state.
pub open spec fn next_rotation_spec(r: TetrisPieceRotation) -> TetrisPieceRotation {
    match r {
        TetrisPieceRotation::ZERO => TetrisPieceRotation::RIGHT,
        TetrisPieceRotation::RIGHT => TetrisPieceRotation::TWO,
        TetrisPieceRotation::TWO => TetrisPieceRotation::LEFT,
        TetrisPieceRotation::LEFT => TetrisPieceRotation::ZERO,
    }
}

/// Counter-clockwise successor of a rotation state.
pub open spec fn prev_rotation_spec(r: TetrisPieceRotation) -> TetrisPieceRotation {
    match r {
        TetrisPieceRotation::ZERO => TetrisPieceRotation::LEFT,
        TetrisPieceRotation::LEFT => TetrisPieceRotation::TWO,
        TetrisPieceRotation::TWO => TetrisPieceRotation::RIGHT,
        TetrisPieceRotation::RIGHT => TetrisPieceRotation::ZERO,
    }
}

/// Rotating clockwise and then counter-clockwise (or the reverse) is the identity.
pub proof fn lemma_rotation_inverse(r: TetrisPieceRotation)
    ensures
        prev_rotation_spec(next_rotation_spec(r)) == r,
        next_rotation_spec(prev_rotation_spec(r)) == r,
{
}

} // verus!
