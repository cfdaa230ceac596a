use vstd::prelude::*;

use crate::enums::{next_rotation_spec, prev_rotation_spec, PlayableTetrisPieceType, TetrisPieceRotation};

verus! {

/// A kick offset: (column offset, row offset), the row offset counted upwards.
pub type Kick = (isize, isize);

/// Index of a directed rotation transition in the kick tables.
pub open spec fn kick_index_spec(from: TetrisPieceRotation, to: TetrisPieceRotation) -> int {
    match (from, to) {
        (TetrisPieceRotation::ZERO, TetrisPieceRotation::RIGHT) => 0,
        (TetrisPieceRotation::RIGHT, TetrisPieceRotation::ZERO) => 1,
        (TetrisPieceRotation::RIGHT, TetrisPieceRotation::TWO) => 2,
        (TetrisPieceRotation::TWO, TetrisPieceRotation::RIGHT) => 3,
        (TetrisPieceRotation::TWO, TetrisPieceRotation::LEFT) => 4,
        (TetrisPieceRotation::LEFT, TetrisPieceRotation::TWO) => 5,
        (TetrisPieceRotation::LEFT, TetrisPieceRotation::ZERO) => 6,
        _ => 7,
    }
}

/// Kick candidates of the I kind, per transition index.
pub open spec fn i_kicks_spec(index: int) -> Seq<Kick> {
    if index == 0 {
        seq![(0isize, 0isize), (-2isize, 0isize), (1isize, 0isize), (-2isize, -1isize), (1isize, 2isize)]
    } else if index == 1 {
        seq![(0isize, 0isize), (2isize, 0isize), (-1isize, 0isize), (2isize, 1isize), (-1isize, -2isize)]
    } else if index == 2 {
        seq![(0isize, 0isize), (-1isize, 0isize), (2isize, 0isize), (-1isize, 2isize), (2isize, -1isize)]
    } else if index == 3 {
        seq![(0isize, 0isize), (1isize, 0isize), (-2isize, 0isize), (1isize, -2isize), (-2isize, 1isize)]
    } else if index == 4 {
        seq![(0isize, 0isize), (2isize, 0isize), (-1isize, 0isize), (2isize, 1isize), (-1isize, -2isize)]
    } else if index == 5 {
        seq![(0isize, 0isize), (-2isize, 0isize), (1isize, 0isize), (-2isize, -1isize), (1isize, 2isize)]
    } else if index == 6 {
        seq![(0isize, 0isize), (1isize, 0isize), (-2isize, 0isize), (1isize, -2isize), (-2isize, 1isize)]
    } else {
        seq![(0isize, 0isize), (-1isize, 0isize), (2isize, 0isize), (-1isize, 2isize), (2isize, -1isize)]
    }
}

/// Kick candidates shared by the J, L, S, T and Z kinds, per transition index.
pub open spec fn default_kicks_spec(index: int) -> Seq<Kick> {
    if index == 0 {
        seq![(0isize, 0isize), (-1isize, 0isize), (-1isize, 1isize), (0isize, -2isize), (-1isize, -2isize)]
    } else if index == 1 {
        seq![(0isize, 0isize), (1isize, 0isize), (1isize, -1isize), (0isize, 2isize), (1isize, 2isize)]
    } else if index == 2 {
        seq![(0isize, 0isize), (1isize, 0isize), (1isize, -1isize), (0isize, 2isize), (1isize, 2isize)]
    } else if index == 3 {
        seq![(0isize, 0isize), (-1isize, 0isize), (-1isize, 1isize), (0isize, -2isize), (-1isize, -2isize)]
    } else if index == 4 {
        seq![(0isize, 0isize), (1isize, 0isize), (1isize, 1isize), (0isize, -2isize), (1isize, -2isize)]
    } else if index == 5 {
        seq![(0isize, 0isize), (-1isize, 0isize), (-1isize, -1isize), (0isize, 2isize), (-1isize, 2isize)]
    } else if index == 6 {
        seq![(0isize, 0isize), (-1isize, 0isize), (-1isize, -1isize), (0isize, 2isize), (-1isize, 2isize)]
    } else {
        seq![(0isize, 0isize), (1isize, 0isize), (1isize, 1isize), (0isize, -2isize), (1isize, -2isize)]
    }
}

/// Ordered kick candidates of a kind for a rotation transition; the first
/// candidate is always the zero offset.
pub open spec fn kick_table(
    piece: PlayableTetrisPieceType,
    from: TetrisPieceRotation,
    to: TetrisPieceRotation,
) -> Seq<Kick> {
    match piece {
        PlayableTetrisPieceType::I => i_kicks_spec(kick_index_spec(from, to)),
        PlayableTetrisPieceType::O => seq![(0isize, 0isize)],
        _ => default_kicks_spec(kick_index_spec(from, to)),
    }
}

/// Each kick table starts with the zero offset and has small offsets.
pub proof fn lemma_kick_table_shape(
    piece: PlayableTetrisPieceType,
    from: TetrisPieceRotation,
    to: TetrisPieceRotation,
)
    ensures
        kick_table(piece, from, to).len() >= 1,
        kick_table(piece, from, to)[0] == (0isize, 0isize),
        forall|k: int|
            0 <= k < kick_table(piece, from, to).len() ==> -2 <= (#[trigger] kick_table(piece, from, to)[k]).0 <= 2
                && -2 <= kick_table(piece, from, to)[k].1 <= 2,
{
}

fn kick_index(from: TetrisPieceRotation, to: TetrisPieceRotation) -> (i: usize)
    requires
        to == next_rotation_spec(from) || to == prev_rotation_spec(from),
    ensures
        i as int == kick_index_spec(from, to),
        i < 8,
{
    match (from, to) {
        (TetrisPieceRotation::ZERO, TetrisPieceRotation::RIGHT) => 0,
        (TetrisPieceRotation::RIGHT, TetrisPieceRotation::ZERO) => 1,
        (TetrisPieceRotation::RIGHT, TetrisPieceRotation::TWO) => 2,
        (TetrisPieceRotation::TWO, TetrisPieceRotation::RIGHT) => 3,
        (TetrisPieceRotation::TWO, TetrisPieceRotation::LEFT) => 4,
        (TetrisPieceRotation::LEFT, TetrisPieceRotation::TWO) => 5,
        (TetrisPieceRotation::LEFT, TetrisPieceRotation::ZERO) => 6,
        _ => 7,
    }
}

fn i_kicks(index: usize) -> (k: Vec<Kick>)
    requires
        index < 8,
    ensures
        k@ == i_kicks_spec(index as int),
{
    let k = match index {
        0 => vec![(0isize, 0isize), (-2isize, 0isize), (1isize, 0isize), (-2isize, -1isize), (1isize, 2isize)],
        1 => vec![(0isize, 0isize), (2isize, 0isize), (-1isize, 0isize), (2isize, 1isize), (-1isize, -2isize)],
        2 => vec![(0isize, 0isize), (-1isize, 0isize), (2isize, 0isize), (-1isize, 2isize), (2isize, -1isize)],
        3 => vec![(0isize, 0isize), (1isize, 0isize), (-2isize, 0isize), (1isize, -2isize), (-2isize, 1isize)],
        4 => vec![(0isize, 0isize), (2isize, 0isize), (-1isize, 0isize), (2isize, 1isize), (-1isize, -2isize)],
        5 => vec![(0isize, 0isize), (-2isize, 0isize), (1isize, 0isize), (-2isize, -1isize), (1isize, 2isize)],
        6 => vec![(0isize, 0isize), (1isize, 0isize), (-2isize, 0isize), (1isize, -2isize), (-2isize, 1isize)],
        _ => vec![(0isize, 0isize), (-1isize, 0isize), (2isize, 0isize), (-1isize, 2isize), (2isize, -1isize)],
    };
    assert(k@ =~= i_kicks_spec(index as int));
    k
}

fn default_kicks(index: usize) -> (k: Vec<Kick>)
    requires
        index < 8,
    ensures
        k@ == default_kicks_spec(index as int),
{
    let k = match index {
        0 => vec![(0isize, 0isize), (-1isize, 0isize), (-1isize, 1isize), (0isize, -2isize), (-1isize, -2isize)],
        1 => vec![(0isize, 0isize), (1isize, 0isize), (1isize, -1isize), (0isize, 2isize), (1isize, 2isize)],
        2 => vec![(0isize, 0isize), (1isize, 0isize), (1isize, -1isize), (0isize, 2isize), (1isize, 2isize)],
        3 => vec![(0isize, 0isize), (-1isize, 0isize), (-1isize, 1isize), (0isize, -2isize), (-1isize, -2isize)],
        4 => vec![(0isize, 0isize), (1isize, 0isize), (1isize, 1isize), (0isize, -2isize), (1isize, -2isize)],
        5 => vec![(0isize, 0isize), (-1isize, 0isize), (-1isize, -1isize), (0isize, 2isize), (-1isize, 2isize)],
        6 => vec![(0isize, 0isize), (-1isize, 0isize), (-1isize, -1isize), (0isize, 2isize), (-1isize, 2isize)],
        _ => vec![(0isize, 0isize), (1isize, 0isize), (1isize, 1isize), (0isize, -2isize), (1isize, -2isize)],
    };
    assert(k@ =~= default_kicks_spec(index as int));
    k
}

/// Kick candidates of `piece` for the transition `from` to `to` (adjacent states).
pub fn get_kicks(
    piece: PlayableTetrisPieceType,
    from: TetrisPieceRotation,
    to: TetrisPieceRotation,
) -> (k: Vec<Kick>)
    requires
        to == next_rotation_spec(from) || to == prev_rotation_spec(from),
    ensures
        k@ == kick_table(piece, from, to),
{
    let index = kick_index(from, to);
    match piece {
        PlayableTetrisPieceType::I => i_kicks(index),
        PlayableTetrisPieceType::O => {
            let k = vec![(0isize, 0isize)];
            assert(k@ =~= seq![(0isize, 0isize)]);
            k
        },
        _ => default_kicks(index),
    }
}

/// Whether a kick actually moves the piece.
pub fn is_not_empty(kick: Kick) -> (r: bool)
    ensures
        r == (kick.0 != 0 || kick.1 != 0),
{
    kick.0 != 0 || kick.1 != 0
}

} // verus!
