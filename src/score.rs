use vstd::prelude::*;

verus! {

/// Classification of a lock that cleared rows.
#[derive(Debug, Clone, Copy, PartialEq, Eq, Structural)]
pub enum ScoreType {
    TSpinSingle,
    TSpinDouble,
    TSpinTriple,
    TSpinMini,
    Tetris,
    AllClear,
    Single,
    Double,
    Triple,
}

/// Only a Tetris or a T-spin counts for back-to-back.
pub open spec fn b2b_worth(s: ScoreType) -> bool {
    s is Tetris || s is TSpinSingle || s is TSpinDouble || s is TSpinTriple || s is TSpinMini
}

pub fn is_b2b_worth(s: ScoreType) -> (r: bool)
    ensures
        r == b2b_worth(s),
{
    match s {
        ScoreType::Tetris | ScoreType::TSpinSingle | ScoreType::TSpinDouble
        | ScoreType::TSpinTriple | ScoreType::TSpinMini => true,
        _ => false,
    }
}

/// Classification by cleared-row count; `t_spin` holds when the locked piece
/// is a T, its last move was a rotation, and at least three of the corners
/// around its center are occupied or off the board.
pub open spec fn classification(cleared: u32, t_spin: bool) -> ScoreType {
    if t_spin && cleared == 1 {
        ScoreType::TSpinSingle
    } else if t_spin && cleared == 2 {
        ScoreType::TSpinDouble
    } else if t_spin && cleared == 3 {
        ScoreType::TSpinTriple
    } else if cleared == 1 {
        ScoreType::Single
    } else if cleared == 2 {
        ScoreType::Double
    } else if cleared == 3 {
        ScoreType::Triple
    } else {
        ScoreType::Tetris
    }
}

/// Last classification, back-to-back streak and combo streak.
#[derive(Debug, Clone, Copy, PartialEq, Eq, Structural)]
pub struct ScoreState {
    pub last_score: Option<ScoreType>,
    pub back_to_back: u32,
    pub current_combo: u32,
}

/// `n + 1`, held at the largest `u32`.
pub open spec fn bump(n: u32) -> u32 {
    if n == u32::MAX {
        n
    } else {
        (n + 1) as u32
    }
}

/// The score state after a lock that cleared `cleared` rows. A lock without
/// clears resets the combo and leaves no classification. Otherwise the combo
/// grows, the back-to-back streak grows when this and the previous
/// classification are both eligible (else it resets), and a board left empty
/// turns the classification into an all-clear with the streak reset.
pub open spec fn next_score(s: ScoreState, cleared: u32, t_spin: bool, board_empty: bool) -> ScoreState {
    if cleared == 0 {
        ScoreState { last_score: None, back_to_back: s.back_to_back, current_combo: 0 }
    } else if board_empty {
        ScoreState {
            last_score: Some(ScoreType::AllClear),
            back_to_back: 0,
            current_combo: bump(s.current_combo),
        }
    } else {
        let c = classification(cleared, t_spin);
        let b2b = match s.last_score {
            Some(prev) => b2b_worth(c) && b2b_worth(prev),
            None => false,
        };
        ScoreState {
            last_score: Some(c),
            back_to_back: if b2b {
                bump(s.back_to_back)
            } else {
                0
            },
            current_combo: bump(s.current_combo),
        }
    }
}

impl ScoreState {
    pub fn new() -> (s: Self)
        ensures
            s == (ScoreState { last_score: None, back_to_back: 0, current_combo: 0 }),
    {
        ScoreState { last_score: None, back_to_back: 0, current_combo: 0 }
    }

    /// Applies the classification rules to one lock.
    pub fn record_lock(&mut self, cleared: u32, t_spin: bool, board_empty: bool)
        ensures
            *final(self) == next_score(*old(self), cleared, t_spin, board_empty),
    {
        if cleared == 0 {
            self.current_combo = 0;
            self.last_score = None;
            return ;
        }
        self.current_combo = self.current_combo.saturating_add(1);
        let last = self.last_score;
        let current = classify(cleared, t_spin);
        let is_b2b = match last {
            Some(prev) => is_b2b_worth(current) && is_b2b_worth(prev),
            None => false,
        };
        if is_b2b {
            self.back_to_back = self.back_to_back.saturating_add(1);
        } else {
            self.back_to_back = 0;
        }
        self.last_score = Some(current);
        if board_empty {
            self.back_to_back = 0;
            self.last_score = Some(ScoreType::AllClear);
        }
    }
}

pub fn classify(cleared: u32, t_spin: bool) -> (s: ScoreType)
    ensures
        s == classification(cleared, t_spin),
{
    if t_spin && cleared == 1 {
        ScoreType::TSpinSingle
    } else if t_spin && cleared == 2 {
        ScoreType::TSpinDouble
    } else if t_spin && cleared == 3 {
        ScoreType::TSpinTriple
    } else if cleared == 1 {
        ScoreType::Single
    } else if cleared == 2 {
        ScoreType::Double
    } else if cleared == 3 {
        ScoreType::Triple
    } else {
        ScoreType::Tetris
    }
}

/// A lock of a piece that is no T-spin, clearing exactly four rows and
/// leaving the board non-empty, is a Tetris; the back-to-back streak grows
/// when the previous classification was also eligible.
pub proof fn lemma_tetris_classification(s: ScoreState)
    ensures
        next_score(s, 4, false, false).last_score == Some(ScoreType::Tetris),
        (s.last_score is Some && b2b_worth(s.last_score.unwrap())) ==> next_score(
            s,
            4,
            false,
            false,
        ).back_to_back == bump(s.back_to_back),
        !(s.last_score is Some && b2b_worth(s.last_score.unwrap())) ==> next_score(
            s,
            4,
            false,
            false,
        ).back_to_back == 0,
{
}

/// A lock that clears rows and leaves the board empty is an all-clear,
/// whatever the row count or T-spin, and resets the back-to-back streak.
pub proof fn lemma_all_clear_precedence(s: ScoreState, cleared: u32, t_spin: bool)
    requires
        cleared > 0,
    ensures
        next_score(s, cleared, t_spin, true).last_score == Some(ScoreType::AllClear),
        next_score(s, cleared, t_spin, true).back_to_back == 0,
{
}

} // verus!
