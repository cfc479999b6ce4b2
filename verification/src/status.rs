//! Game phase and season tags attached to every normalized record.

use vstd::prelude::*;

verus! {

/// Coarse phase of a game, derived from the raw period number.
#[derive(Clone, Copy, Debug, PartialEq, Eq, Structural)]
pub enum GameStatus {
    Coming,
    Period1,
    Period2,
    Period3,
    Overtime,
    Shootout,
    Finished,
}

/// The phase a raw period number stands for: nothing yet before period one,
/// the three regulation periods, overtime, the shootout, and anything later
/// or unknown counted as finished.
pub open spec fn status_of_period(p: int) -> GameStatus {
    if p <= 0 {
        GameStatus::Coming
    } else if p == 1 {
        GameStatus::Period1
    } else if p == 2 {
        GameStatus::Period2
    } else if p == 3 {
        GameStatus::Period3
    } else if p == 4 {
        GameStatus::Overtime
    } else if p == 5 {
        GameStatus::Shootout
    } else {
        GameStatus::Finished
    }
}

impl GameStatus {
    pub fn from_period(p: i16) -> (r: GameStatus)
        ensures
            r == status_of_period(p as int),
    {
        if p <= 0 {
            GameStatus::Coming
        } else if p == 1 {
            GameStatus::Period1
        } else if p == 2 {
            GameStatus::Period2
        } else if p == 3 {
            GameStatus::Period3
        } else if p == 4 {
            GameStatus::Overtime
        } else if p == 5 {
            GameStatus::Shootout
        } else {
            GameStatus::Finished
        }
    }
}

/// The season tag this deployment ingests; fixed per deployment.
#[derive(Clone, Copy, Debug, PartialEq, Eq, Structural)]
pub enum Season {
    Season2022,
}

} // verus!
