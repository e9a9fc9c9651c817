use vstd::prelude::*;

verus! {

/// Where a puzzle session stands: still being played, or solved.
#[derive(Clone, Copy, Debug, PartialEq, Eq, Structural)]
pub enum GameState {
    Playing,
    Win,
}

/// The short label shown for a state.
pub open spec fn state_label(s: GameState) -> Seq<char> {
    match s {
        GameState::Playing => "Play"@,
        GameState::Win => "Win"@,
    }
}

impl GameState {
    /// The label shown for this state: `Play` or `Win`.
    pub fn to_string(&self) -> (r: String)
        ensures
            r@ == state_label(*self),
    {
        match self {
            GameState::Playing => "Play".to_owned(),
            GameState::Win => "Win".to_owned(),
        }
    }
}

impl Default for GameState {
    fn default() -> (r: Self)
        ensures
            r == GameState::Playing,
    {
        GameState::Playing
    }
}

/// The state of one puzzle session: accepted moves so far, and whether it is won.
#[derive(Debug)]
pub struct Gameplay {
    pub steps: u32,
    pub state: GameState,
}

impl Default for Gameplay {
    fn default() -> (r: Self)
        ensures
            r.steps == 0,
            r.state == GameState::Playing,
    {
        Gameplay { steps: 0, state: GameState::Playing }
    }
}

} // verus!
