use vstd::prelude::*;

verus! {

/// The phase of the game. `NotStarted` is left when the first hand is dealt
/// and never entered again; the other four are the betting streets of a hand.
#[derive(Clone, Copy, Debug, PartialEq, Eq, Structural)]
pub enum GameState {
    NotStarted,
    PreFlop,
    Flop,
    Turn,
    River,
}

impl GameState {
    /// The phase that follows `self`: the streets in order, and `PreFlop`
    /// again after the river.
    pub open spec fn successor(self) -> GameState {
        match self {
            GameState::NotStarted => GameState::PreFlop,
            GameState::PreFlop => GameState::Flop,
            GameState::Flop => GameState::Turn,
            GameState::Turn => GameState::River,
            GameState::River => GameState::PreFlop,
        }
    }

    /// The number by which a phase is stored.
    pub open spec fn code(self) -> i32 {
        match self {
            GameState::NotStarted => 0,
            GameState::PreFlop => 1,
            GameState::Flop => 2,
            GameState::Turn => 3,
            GameState::River => 4,
        }
    }

    /// The phase that is stored as `value`, if there is one.
    pub open spec fn decode(value: i32) -> Option<GameState> {
        if value == 0 {
            Some(GameState::NotStarted)
        } else if value == 1 {
            Some(GameState::PreFlop)
        } else if value == 2 {
            Some(GameState::Flop)
        } else if value == 3 {
            Some(GameState::Turn)
        } else if value == 4 {
            Some(GameState::River)
        } else {
            None
        }
    }

    /// How many community cards are face up during this phase.
    pub open spec fn revealed(self) -> nat {
        match self {
            GameState::NotStarted => 0,
            GameState::PreFlop => 0,
            GameState::Flop => 3,
            GameState::Turn => 4,
            GameState::River => 5,
        }
    }

    /// The phase that follows `self`.
    pub fn next(self) -> (r: GameState)
        ensures
            r == self.successor(),
    {
        match self {
            GameState::NotStarted => GameState::PreFlop,
            GameState::PreFlop => GameState::Flop,
            GameState::Flop => GameState::Turn,
            GameState::Turn => GameState::River,
            GameState::River => GameState::PreFlop,
        }
    }

    /// The number by which the phase is stored.
    pub fn to_i32(self) -> (r: i32)
        ensures
            r == self.code(),
    {
        match self {
            GameState::NotStarted => 0,
            GameState::PreFlop => 1,
            GameState::Flop => 2,
            GameState::Turn => 3,
            GameState::River => 4,
        }
    }

    /// The phase that is stored as `value`, if there is one.
    pub fn from_i32(value: i32) -> (r: Option<GameState>)
        ensures
            r == GameState::decode(value),
    {
        match value {
            0 => Some(GameState::NotStarted),
            1 => Some(GameState::PreFlop),
            2 => Some(GameState::Flop),
            3 => Some(GameState::Turn),
            4 => Some(GameState::River),
            _ => None,
        }
    }

    /// How many community cards are face up during this phase.
    pub fn revealed_cards(self) -> (r: usize)
        ensures
            r == self.revealed(),
    {
        match self {
            GameState::NotStarted => 0,
            GameState::PreFlop => 0,
            GameState::Flop => 3,
            GameState::Turn => 4,
            GameState::River => 5,
        }
    }

    /// Storing a phase and reading it back gives the same phase, and no
    /// number stands for two phases.
    pub proof fn code_round_trip(s: GameState, value: i32)
        ensures
            GameState::decode(s.code()) == Some(s),
            GameState::decode(value) == Some(s) ==> s.code() == value,
            GameState::decode(value) is Some <==> 0 <= value <= 4,
    {
    }

    /// Four steps from any street lead back to it, and no step leads to
    /// `NotStarted`.
    pub proof fn successor_cycles(s: GameState)
        ensures
            s.successor() != GameState::NotStarted,
            s != GameState::NotStarted ==> s.successor().successor().successor().successor() == s,
    {
    }
}

} // verus!
