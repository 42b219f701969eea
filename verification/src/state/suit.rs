use vstd::prelude::*;

verus! {

/// The suit of a card.
#[derive(Clone, Copy, Debug, PartialEq, Eq, Structural)]
pub enum Suit {
    Hearts,
    Diamonds,
    Clubs,
    Spades,
}

impl Suit {
    /// The number by which a suit is stored: 0 to 3.
    pub open spec fn code(self) -> i32 {
        match self {
            Suit::Hearts => 0,
            Suit::Diamonds => 1,
            Suit::Clubs => 2,
            Suit::Spades => 3,
        }
    }

    /// The suit that is stored as `value`, if there is one.
    pub open spec fn decode(value: i32) -> Option<Suit> {
        if value == 0 {
            Some(Suit::Hearts)
        } else if value == 1 {
            Some(Suit::Diamonds)
        } else if value == 2 {
            Some(Suit::Clubs)
        } else if value == 3 {
            Some(Suit::Spades)
        } else {
            None
        }
    }

    /// The number by which the suit is stored.
    pub fn to_i32(self) -> (r: i32)
        ensures
            r == self.code(),
    {
        match self {
            Suit::Hearts => 0,
            Suit::Diamonds => 1,
            Suit::Clubs => 2,
            Suit::Spades => 3,
        }
    }

    /// The suit that is stored as `value`, if there is one.
    pub fn from_i32(value: i32) -> (r: Option<Suit>)
        ensures
            r == Suit::decode(value),
    {
        match value {
            0 => Some(Suit::Hearts),
            1 => Some(Suit::Diamonds),
            2 => Some(Suit::Clubs),
            3 => Some(Suit::Spades),
            _ => None,
        }
    }

    /// Storing a suit and reading it back gives the same suit, and no number
    /// stands for two suits.
    pub proof fn code_round_trip(s: Suit, value: i32)
        ensures
            Suit::decode(s.code()) == Some(s),
            Suit::decode(value) == Some(s) ==> s.code() == value,
            Suit::decode(value) is Some <==> 0 <= value <= 3,
    {
    }
}

} // verus!
