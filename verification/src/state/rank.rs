use vstd::prelude::*;

verus! {

/// The rank of a card, the ace counted first.
#[derive(Clone, Copy, Debug, PartialEq, Eq, Structural)]
pub enum Value {
    Ace,
    Two,
    Three,
    Four,
    Five,
    Six,
    Seven,
    Eight,
    Nine,
    Ten,
    Jack,
    Queen,
    King,
}

impl Value {
    /// The number by which a rank is stored: 1 for the ace up to 13 for the
    /// king.
    pub open spec fn code(self) -> i32 {
        match self {
            Value::Ace => 1,
            Value::Two => 2,
            Value::Three => 3,
            Value::Four => 4,
            Value::Five => 5,
            Value::Six => 6,
            Value::Seven => 7,
            Value::Eight => 8,
            Value::Nine => 9,
            Value::Ten => 10,
            Value::Jack => 11,
            Value::Queen => 12,
            Value::King => 13,
        }
    }

    /// The rank that is stored as `value`, if there is one.
    pub open spec fn decode(value: i32) -> Option<Value> {
        if value == 1 {
            Some(Value::Ace)
        } else if value == 2 {
            Some(Value::Two)
        } else if value == 3 {
            Some(Value::Three)
        } else if value == 4 {
            Some(Value::Four)
        } else if value == 5 {
            Some(Value::Five)
        } else if value == 6 {
            Some(Value::Six)
        } else if value == 7 {
            Some(Value::Seven)
        } else if value == 8 {
            Some(Value::Eight)
        } else if value == 9 {
            Some(Value::Nine)
        } else if value == 10 {
            Some(Value::Ten)
        } else if value == 11 {
            Some(Value::Jack)
        } else if value == 12 {
            Some(Value::Queen)
        } else if value == 13 {
            Some(Value::King)
        } else {
            None
        }
    }

    /// The number by which the rank is stored.
    pub fn to_i32(self) -> (r: i32)
        ensures
            r == self.code(),
    {
        match self {
            Value::Ace => 1,
            Value::Two => 2,
            Value::Three => 3,
            Value::Four => 4,
            Value::Five => 5,
            Value::Six => 6,
            Value::Seven => 7,
            Value::Eight => 8,
            Value::Nine => 9,
            Value::Ten => 10,
            Value::Jack => 11,
            Value::Queen => 12,
            Value::King => 13,
        }
    }

    /// The rank that is stored as `value`, if there is one.
    pub fn from_i32(value: i32) -> (r: Option<Value>)
        ensures
            r == Value::decode(value),
    {
        match value {
            1 => Some(Value::Ace),
            2 => Some(Value::Two),
            3 => Some(Value::Three),
            4 => Some(Value::Four),
            5 => Some(Value::Five),
            6 => Some(Value::Six),
            7 => Some(Value::Seven),
            8 => Some(Value::Eight),
            9 => Some(Value::Nine),
            10 => Some(Value::Ten),
            11 => Some(Value::Jack),
            12 => Some(Value::Queen),
            13 => Some(Value::King),
            _ => None,
        }
    }

    /// Storing a rank and reading it back gives the same rank, and no number
    /// stands for two ranks.
    pub proof fn code_round_trip(v: Value, value: i32)
        ensures
            Value::decode(v.code()) == Some(v),
            Value::decode(value) == Some(v) ==> v.code() == value,
            Value::decode(value) is Some <==> 1 <= value <= 13,
    {
    }
}

} // verus!
