use vstd::prelude::*;
use crate::state::rank::Value;
use crate::state::suit::Suit;

verus! {

/// A playing card.
#[derive(Clone, Copy, Debug, PartialEq, Eq, Structural)]
pub struct Card {
    pub suit: Suit,
    pub value: Value,
}

/// What a seat shows to its owner: its two cards, while it holds any, and
/// its chips.
#[derive(Clone, Copy, Debug, PartialEq, Eq)]
pub struct Player {
    pub hand: Option<(Card, Card)>,
    pub chip_count: u128,
}

} // verus!
