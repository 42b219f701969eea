use vstd::prelude::*;
use crate::state::card::Card;
use crate::state::rank::Value;
use crate::state::suit::Suit;

verus! {

/// The card that is stored as the number `card`: the numbers below 52 stand
/// for the cards suit by suit, hearts, diamonds, clubs, spades, and within a
/// suit from the ace up to the king. Other numbers stand for no card.
pub open spec fn card_of(card: u8) -> Option<Card> {
    if card < 52 {
        Some(
            Card {
                suit: Suit::decode((card / 13) as i32)->Some_0,
                value: Value::decode((card % 13 + 1) as i32)->Some_0,
            },
        )
    } else {
        None
    }
}

/// The number as which `card` is stored.
pub open spec fn number_of(card: Card) -> u8 {
    (13 * card.suit.code() + card.value.code() - 1) as u8
}

/// The two cards that are stored as the pair `hand`.
pub open spec fn cards_of(hand: (u8, u8)) -> Option<(Card, Card)> {
    match (card_of(hand.0), card_of(hand.1)) {
        (Some(first), Some(second)) => Some((first, second)),
        _ => None,
    }
}

/// The number under which the hand evaluator knows `card`: four times its
/// face, the two counted as 0 and the ace as 12, plus its suit, which it
/// counts in the order clubs, diamonds, hearts, spades.
pub open spec fn rank_key(card: Card) -> nat {
    let face: nat = match card.value {
        Value::Ace => 12,
        Value::Two => 0,
        Value::Three => 1,
        Value::Four => 2,
        Value::Five => 3,
        Value::Six => 4,
        Value::Seven => 5,
        Value::Eight => 6,
        Value::Nine => 7,
        Value::Ten => 8,
        Value::Jack => 9,
        Value::Queen => 10,
        Value::King => 11,
    };
    let suit: nat = match card.suit {
        Suit::Clubs => 0,
        Suit::Diamonds => 1,
        Suit::Hearts => 2,
        Suit::Spades => 3,
    };
    4 * face + suit
}

/// The cards and the numbers below 52 stand for each other one for one.
pub proof fn card_numbers_are_one_to_one(card: Card, number: u8)
    ensures
        number_of(card) < 52,
        card_of(number_of(card)) == Some(card),
        number < 52 ==> card_of(number) is Some && number_of(card_of(number)->Some_0) == number,
        number >= 52 ==> card_of(number) is None,
{
    Suit::code_round_trip(card.suit, 0);
    Value::code_round_trip(card.value, 0);
    if number < 52 {
        Suit::code_round_trip(Suit::Hearts, (number / 13) as i32);
        Value::code_round_trip(Value::Ace, (number % 13 + 1) as i32);
    }
}

/// The evaluator's numbers are below 52 too, and two cards never share one.
pub proof fn rank_keys_are_one_to_one(first: Card, second: Card)
    ensures
        rank_key(first) < 52,
        rank_key(first) == rank_key(second) ==> first == second,
{
}

/// The card that is stored as the number `card`, if it is one.
pub fn u8_to_card(card: u8) -> (r: Option<Card>)
    ensures
        r == card_of(card),
{
    if card >= 52 {
        return None;
    }
    let value: Value = match card % 13 {
        0 => Value::Ace,
        1 => Value::Two,
        2 => Value::Three,
        3 => Value::Four,
        4 => Value::Five,
        5 => Value::Six,
        6 => Value::Seven,
        7 => Value::Eight,
        8 => Value::Nine,
        9 => Value::Ten,
        10 => Value::Jack,
        11 => Value::Queen,
        _ => Value::King,
    };
    let suit: Suit = match card / 13 {
        0 => Suit::Hearts,
        1 => Suit::Diamonds,
        2 => Suit::Clubs,
        _ => Suit::Spades,
    };
    Some(Card { suit, value })
}

/// The two cards that are stored as the pair `hand`, if both are cards.
pub fn u8s_to_cards(hand: (u8, u8)) -> (r: Option<(Card, Card)>)
    ensures
        r == cards_of(hand),
{
    match (u8_to_card(hand.0), u8_to_card(hand.1)) {
        (Some(first), Some(second)) => Some((first, second)),
        _ => None,
    }
}

/// The number as which `card` is stored.
pub fn card_to_u8(card: Card) -> (r: u8)
    ensures
        r == number_of(card),
        r < 52,
{
    let suit: u8 = match card.suit {
        Suit::Hearts => 0,
        Suit::Diamonds => 1,
        Suit::Clubs => 2,
        Suit::Spades => 3,
    };
    let value: u8 = match card.value {
        Value::Ace => 0,
        Value::Two => 1,
        Value::Three => 2,
        Value::Four => 3,
        Value::Five => 4,
        Value::Six => 5,
        Value::Seven => 6,
        Value::Eight => 7,
        Value::Nine => 8,
        Value::Ten => 9,
        Value::Jack => 10,
        Value::Queen => 11,
        Value::King => 12,
    };
    13 * suit + value
}

/// The evaluator's number of `card`.
pub fn evaluator_key(card: Card) -> (r: usize)
    ensures
        r == rank_key(card),
        r < 52,
{
    let face: usize = match card.value {
        Value::Ace => 12,
        Value::Two => 0,
        Value::Three => 1,
        Value::Four => 2,
        Value::Five => 3,
        Value::Six => 4,
        Value::Seven => 5,
        Value::Eight => 6,
        Value::Nine => 7,
        Value::Ten => 8,
        Value::Jack => 9,
        Value::Queen => 10,
        Value::King => 11,
    };
    let suit: usize = match card.suit {
        Suit::Clubs => 0,
        Suit::Diamonds => 1,
        Suit::Hearts => 2,
        Suit::Spades => 3,
    };
    4 * face + suit
}

} // verus!
