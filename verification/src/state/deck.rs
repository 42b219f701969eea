use vstd::prelude::*;
use crate::error::PokerError;

verus! {

/// The number of cards in a deck. A card is a number below it.
pub const DECK_SIZE: usize = 52;

/// The order of a deck that nothing has been drawn from: card `i` at place `i`.
pub open spec fn fresh_order() -> Seq<u8> {
    Seq::new(52, |i: int| i as u8)
}

/// `order` holds each of the fifty-two cards exactly once.
pub open spec fn is_full_deck(order: Seq<u8>) -> bool {
    &&& order.len() == 52
    &&& forall|i: int| 0 <= i < 52 ==> #[trigger] order[i] < 52
    &&& forall|i: int, j: int| 0 <= i < j < 52 ==> #[trigger] order[i] != #[trigger] order[j]
}

/// The place from which the draw at `cursor` takes its card: one of the
/// places from `cursor` on, chosen by the seed's byte at `cursor`.
pub open spec fn pick(seed: Seq<u8>, cursor: int) -> int {
    cursor + (seed[cursor] as int) % (52 - cursor)
}

/// `order` with the cards at places `i` and `j` exchanged.
pub open spec fn swapped(order: Seq<u8>, i: int, j: int) -> Seq<u8> {
    order.update(i, order[j]).update(j, order[i])
}

/// The order of the deck after `draws` draws from a fresh deck with `seed`.
pub open spec fn shuffled(seed: Seq<u8>, draws: nat) -> Seq<u8>
    decreases draws,
{
    if draws == 0 {
        fresh_order()
    } else {
        swapped(shuffled(seed, (draws - 1) as nat), draws - 1, pick(seed, draws - 1))
    }
}

/// The card that draw number `k`, counted from 0, hands out when a fresh
/// deck is drawn from with `seed`.
pub open spec fn card_at(seed: Seq<u8>, k: nat) -> u8 {
    shuffled(seed, k + 1)[k as int]
}

/// Exchanging two cards of a full deck leaves a full deck.
pub proof fn swapped_is_full_deck(order: Seq<u8>, i: int, j: int)
    requires
        is_full_deck(order),
        0 <= i < 52,
        0 <= j < 52,
    ensures
        is_full_deck(swapped(order, i, j)),
{
    let s = swapped(order, i, j);
    assert forall|a: int| 0 <= a < 52 implies #[trigger] s[a] < 52 by {
        assert(order[a] < 52);
        assert(order[i] < 52);
        assert(order[j] < 52);
    }
    assert forall|a: int, b: int| 0 <= a < b < 52 implies #[trigger] s[a] != #[trigger] s[b] by {
        let pa = if a == i { j } else if a == j { i } else { a };
        let pb = if b == i { j } else if b == j { i } else { b };
        assert(s[a] == order[pa]);
        assert(s[b] == order[pb]);
        assert(pa != pb);
        if pa < pb {
            assert(order[pa] != order[pb]);
        } else {
            assert(order[pb] != order[pa]);
        }
    }
}

/// However long the seed, the deck stays full while it is drawn from.
pub proof fn shuffled_is_full_deck(seed: Seq<u8>, draws: nat)
    requires
        draws <= 52,
        draws <= seed.len(),
    ensures
        is_full_deck(shuffled(seed, draws)),
    decreases draws,
{
    if draws == 0 {
        assert(is_full_deck(fresh_order()));
    } else {
        shuffled_is_full_deck(seed, (draws - 1) as nat);
        let c = draws - 1;
        assert(0 <= (seed[c] as int) % (52 - c) < 52 - c) by (nonlinear_arith)
            requires
                0 <= seed[c] as int,
                0 < 52 - c,
        ;
        swapped_is_full_deck(shuffled(seed, (draws - 1) as nat), c, pick(seed, c));
    }
}

/// A card that has been drawn stays where it was put: later draws exchange
/// cards behind it only.
pub proof fn drawn_card_stays(seed: Seq<u8>, k: nat, draws: nat)
    requires
        k < draws <= 52,
        draws <= seed.len(),
    ensures
        shuffled(seed, draws)[k as int] == card_at(seed, k),
    decreases draws,
{
    if draws > k + 1 {
        drawn_card_stays(seed, k, (draws - 1) as nat);
        shuffled_is_full_deck(seed, (draws - 1) as nat);
        let c = draws - 1;
        assert(0 <= (seed[c] as int) % (52 - c) < 52 - c) by (nonlinear_arith)
            requires
                0 <= seed[c] as int,
                0 < 52 - c,
        ;
    }
}

/// No card is dealt twice: two different draws from one deck hand out two
/// different cards, each of them one of the fifty-two.
pub proof fn draws_are_distinct(seed: Seq<u8>, a: nat, b: nat)
    requires
        a < b < 52,
        b < seed.len(),
    ensures
        card_at(seed, a) != card_at(seed, b),
        card_at(seed, a) < 52,
        card_at(seed, b) < 52,
{
    drawn_card_stays(seed, a, b + 1);
    shuffled_is_full_deck(seed, b + 1);
    shuffled_is_full_deck(seed, a + 1);
    let s = shuffled(seed, b + 1);
    assert(s[a as int] != s[b as int]);
    assert(s[b as int] < 52);
    assert(shuffled(seed, a + 1)[a as int] < 52);
}

/// A deck of fifty-two cards that is drawn from without replacement. The
/// cards before the cursor have been drawn, in that order; the next draw
/// takes one of the others.
pub struct Deck {
    cards: Vec<u8>,
    index: usize,
}

impl Deck {
    /// The cards in the order in which the deck holds them.
    pub closed spec fn order(&self) -> Seq<u8> {
        self.cards@
    }

    /// How many cards have been drawn.
    pub closed spec fn cursor(&self) -> nat {
        self.index as nat
    }

    /// The deck holds every card once, and its cursor lies within it.
    pub open spec fn wf(&self) -> bool {
        &&& is_full_deck(self.order())
        &&& self.cursor() <= 52
    }

    /// A full deck in its fresh order, with nothing drawn.
    pub fn new() -> (deck: Deck)
        ensures
            deck.wf(),
            deck.cursor() == 0,
            deck.order() == fresh_order(),
    {
        let mut cards: Vec<u8> = Vec::new();
        let mut i: u8 = 0;
        while i < 52
            invariant
                i <= 52,
                cards@.len() == i,
                forall|k: int| 0 <= k < i ==> cards@[k] == k as u8,
            decreases 52 - i,
        {
            cards.push(i);
            i = i + 1;
        }
        assert(cards@ =~= fresh_order());
        Deck { cards, index: 0 }
    }

    /// How many cards have been drawn from the deck.
    pub fn drawn(&self) -> (n: usize)
        ensures
            n == self.cursor(),
    {
        self.index
    }

    /// Draws one card. The seed's byte at the cursor chooses among the cards
    /// that are left; the chosen card changes places with the one at the
    /// cursor, and the cursor moves on. A deck that has only been drawn from
    /// with `seed` since it was new hands out the cards that `card_at` names.
    ///
    /// Fails with `InsufficientEntropy` where the seed has no byte for this
    /// draw, and with `DeckExhausted` where the seed has one but no card is
    /// left; the deck is then unchanged.
    pub fn draw(&mut self, seed: &[u8]) -> (r: Result<u8, PokerError>)
        requires
            old(self).wf(),
        ensures
            final(self).wf(),
            match r {
                Ok(card) => {
                    &&& old(self).cursor() < seed@.len()
                    &&& old(self).cursor() < 52
                    &&& final(self).cursor() == old(self).cursor() + 1
                    &&& final(self).order() == swapped(
                        old(self).order(),
                        old(self).cursor() as int,
                        pick(seed@, old(self).cursor() as int),
                    )
                    &&& card == final(self).order()[old(self).cursor() as int]
                    &&& card < 52
                    &&& old(self).order() == shuffled(seed@, old(self).cursor()) ==> {
                        &&& final(self).order() == shuffled(seed@, final(self).cursor())
                        &&& card == card_at(seed@, old(self).cursor())
                    }
                },
                Err(e) => {
                    &&& final(self).order() == old(self).order()
                    &&& final(self).cursor() == old(self).cursor()
                    &&& old(self).cursor() >= seed@.len() ==> e == PokerError::InsufficientEntropy
                    &&& old(self).cursor() < seed@.len() ==> e == PokerError::DeckExhausted
                        && old(self).cursor() >= 52
                },
            },
    {
        if self.index >= seed.len() {
            return Err(PokerError::InsufficientEntropy);
        }
        if self.index >= DECK_SIZE {
            return Err(PokerError::DeckExhausted);
        }
        let cursor: usize = self.index;
        let left: usize = DECK_SIZE - cursor;
        let offset: usize = (seed[cursor] as usize) % left;
        let chosen: usize = cursor + offset;
        assert(chosen == pick(seed@, cursor as int));
        let card: u8 = self.cards[chosen];
        let front: u8 = self.cards[cursor];
        self.cards.set(cursor, card);
        self.cards.set(chosen, front);
        self.index = cursor + 1;
        proof {
            assert(self.cards@ =~= swapped(old(self).order(), cursor as int, chosen as int));
            swapped_is_full_deck(old(self).order(), cursor as int, chosen as int);
        }
        Ok(card)
    }
}

} // verus!
