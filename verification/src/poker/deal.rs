use vstd::prelude::*;
use crate::error::PokerError;
use crate::poker::bets::take_forced_bet;
use crate::poker::turn::find_next_player;
use crate::state::chips::{funded, funded_le_len, funded_take_le, funded_take_step};
use crate::state::deck::{card_at, draws_are_distinct, shuffled, Deck};
use crate::state::store::{Store, StoreView, MAX_PLAYERS};

verus! {

/// The seed that a block's randomness gives, where the block carries any.
pub open spec fn seed_of(random: Option<Vec<u8>>) -> Option<Seq<u8>> {
    match random {
        Some(seed) => Some(seed@),
        None => None,
    }
}

/// How many cards a hand takes: two for each seat that holds chips, and
/// five for the table.
pub open spec fn cards_needed(balances: Seq<u128>) -> nat {
    2 * funded(balances) + 5
}

/// The hand of seat `i`: the seats that hold chips are dealt in seating
/// order, two cards each, and the others get nothing.
pub open spec fn dealt_hand(balances: Seq<u128>, seed: Seq<u8>, i: int) -> Option<(u8, u8)> {
    if balances[i] > 0 {
        let before = funded(balances.take(i));
        Some((card_at(seed, 2 * before), card_at(seed, 2 * before + 1)))
    } else {
        None
    }
}

/// The hands of all seats.
pub open spec fn dealt_hands(balances: Seq<u128>, seed: Seq<u8>) -> Seq<Option<(u8, u8)>> {
    Seq::new(balances.len(), |i: int| dealt_hand(balances, seed, i))
}

/// The five community cards: those drawn after the last hand.
pub open spec fn dealt_table(balances: Seq<u128>, seed: Seq<u8>) -> Seq<u8> {
    Seq::new(5, |j: int| card_at(seed, (2 * funded(balances) + j) as nat))
}

/// All the cards of a hand in the order in which they are drawn.
pub open spec fn dealt_cards(balances: Seq<u128>, seed: Seq<u8>) -> Seq<u8> {
    Seq::new(cards_needed(balances), |k: int| card_at(seed, k as nat))
}

/// A hand is dealt from one deck without replacement: the cards that are
/// drawn for it, two for each seat with chips and five for the table, are
/// all different cards of the fifty-two; each dealt hand and the table are
/// made of these cards, each drawn card going to one place.
pub proof fn dealt_cards_are_distinct(balances: Seq<u128>, seed: Seq<u8>)
    requires
        balances.len() <= MAX_PLAYERS,
        seed.len() >= cards_needed(balances),
    ensures
        dealt_cards(balances, seed).len() == 2 * funded(balances) + 5,
        dealt_cards(balances, seed).no_duplicates(),
        forall|k: int|
            0 <= k < dealt_cards(balances, seed).len() ==> #[trigger] dealt_cards(
                balances,
                seed,
            )[k] < 52,
        forall|i: int|
            0 <= i < balances.len() && balances[i] > 0 ==> #[trigger] dealt_hands(
                balances,
                seed,
            )[i] == Some(
                (
                    dealt_cards(balances, seed)[2 * funded(balances.take(i)) as int],
                    dealt_cards(balances, seed)[2 * funded(balances.take(i)) + 1 as int],
                ),
            ),
        forall|j: int|
            0 <= j < 5 ==> #[trigger] dealt_table(balances, seed)[j] == dealt_cards(
                balances,
                seed,
            )[2 * funded(balances) + j],
{
    funded_le_len(balances);
    let cards = dealt_cards(balances, seed);
    assert forall|a: int, b: int| 0 <= a < cards.len() && 0 <= b < cards.len() && a != b implies cards[a]
        != cards[b] by {
        if a < b {
            draws_are_distinct(seed, a as nat, b as nat);
        } else {
            draws_are_distinct(seed, b as nat, a as nat);
        }
    }
    assert forall|k: int| 0 <= k < cards.len() implies #[trigger] cards[k] < 52 by {
        if k == 0 {
            draws_are_distinct(seed, 0, 1);
        } else {
            draws_are_distinct(seed, 0, k as nat);
        }
    }
    assert forall|i: int| 0 <= i < balances.len() && balances[i] > 0 implies #[trigger] dealt_hands(
        balances,
        seed,
    )[i] == Some(
        (
            cards[2 * funded(balances.take(i)) as int],
            cards[2 * funded(balances.take(i)) + 1 as int],
        ),
    ) by {
        funded_take_step(balances, i);
        funded_take_le(balances, i + 1);
    }
}

/// How many seats hold chips.
fn count_funded(balances: &Vec<u128>) -> (r: usize)
    ensures
        r == funded(balances@),
        r <= balances@.len(),
{
    let mut count: usize = 0;
    let mut i: usize = 0;
    while i < balances.len()
        invariant
            i <= balances.len(),
            count == funded(balances@.take(i as int)),
            count <= i,
        decreases balances.len() - i,
    {
        proof {
            funded_take_step(balances@, i as int);
        }
        if balances[i] > 0 {
            count = count + 1;
        }
        i = i + 1;
    }
    assert(balances@.take(i as int) =~= balances@);
    count
}

/// Deals a hand from a fresh deck: two cards to each seat that holds chips,
/// in seating order, then five to the table.
///
/// Fails with `InsufficientEntropy` exactly when the seed is shorter than
/// the number of cards to draw.
fn deal_cards(balances: &Vec<u128>, seed: &Vec<u8>) -> (r: Result<
    (Vec<Option<(u8, u8)>>, Vec<u8>),
    PokerError,
>)
    requires
        balances@.len() <= MAX_PLAYERS,
    ensures
        match r {
            Ok((hands, table)) => {
                &&& seed@.len() >= cards_needed(balances@)
                &&& hands@ == dealt_hands(balances@, seed@)
                &&& table@ == dealt_table(balances@, seed@)
            },
            Err(e) => e == PokerError::InsufficientEntropy && seed@.len() < cards_needed(
                balances@,
            ),
        },
{
    let players: usize = count_funded(balances);
    let needed: usize = 2 * players + 5;
    if seed.len() < needed {
        return Err(PokerError::InsufficientEntropy);
    }
    let mut deck = Deck::new();
    let mut hands: Vec<Option<(u8, u8)>> = Vec::new();
    let mut i: usize = 0;
    while i < balances.len()
        invariant
            i <= balances.len() <= MAX_PLAYERS,
            needed == cards_needed(balances@),
            seed@.len() >= needed,
            deck.wf(),
            deck.cursor() == 2 * funded(balances@.take(i as int)),
            deck.order() == shuffled(seed@, deck.cursor()),
            hands@.len() == i,
            forall|k: int| 0 <= k < i ==> #[trigger] hands@[k] == dealt_hand(balances@, seed@, k),
        decreases balances.len() - i,
    {
        proof {
            funded_take_step(balances@, i as int);
            funded_take_le(balances@, i + 1);
        }
        if balances[i] > 0 {
            let first: u8 = match deck.draw(seed.as_slice()) {
                Ok(card) => card,
                Err(e) => {
                    return Err(PokerError::InsufficientEntropy);
                },
            };
            assert(deck.order() == shuffled(seed@, deck.cursor()));
            let second: u8 = match deck.draw(seed.as_slice()) {
                Ok(card) => card,
                Err(e) => {
                    return Err(PokerError::InsufficientEntropy);
                },
            };
            hands.push(Some((first, second)));
        } else {
            hands.push(None);
        }
        i = i + 1;
    }
    assert(balances@.take(i as int) =~= balances@);
    assert(hands@ =~= dealt_hands(balances@, seed@));
    let mut table: Vec<u8> = Vec::new();
    let mut j: usize = 0;
    while j < 5
        invariant
            j <= 5,
            needed == cards_needed(balances@),
            seed@.len() >= needed,
            funded(balances@) <= MAX_PLAYERS,
            deck.wf(),
            deck.cursor() == 2 * funded(balances@) + j,
            deck.order() == shuffled(seed@, deck.cursor()),
            table@.len() == j,
            forall|k: int|
                0 <= k < j ==> #[trigger] table@[k] == card_at(
                    seed@,
                    (2 * funded(balances@) + k) as nat,
                ),
        decreases 5 - j,
    {
        let card: u8 = match deck.draw(seed.as_slice()) {
            Ok(card) => card,
            Err(e) => {
                return Err(PokerError::InsufficientEntropy);
            },
        };
        table.push(card);
        j = j + 1;
    }
    assert(table@ =~= dealt_table(balances@, seed@));
    Ok((hands, table))
}

/// A bet cell for each of `seats` seats, all of them empty.
pub(crate) fn empty_bets(seats: usize) -> (r: Vec<Option<u128>>)
    ensures
        r@ == Seq::new(seats as nat, |i: int| None::<u128>),
{
    let mut bets: Vec<Option<u128>> = Vec::new();
    let mut i: usize = 0;
    while i < seats
        invariant
            i <= seats,
            bets@.len() == i,
            forall|k: int| 0 <= k < i ==> #[trigger] bets@[k] == None::<u128>,
        decreases seats - i,
    {
        bets.push(None);
        i = i + 1;
    }
    assert(bets@ =~= Seq::new(seats as nat, |i: int| None::<u128>));
    bets
}

impl StoreView {
    /// The store with no seat having bet on the street.
    pub open spec fn without_bets(self) -> Seq<Option<u128>> {
        Seq::new(self.seats(), |i: int| None::<u128>)
    }

    /// The store once the cards of a new hand have been dealt with `seed`
    /// and before the blinds are posted.
    pub open spec fn dealt(self, seed: Seq<u8>, button: usize) -> StoreView {
        StoreView {
            hands: dealt_hands(self.balances, seed),
            table: dealt_table(self.balances, seed),
            bets: self.without_bets(),
            current_min_bet: self.lobby_config.big_blind as u128,
            button_position: button,
            ..self
        }
    }

    /// The store after seat `seat` has posted a blind of `take_amount`, or
    /// what it had.
    pub open spec fn after_blind(self, take_amount: u32, seat: int) -> StoreView {
        self.after_bet(
            seat,
            self.forced_amount(take_amount, seat),
            self.forced_amount(take_amount, seat),
        )
    }

    /// A new hand with the button at seat `button`.
    ///
    /// Every seat that holds chips is dealt two cards and the table five,
    /// drawn from a fresh deck with the block's randomness. No seat has bet,
    /// and the minimum bet is the big blind. The first eligible seat after
    /// the button posts the small blind, half a big blind rounded down; the
    /// first eligible seat after that one posts the big blind; each posts
    /// all it has where it has less, and the pot stays one pot: no side pot
    /// is made for a short blind. The first eligible seat after the big
    /// blind acts first, and the big blind counts as the last raise.
    ///
    /// It fails where the button is no seat of the table, where the block
    /// carries no randomness, where the seed is shorter than the number of
    /// cards to draw, and where a blind or the first turn finds no eligible
    /// seat, in this order.
    pub open spec fn new_hand_spec(self, button: usize, random: Option<Seq<u8>>) -> Result<
        StoreView,
        PokerError,
    > {
        if button >= self.seats() {
            Err(PokerError::PositionOutOfRange)
        } else {
            match random {
                None => Err(PokerError::RandomnessUnavailable),
                Some(seed) => {
                    if seed.len() < cards_needed(self.balances) {
                        Err(PokerError::InsufficientEntropy)
                    } else {
                        let dealt = self.dealt(seed, button);
                        match dealt.next_eligible(button + 1) {
                            None => Err(PokerError::NoEligiblePlayers),
                            Some(small) => {
                                let half = self.lobby_config.big_blind / 2;
                                let first = dealt.after_blind(half, small);
                                match first.next_eligible(small + 1) {
                                    None => Err(PokerError::NoEligiblePlayers),
                                    Some(big) => {
                                        let second = first.after_blind(
                                            self.lobby_config.big_blind,
                                            big,
                                        );
                                        match second.next_eligible(big + 1) {
                                            None => Err(PokerError::NoEligiblePlayers),
                                            Some(turn) => Ok(
                                                StoreView {
                                                    current_turn_position: turn as usize,
                                                    last_raiser: big as usize,
                                                    ..second
                                                },
                                            ),
                                        }
                                    },
                                }
                            },
                        }
                    }
                },
            }
        }
    }
}

/// Starts a hand with the button at seat `button_position`: deals the
/// cards, posts the two blinds and names the seat that acts first, as
/// `new_hand_spec` says. Where it fails the store is unchanged.
pub fn new_hand(button_position: usize, storage: &mut Store, random: &Option<Vec<u8>>) -> (r:
    Result<(), PokerError>)
    requires
        old(storage)@.wf(),
    ensures
        final(storage)@.wf(),
        final(storage)@.chips() == old(storage)@.chips(),
        match (r, old(storage)@.new_hand_spec(button_position, seed_of(*random))) {
            (Ok(_), Ok(next)) => final(storage)@ == next,
            (Err(e), Err(expected)) => e == expected && final(storage)@ == old(storage)@,
            _ => false,
        },
{
    let seats: usize = storage.all_players.len();
    if button_position >= seats {
        return Err(PokerError::PositionOutOfRange);
    }
    let seed: &Vec<u8> = match random {
        Some(seed) => seed,
        None => {
            return Err(PokerError::RandomnessUnavailable);
        },
    };
    let (hands, table) = match deal_cards(&storage.balances, seed) {
        Ok(cards) => cards,
        Err(e) => {
            return Err(e);
        },
    };
    let big_blind_amount: u32 = storage.lobby_config.big_blind;
    let mut work = storage.clone();
    work.hands = hands;
    work.table = table;
    work.bets = empty_bets(seats);
    work.current_min_bet = big_blind_amount as u128;
    work.button_position = button_position;
    assert(work@ =~= old(storage)@.dealt(seed@, button_position));
    assert(work@.wf());
    let small_blind_position: usize = match take_forced_bet(
        big_blind_amount / 2,
        button_position + 1,
        &mut work,
    ) {
        Ok(seat) => seat,
        Err(e) => {
            return Err(e);
        },
    };
    let big_blind_position: usize = match take_forced_bet(
        big_blind_amount,
        small_blind_position + 1,
        &mut work,
    ) {
        Ok(seat) => seat,
        Err(e) => {
            return Err(e);
        },
    };
    let next_player_position: usize = match find_next_player(&work, big_blind_position + 1) {
        Ok(seat) => seat,
        Err(e) => {
            return Err(e);
        },
    };
    work.current_turn_position = next_player_position;
    work.last_raiser = big_blind_position;
    *storage = work;
    Ok(())
}

} // verus!
