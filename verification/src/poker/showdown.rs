use vstd::prelude::*;
use crate::error::PokerError;
use crate::poker::deal::empty_bets;
use crate::poker::eval::{hand_rank, Evaluator};
use crate::state::chips::{sum, sum_bounds_each, sum_update};
use crate::state::game_state::GameState;
use crate::state::store::{copy_of, Store, StoreView};

verus! {

/// How many of the hand cells hold a hand.
pub open spec fn count_live(hands: Seq<Option<(u8, u8)>>) -> nat
    decreases hands.len(),
{
    if hands.len() == 0 {
        0
    } else {
        count_live(hands.drop_last()) + if hands.last() is Some {
            1nat
        } else {
            0nat
        }
    }
}

/// Counting one hand cell more adds one where that cell holds a hand.
pub proof fn count_live_take_step(hands: Seq<Option<(u8, u8)>>, i: int)
    requires
        0 <= i < hands.len(),
    ensures
        count_live(hands.take(i + 1)) == count_live(hands.take(i)) + if hands[i] is Some {
            1nat
        } else {
            0nat
        },
{
    assert(hands.take(i + 1).drop_last() =~= hands.take(i));
}

/// The balances after each of `winners`, in turn, has been credited `share`.
pub open spec fn credit_all(balances: Seq<u128>, winners: Seq<usize>, share: nat) -> Seq<u128>
    decreases winners.len(),
{
    if winners.len() == 0 {
        balances
    } else {
        let before = credit_all(balances, winners.drop_last(), share);
        before.update(winners.last() as int, (before[winners.last() as int] + share) as u128)
    }
}

/// Crediting winners adds to the balances what it hands out and nothing
/// else, as long as no balance runs over.
pub proof fn credit_all_adds(balances: Seq<u128>, winners: Seq<usize>, share: nat)
    requires
        forall|k: int| 0 <= k < winners.len() ==> #[trigger] winners[k] < balances.len(),
        sum(balances) + winners.len() * share <= u128::MAX,
    ensures
        credit_all(balances, winners, share).len() == balances.len(),
        sum(credit_all(balances, winners, share)) == sum(balances) + winners.len() * share,
    decreases winners.len(),
{
    if winners.len() > 0 {
        let rest = winners.drop_last();
        assert((winners.len() - 1) * share + share == winners.len() * share)
            by (nonlinear_arith);
        assert(share >= 0);
        assert((winners.len() - 1) * share >= 0) by (nonlinear_arith)
            requires
                winners.len() >= 1,
                share >= 0,
        ;
        assert forall|k: int| 0 <= k < rest.len() implies #[trigger] rest[k] < balances.len() by {
            assert(rest[k] == winners[k]);
        }
        credit_all_adds(balances, rest, share);
        let before = credit_all(balances, rest, share);
        let w = winners.last() as int;
        assert(winners[winners.len() - 1] < balances.len());
        sum_bounds_each(before, w);
        sum_update(before, w, (before[w] + share) as u128);
    } else {
        assert(winners.len() * share == 0) by (nonlinear_arith)
            requires
                winners.len() == 0,
        ;
    }
}

impl StoreView {
    /// The rank with which each seat goes to showdown: that of its hand
    /// with the table's cards, and none for a seat without a hand.
    pub open spec fn showdown_ranks(self) -> Seq<Option<u32>> {
        Seq::new(
            self.seats(),
            |i: int|
                match self.hands[i] {
                    Some(hand) => hand_rank(hand, self.table),
                    None => None,
                },
        )
    }

    /// Seat `i` has a rank, and no live seat has a higher one.
    pub open spec fn holds_best_rank(self, ranks: Seq<Option<u32>>, i: int) -> bool {
        &&& i < ranks.len()
        &&& ranks[i] is Some
        &&& forall|j: int|
            self.live(j) && j < ranks.len() && (#[trigger] ranks[j]) is Some ==> ranks[j]->Some_0
                <= ranks[i]->Some_0
    }

    /// Seat `i` wins the pot, or a part of it: it holds a live hand, and
    /// either it is the only seat that does, whatever the ranks say, or its
    /// rank is the highest of the live seats.
    pub open spec fn is_winner(self, ranks: Seq<Option<u32>>, i: int) -> bool {
        &&& self.live(i)
        &&& count_live(self.hands) == 1 || self.holds_best_rank(ranks, i)
    }

    /// The winners among the first `k` seats, in seating order.
    pub open spec fn winners_below(self, ranks: Seq<Option<u32>>, k: nat) -> Seq<usize>
        decreases k,
    {
        if k == 0 {
            Seq::empty()
        } else {
            let below = self.winners_below(ranks, (k - 1) as nat);
            if self.is_winner(ranks, k - 1) {
                below.push((k - 1) as usize)
            } else {
                below
            }
        }
    }

    /// The winners of the hand, in seating order.
    pub open spec fn winners(self, ranks: Seq<Option<u32>>) -> Seq<usize> {
        self.winners_below(ranks, self.seats())
    }

    /// The store after the pot has been paid out to `winners`: each gets
    /// the pot divided by their number, the first of them what is left over,
    /// the pot is empty and no seat has a bet on the street.
    pub open spec fn paid_out(self, winners: Seq<usize>) -> StoreView {
        let share = self.pot as nat / winners.len();
        let left_over = self.pot as nat % winners.len();
        let credited = credit_all(self.balances, winners, share);
        StoreView {
            balances: credited.update(
                winners[0] as int,
                (credited[winners[0] as int] + left_over) as u128,
            ),
            pot: 0,
            bets: self.without_bets(),
            ..self
        }
    }

    /// The showdown, given the rank of each seat: the winners are paid out.
    /// It fails with `NoEligiblePlayers` where there is no winner.
    pub open spec fn award_spec(self, ranks: Seq<Option<u32>>) -> Result<StoreView, PokerError> {
        if self.winners(ranks).len() == 0 {
            Err(PokerError::NoEligiblePlayers)
        } else {
            Ok(self.paid_out(self.winners(ranks)))
        }
    }

    /// The showdown: the live hands are ranked and the winners paid out.
    pub open spec fn showdown_spec(self) -> Result<StoreView, PokerError> {
        self.award_spec(self.showdown_ranks())
    }

    /// The store when the hand is over: no seat holds cards or has a bet,
    /// the table is cleared, and the game is before the flop again.
    pub open spec fn round_ended(self) -> StoreView {
        StoreView {
            hands: Seq::new(self.seats(), |i: int| None::<(u8, u8)>),
            bets: self.without_bets(),
            table: Seq::empty(),
            current_state: GameState::PreFlop,
            ..self
        }
    }

    /// The winners are seats of the table, in rising order.
    pub proof fn winners_are_seats(self, ranks: Seq<Option<u32>>, k: nat)
        requires
            self.shaped(),
            k <= self.seats(),
        ensures
            self.winners_below(ranks, k).len() <= k,
            forall|a: int|
                0 <= a < self.winners_below(ranks, k).len() ==> #[trigger] self.winners_below(
                    ranks,
                    k,
                )[a] < k,
            forall|a: int|
                0 <= a < self.winners_below(ranks, k).len() ==> self.is_winner(
                    ranks,
                    #[trigger] self.winners_below(ranks, k)[a] as int,
                ),
            forall|i: int|
                0 <= i < k && self.is_winner(ranks, i) ==> self.winners_below(ranks, k).contains(
                    i as usize,
                ),
            rising(self.winners_below(ranks, k)),
        decreases k,
    {
        if k > 0 {
            self.winners_are_seats(ranks, (k - 1) as nat);
            let below = self.winners_below(ranks, (k - 1) as nat);
            let all = self.winners_below(ranks, k);
            assert forall|i: int| 0 <= i < k && self.is_winner(ranks, i) implies all.contains(
                i as usize,
            ) by {
                if i == k - 1 {
                    assert(all[all.len() - 1] == i as usize);
                } else {
                    assert(below.contains(i as usize));
                    let a = choose|a: int| 0 <= a < below.len() && below[a] == i as usize;
                    assert(all[a] == i as usize);
                }
            }
        }
    }

    /// Paying out the pot moves it to the balances whole: the balances grow
    /// by what the pot held, the pot is empty, and the store stays well
    /// formed.
    pub proof fn payout_conserves_chips(self, winners: Seq<usize>)
        requires
            self.wf(),
            winners.len() > 0,
            forall|k: int| 0 <= k < winners.len() ==> #[trigger] winners[k] < self.seats(),
        ensures
            self.paid_out(winners).wf(),
            self.paid_out(winners).pot == 0,
            sum(self.paid_out(winners).balances) == sum(self.balances) + self.pot,
            self.paid_out(winners).chips() == self.chips(),
    {
        let n = winners.len();
        let share = self.pot as nat / n;
        let left_over = self.pot as nat % n;
        assert(self.pot == n * share + left_over && 0 <= left_over < n && share >= 0)
            by (nonlinear_arith)
            requires
                n > 0,
                share == self.pot as nat / n,
                left_over == self.pot as nat % n,
        ;
        assert(n * share >= 0) by (nonlinear_arith)
            requires
                n > 0,
                share >= 0,
        ;
        credit_all_adds(self.balances, winners, share);
        let credited = credit_all(self.balances, winners, share);
        sum_bounds_each(credited, winners[0] as int);
        sum_update(
            credited,
            winners[0] as int,
            (credited[winners[0] as int] + left_over) as u128,
        );
    }
}

/// How many seats hold a live hand.
fn count_live_hands(hands: &Vec<Option<(u8, u8)>>) -> (r: usize)
    ensures
        r == count_live(hands@),
        r <= hands@.len(),
{
    let mut count: usize = 0;
    let mut i: usize = 0;
    while i < hands.len()
        invariant
            i <= hands.len(),
            count == count_live(hands@.take(i as int)),
            count <= i,
        decreases hands.len() - i,
    {
        proof {
            count_live_take_step(hands@, i as int);
        }
        if hands[i].is_some() {
            count = count + 1;
        }
        i = i + 1;
    }
    assert(hands@.take(i as int) =~= hands@);
    count
}

/// Ranks the hand of every seat that holds one with the table's cards.
pub fn rank_hands(storage: &Store) -> (ranks: Vec<Option<u32>>)
    requires
        storage@.wf(),
    ensures
        ranks@ == storage@.showdown_ranks(),
{
    let evaluator = Evaluator::new();
    let mut ranks: Vec<Option<u32>> = Vec::new();
    let mut i: usize = 0;
    while i < storage.hands.len()
        invariant
            storage@.wf(),
            i <= storage.hands.len(),
            ranks@.len() == i,
            forall|k: int| 0 <= k < i ==> #[trigger] ranks@[k] == storage@.showdown_ranks()[k],
        decreases storage.hands.len() - i,
    {
        let rank: Option<u32> = match storage.hands[i] {
            Some(hand) => evaluator.evaluate(hand, &storage.table),
            None => None,
        };
        ranks.push(rank);
        i = i + 1;
    }
    assert(ranks@ =~= storage@.showdown_ranks());
    ranks
}

/// The highest rank among the live seats that have one.
fn best_rank(storage: &Store, ranks: &Vec<Option<u32>>) -> (best: Option<u32>)
    requires
        storage@.wf(),
    ensures
        match best {
            Some(b) => {
                &&& exists|j: int|
                    storage@.live(j) && j < ranks@.len() && #[trigger] ranks@[j] == Some(b)
                &&& forall|j: int|
                    storage@.live(j) && j < ranks@.len() && (#[trigger] ranks@[j]) is Some
                        ==> ranks@[j]->Some_0 <= b
            },
            None => forall|j: int|
                storage@.live(j) && j < ranks@.len() ==> (#[trigger] ranks@[j]) is None,
        },
{
    let mut best: Option<u32> = None;
    let ghost mut holder: int = 0;
    let mut i: usize = 0;
    while i < storage.hands.len()
        invariant
            storage@.wf(),
            i <= storage.hands.len(),
            match best {
                Some(b) => {
                    &&& storage@.live(holder) && holder < ranks@.len() && ranks@[holder] == Some(b)
                    &&& forall|j: int|
                        storage@.live(j) && j < i && j < ranks@.len() && (#[trigger] ranks@[j])
                            is Some ==> ranks@[j]->Some_0 <= b
                },
                None => forall|j: int|
                    storage@.live(j) && j < i && j < ranks@.len() ==> (#[trigger] ranks@[j])
                        is None,
            },
        decreases storage.hands.len() - i,
    {
        if storage.hands[i].is_some() && i < ranks.len() {
            match ranks[i] {
                Some(rank) => {
                    let higher: bool = match best {
                        Some(b) => rank > b,
                        None => true,
                    };
                    if higher {
                        best = Some(rank);
                        proof {
                            holder = i as int;
                        }
                    }
                },
                None => {},
            }
        }
        i = i + 1;
    }
    best
}

/// Picks the winners of the hand, given the rank of each seat, in seating
/// order. A seat that alone holds a live hand wins whatever the ranks are.
pub fn pick_winners(storage: &Store, ranks: &Vec<Option<u32>>) -> (winners: Vec<usize>)
    requires
        storage@.wf(),
    ensures
        winners@ == storage@.winners(ranks@),
        forall|k: int| 0 <= k < winners@.len() ==> #[trigger] winners@[k] < storage@.seats(),
{
    let uncontested: bool = count_live_hands(&storage.hands) == 1;
    let best: Option<u32> = best_rank(storage, ranks);
    let mut winners: Vec<usize> = Vec::new();
    let mut i: usize = 0;
    while i < storage.hands.len()
        invariant
            storage@.wf(),
            i <= storage.hands.len(),
            uncontested == (count_live(storage@.hands) == 1),
            winners@ == storage@.winners_below(ranks@, i as nat),
            match best {
                Some(b) => {
                    &&& exists|j: int|
                        storage@.live(j) && j < ranks@.len() && #[trigger] ranks@[j] == Some(b)
                    &&& forall|j: int|
                        storage@.live(j) && j < ranks@.len() && (#[trigger] ranks@[j]) is Some
                            ==> ranks@[j]->Some_0 <= b
                },
                None => forall|j: int|
                    storage@.live(j) && j < ranks@.len() ==> (#[trigger] ranks@[j]) is None,
            },
        decreases storage.hands.len() - i,
    {
        let holds_best: bool = i < ranks.len() && match (ranks[i], best) {
            (Some(rank), Some(b)) => rank == b,
            _ => false,
        };
        let wins: bool = storage.hands[i].is_some() && (uncontested || holds_best);
        proof {
            if storage@.live(i as int) {
                if holds_best {
                    assert(storage@.holds_best_rank(ranks@, i as int));
                } else if storage@.holds_best_rank(ranks@, i as int) {
                    match best {
                        Some(b) => {
                            let j = choose|j: int|
                                storage@.live(j) && j < ranks@.len() && #[trigger] ranks@[j]
                                    == Some(b);
                            assert(ranks@[j]->Some_0 <= ranks@[i as int]->Some_0);
                        },
                        None => {
                            assert(ranks@[i as int] is None);
                        },
                    }
                }
            }
            assert(wins == storage@.is_winner(ranks@, i as int));
        }
        if wins {
            winners.push(i);
        }
        i = i + 1;
    }
    proof {
        storage@.winners_are_seats(ranks@, storage@.seats());
    }
    winners
}

/// Pays the pot out to `winners`: each gets the pot divided by their
/// number, and the first of them what is left over. The pot is then empty
/// and the street's bets, which it held, are gone.
///
/// There must be a winner, and each must be a seat of the table.
pub fn distribute_pot(winners: &Vec<usize>, storage: &mut Store)
    requires
        old(storage)@.wf(),
        winners@.len() > 0,
        forall|k: int| 0 <= k < winners@.len() ==> #[trigger] winners@[k] < old(storage)@.seats(),
    ensures
        final(storage)@ == old(storage)@.paid_out(winners@),
        final(storage)@.wf(),
        final(storage)@.chips() == old(storage)@.chips(),
{
    let count: usize = winners.len();
    let pot_value: u128 = storage.pot;
    let individual_winnings: u128 = pot_value / count as u128;
    let remaining_chips: u128 = pot_value % count as u128;
    let mut balances: Vec<u128> = copy_of(&storage.balances);
    let ghost start = balances@;
    proof {
        old(storage)@.payout_conserves_chips(winners@);
        assert(pot_value == count * individual_winnings + remaining_chips) by (nonlinear_arith)
            requires
                count > 0,
                individual_winnings == pot_value / count as u128,
                remaining_chips == pot_value % count as u128,
        ;
    }
    let mut k: usize = 0;
    while k < count
        invariant
            k <= count == winners@.len(),
            forall|a: int| 0 <= a < winners@.len() ==> #[trigger] winners@[a] < start.len(),
            balances@ == credit_all(start, winners@.take(k as int), individual_winnings as nat),
            balances@.len() == start.len(),
            sum(balances@) == sum(start) + k * individual_winnings,
            sum(start) + count * individual_winnings <= u128::MAX,
        decreases count - k,
    {
        let winner: usize = winners[k];
        proof {
            sum_bounds_each(balances@, winner as int);
            assert((k + 1) * individual_winnings <= count * individual_winnings)
                by (nonlinear_arith)
                requires
                    k + 1 <= count,
                    individual_winnings >= 0,
            ;
            assert((k + 1) * individual_winnings == k * individual_winnings
                + individual_winnings) by (nonlinear_arith);
            sum_update(
                balances@,
                winner as int,
                (balances@[winner as int] + individual_winnings) as u128,
            );
            assert(winners@.take(k + 1).drop_last() =~= winners@.take(k as int));
        }
        let balance: u128 = balances[winner];
        balances.set(winner, balance + individual_winnings);
        k = k + 1;
    }
    assert(winners@.take(count as int) =~= winners@);
    let first: usize = winners[0];
    proof {
        sum_bounds_each(balances@, first as int);
    }
    let balance: u128 = balances[first];
    balances.set(first, balance + remaining_chips);
    storage.balances = balances;
    storage.pot = 0;
    storage.bets = empty_bets(storage.all_players.len());
    assert(storage@ =~= old(storage)@.paid_out(winners@));
}

/// Settles the hand, given the rank of each seat: the winners are picked
/// and paid out. It fails with `NoEligiblePlayers`, and changes nothing,
/// exactly when there is no winner.
pub fn award_pot(ranks: &Vec<Option<u32>>, storage: &mut Store) -> (r: Result<(), PokerError>)
    requires
        old(storage)@.wf(),
    ensures
        final(storage)@.wf(),
        final(storage)@.chips() == old(storage)@.chips(),
        match (r, old(storage)@.award_spec(ranks@)) {
            (Ok(_), Ok(next)) => final(storage)@ == next,
            (Err(e), Err(expected)) => e == expected && final(storage)@ == old(storage)@,
            _ => false,
        },
{
    let winners: Vec<usize> = pick_winners(storage, ranks);
    if winners.len() == 0 {
        return Err(PokerError::NoEligiblePlayers);
    }
    distribute_pot(&winners, storage);
    Ok(())
}

/// Settles the hand at showdown. A seat that alone holds a live hand takes
/// the pot and no hand is ranked; otherwise the live hands are ranked with
/// the table's cards and the best of them win.
pub fn showdown(storage: &mut Store) -> (r: Result<(), PokerError>)
    requires
        old(storage)@.wf(),
    ensures
        final(storage)@.wf(),
        final(storage)@.chips() == old(storage)@.chips(),
        match (r, old(storage)@.showdown_spec()) {
            (Ok(_), Ok(next)) => final(storage)@ == next,
            (Err(e), Err(expected)) => e == expected && final(storage)@ == old(storage)@,
            _ => false,
        },
{
    if count_live_hands(&storage.hands) == 1 {
        let ranks: Vec<Option<u32>> = Vec::new();
        proof {
            old(storage)@.ranks_are_idle(ranks@, old(storage)@.showdown_ranks());
        }
        award_pot(&ranks, storage)
    } else {
        let ranks: Vec<Option<u32>> = rank_hands(storage);
        award_pot(&ranks, storage)
    }
}

/// Ends the hand: takes the cards of every seat and of the table, empties
/// the bet cells, and puts the game before the flop again. The pot is left
/// as it is: the showdown has paid it out.
pub fn end_round(storage: &mut Store)
    requires
        old(storage)@.wf(),
    ensures
        final(storage)@ == old(storage)@.round_ended(),
        final(storage)@.wf(),
        final(storage)@.chips() == old(storage)@.chips(),
{
    let seats: usize = storage.all_players.len();
    let mut hands: Vec<Option<(u8, u8)>> = Vec::new();
    let mut i: usize = 0;
    while i < seats
        invariant
            i <= seats,
            hands@.len() == i,
            forall|k: int| 0 <= k < i ==> #[trigger] hands@[k] == None::<(u8, u8)>,
        decreases seats - i,
    {
        hands.push(None);
        i = i + 1;
    }
    storage.hands = hands;
    storage.bets = empty_bets(seats);
    storage.table = Vec::new();
    storage.current_state = GameState::PreFlop;
    assert(storage@ =~= old(storage)@.round_ended());
}

/// Each seat in `winners` is higher than those before it.
pub open spec fn rising(winners: Seq<usize>) -> bool {
    forall|a: int, b: int|
        0 <= a < b < winners.len() ==> #[trigger] winners[a] < #[trigger] winners[b]
}

/// Winners that are named once each are credited once each: the balance of
/// a seat among them grows by the share, and no other balance changes.
pub proof fn credit_all_once(balances: Seq<u128>, winners: Seq<usize>, share: nat, i: int)
    requires
        forall|k: int| 0 <= k < winners.len() ==> #[trigger] winners[k] < balances.len(),
        sum(balances) + winners.len() * share <= u128::MAX,
        rising(winners),
        0 <= i < balances.len() <= usize::MAX,
    ensures
        credit_all(balances, winners, share)[i] == balances[i] + if winners.contains(i as usize) {
            share
        } else {
            0
        },
    decreases winners.len(),
{
    if winners.len() > 0 {
        let rest = winners.drop_last();
        let last = winners.last();
        assert((winners.len() - 1) * share + share == winners.len() * share)
            by (nonlinear_arith);
        assert((winners.len() - 1) * share >= 0) by (nonlinear_arith)
            requires
                winners.len() >= 1,
                share >= 0,
        ;
        assert forall|k: int| 0 <= k < rest.len() implies #[trigger] rest[k] < balances.len() by {
            assert(rest[k] == winners[k]);
        }
        assert(rising(rest)) by {
            assert forall|a: int, b: int| 0 <= a < b < rest.len() implies #[trigger] rest[a]
                < #[trigger] rest[b] by {
                assert(winners[a] < winners[b]);
            }
        }
        credit_all_adds(balances, rest, share);
        credit_all_once(balances, rest, share, i);
        let before = credit_all(balances, rest, share);
        assert(winners[winners.len() - 1] < balances.len());
        sum_bounds_each(before, last as int);
        if i == last {
            assert(winners[winners.len() - 1] == i as usize);
            if rest.contains(i as usize) {
                let a = choose|a: int| 0 <= a < rest.len() && rest[a] == i as usize;
                assert(winners[a] < winners[winners.len() - 1]);
            }
        } else {
            if rest.contains(i as usize) {
                let a = choose|a: int| 0 <= a < rest.len() && rest[a] == i as usize;
                assert(winners[a] == i as usize);
            }
            if winners.contains(i as usize) {
                let a = choose|a: int| 0 <= a < winners.len() && winners[a] == i as usize;
                assert(rest[a] == i as usize);
            }
        }
    }
}

/// Crediting one winner changes its balance and no other.
pub proof fn credit_one(balances: Seq<u128>, winner: usize, share: nat)
    ensures
        credit_all(balances, seq![winner], share) == balances.update(
            winner as int,
            (balances[winner as int] + share) as u128,
        ),
{
    let winners = seq![winner];
    assert(winners.drop_last() =~= Seq::<usize>::empty());
    assert(credit_all(balances, Seq::<usize>::empty(), share) == balances);
    assert(winners.last() == winner);
}

/// Every hand that is held counts.
pub proof fn count_live_counts(hands: Seq<Option<(u8, u8)>>, i: int, j: int)
    requires
        0 <= i < j < hands.len(),
        hands[j] is Some,
    ensures
        count_live(hands) >= 1,
        hands[i] is Some ==> count_live(hands) >= 2,
    decreases hands.len(),
{
    let rest = hands.drop_last();
    if j == hands.len() - 1 {
        if hands[i] is Some {
            if i == 0 {
                if rest.len() > 1 {
                    assert(rest[0] is Some);
                    count_live_first(rest);
                } else {
                    assert(rest.drop_last() =~= Seq::<Option<(u8, u8)>>::empty());
                }
            } else {
                assert(rest[i] is Some);
                count_live_counts(rest, 0, i);
            }
        }
    } else {
        assert(rest[j] is Some);
        count_live_counts(rest, i, j);
    }
}

/// A hand at the first seat counts.
pub proof fn count_live_first(hands: Seq<Option<(u8, u8)>>)
    requires
        hands.len() > 0,
        hands[0] is Some,
    ensures
        count_live(hands) >= 1,
    decreases hands.len(),
{
    if hands.len() > 1 {
        assert(hands.drop_last()[0] is Some);
        count_live_first(hands.drop_last());
    }
}

impl StoreView {
    /// Where one seat alone holds a live hand, the ranks decide nothing.
    pub proof fn ranks_are_idle(self, first: Seq<Option<u32>>, second: Seq<Option<u32>>)
        requires
            count_live(self.hands) == 1,
        ensures
            self.award_spec(first) == self.award_spec(second),
    {
        self.same_winners(first, second, self.seats());
    }

    /// Up to any seat, the winners are the same whatever the ranks.
    proof fn same_winners(self, first: Seq<Option<u32>>, second: Seq<Option<u32>>, k: nat)
        requires
            count_live(self.hands) == 1,
        ensures
            self.winners_below(first, k) == self.winners_below(second, k),
        decreases k,
    {
        if k > 0 {
            self.same_winners(first, second, (k - 1) as nat);
        }
    }

    /// What the winners get. Each of them is credited the pot divided by
    /// their number, rounded down; what is left over goes to the first of
    /// them; no other balance changes.
    pub proof fn payout_credits_each_winner(self, winners: Seq<usize>, i: int)
        requires
            self.wf(),
            winners.len() > 0,
            forall|k: int| 0 <= k < winners.len() ==> #[trigger] winners[k] < self.seats(),
            rising(winners),
            0 <= i < self.seats(),
        ensures
            self.paid_out(winners).balances[i] == self.balances[i] + if winners.contains(
                i as usize,
            ) {
                self.pot as nat / winners.len()
            } else {
                0
            } + if i == winners[0] {
                self.pot as nat % winners.len()
            } else {
                0
            },
    {
        let n = winners.len();
        let share = self.pot as nat / n;
        let left_over = self.pot as nat % n;
        assert(self.pot == n * share + left_over && 0 <= left_over < n && share >= 0)
            by (nonlinear_arith)
            requires
                n > 0,
                share == self.pot as nat / n,
                left_over == self.pot as nat % n,
        ;
        assert(n * share >= 0) by (nonlinear_arith)
            requires
                n > 0,
                share >= 0,
        ;
        credit_all_adds(self.balances, winners, share);
        credit_all_once(self.balances, winners, share, i);
        let credited = credit_all(self.balances, winners, share);
        sum_bounds_each(credited, winners[0] as int);
    }

    /// The settlement of a hand. Where there is a winner, every winner is
    /// credited the pot divided by the number of winners, rounded down, the
    /// winner that sits first is credited what is left over as well, and the
    /// balance of a seat that has not won is as it was.
    pub proof fn winners_share_the_pot(self, ranks: Seq<Option<u32>>, i: int)
        requires
            self.wf(),
            self.award_spec(ranks) is Ok,
            0 <= i < self.seats(),
        ensures
            self.is_winner(ranks, self.winners(ranks)[0] as int),
            forall|j: int| 0 <= j < self.winners(ranks)[0] ==> !self.is_winner(ranks, j),
            self.award_spec(ranks)->Ok_0.balances[i] == self.balances[i] + if self.is_winner(
                ranks,
                i,
            ) {
                self.pot as nat / self.winners(ranks).len()
            } else {
                0
            } + if i == self.winners(ranks)[0] {
                self.pot as nat % self.winners(ranks).len()
            } else {
                0
            },
    {
        let winners = self.winners(ranks);
        self.winners_are_seats(ranks, self.seats());
        self.payout_credits_each_winner(winners, i);
        if winners.contains(i as usize) {
            let a = choose|a: int| 0 <= a < winners.len() && winners[a] == i as usize;
            assert(self.is_winner(ranks, winners[a] as int));
        }
        assert forall|j: int| 0 <= j < winners[0] implies !self.is_winner(ranks, j) by {
            if self.is_winner(ranks, j) {
                assert(winners.contains(j as usize));
                let a = choose|a: int| 0 <= a < winners.len() && winners[a] == j as usize;
                if a > 0 {
                    assert(winners[0] < winners[a]);
                }
            }
        }
    }

    /// No two seats hold a live hand where only one hand is live.
    pub proof fn lone_hand_is_alone(self, seat: int, other: int)
        requires
            self.shaped(),
            count_live(self.hands) == 1,
            self.live(seat),
            other != seat,
        ensures
            !self.live(other),
    {
        if self.live(other) {
            if seat < other {
                count_live_counts(self.hands, seat, other);
            } else {
                count_live_counts(self.hands, other, seat);
            }
        }
    }

    /// Up to any seat, the only winner is the seat with the lone hand.
    proof fn winners_of_a_lone_hand(self, ranks: Seq<Option<u32>>, seat: int, k: nat)
        requires
            self.shaped(),
            count_live(self.hands) == 1,
            self.live(seat),
            k <= self.seats(),
        ensures
            self.winners_below(ranks, k) == if k > seat {
                seq![seat as usize]
            } else {
                Seq::<usize>::empty()
            },
        decreases k,
    {
        if k > 0 {
            self.winners_of_a_lone_hand(ranks, seat, (k - 1) as nat);
            if k - 1 != seat {
                self.lone_hand_is_alone(seat, k - 1);
            } else {
                assert(Seq::<usize>::empty().push(seat as usize) =~= seq![seat as usize]);
            }
        }
    }

    /// An uncontested pot. Where one seat alone holds a live hand at
    /// showdown, it takes the whole pot whatever the ranks are: its balance
    /// grows by exactly the pot, no other balance changes, and the pot is
    /// empty.
    pub proof fn lone_hand_takes_the_pot(self, ranks: Seq<Option<u32>>, seat: int)
        requires
            self.wf(),
            count_live(self.hands) == 1,
            self.live(seat),
        ensures
            self.award_spec(ranks) == Ok::<StoreView, PokerError>(
                self.paid_out(seq![seat as usize]),
            ),
            self.paid_out(seq![seat as usize]).balances == self.balances.update(
                seat,
                (self.balances[seat] + self.pot) as u128,
            ),
            self.balances[seat] + self.pot <= u128::MAX,
            self.paid_out(seq![seat as usize]).pot == 0,
    {
        self.winners_of_a_lone_hand(ranks, seat, self.seats());
        let winners = seq![seat as usize];
        self.payout_conserves_chips(winners);
        sum_bounds_each(self.balances, seat);
        credit_one(self.balances, seat as usize, self.pot as nat);
        let credited = credit_all(self.balances, winners, self.pot as nat);
        let n = winners.len();
        assert(self.pot as nat / n == self.pot as nat && self.pot as nat % n == 0)
            by (nonlinear_arith)
            requires
                n == 1,
        ;
        assert(self.paid_out(winners).balances =~= credited);
    }

    /// Up to any seat, the winners are the tied seats that come before it.
    proof fn winners_of_a_tie(
        self,
        ranks: Seq<Option<u32>>,
        first: int,
        second: int,
        k: nat,
    )
        requires
            self.shaped(),
            0 <= first < second < self.seats(),
            second < ranks.len(),
            self.live(first),
            self.live(second),
            forall|i: int| self.live(i) ==> i == first || i == second,
            ranks[first] is Some,
            ranks[first] == ranks[second],
            k <= self.seats(),
        ensures
            self.winners_below(ranks, k) == if k > second {
                seq![first as usize, second as usize]
            } else if k > first {
                seq![first as usize]
            } else {
                Seq::<usize>::empty()
            },
        decreases k,
    {
        if k > 0 {
            self.winners_of_a_tie(ranks, first, second, (k - 1) as nat);
            count_live_counts(self.hands, first, second);
            if k - 1 == first {
                assert(self.holds_best_rank(ranks, first));
                assert(Seq::<usize>::empty().push(first as usize) =~= seq![first as usize]);
            } else if k - 1 == second {
                assert(self.holds_best_rank(ranks, second));
                assert(seq![first as usize].push(second as usize) =~= seq![
                    first as usize,
                    second as usize,
                ]);
            } else {
                assert(!self.live(k - 1));
            }
        }
    }

    /// A split pot. Where two seats hold the only live hands at showdown
    /// and their hands have the same rank, each gets half the pot, rounded
    /// down, and the odd chip, if there is one, goes to the one that sits
    /// first. No other balance changes, and the pot is empty.
    pub proof fn tied_hands_split_the_pot(self, ranks: Seq<Option<u32>>, first: int, second: int)
        requires
            self.wf(),
            0 <= first < second < self.seats(),
            second < ranks.len(),
            self.live(first),
            self.live(second),
            forall|i: int| self.live(i) ==> i == first || i == second,
            ranks[first] is Some,
            ranks[first] == ranks[second],
        ensures
            self.award_spec(ranks) == Ok::<StoreView, PokerError>(
                self.paid_out(seq![first as usize, second as usize]),
            ),
            self.paid_out(seq![first as usize, second as usize]).balances
                == self.balances.update(
                first,
                (self.balances[first] + self.pot / 2 + self.pot % 2) as u128,
            ).update(second, (self.balances[second] + self.pot / 2) as u128),
            self.balances[first] + self.pot / 2 + self.pot % 2 <= u128::MAX,
            self.balances[second] + self.pot / 2 <= u128::MAX,
            self.paid_out(seq![first as usize, second as usize]).pot == 0,
    {
        self.winners_of_a_tie(ranks, first, second, self.seats());
        let winners = seq![first as usize, second as usize];
        let share = self.pot as nat / 2;
        self.payout_conserves_chips(winners);
        sum_bounds_each(self.balances, first);
        sum_bounds_each(self.balances, second);
        sum_update(self.balances, first, (self.balances[first] + share) as u128);
        let one = self.balances.update(first, (self.balances[first] + share) as u128);
        sum_bounds_each(one, second);
        assert(self.pot == 2 * share + self.pot % 2);
        assert(winners.drop_last() =~= seq![first as usize]);
        credit_one(self.balances, first as usize, share);
        assert(credit_all(self.balances, seq![first as usize], share) == one);
        assert(winners.len() == 2);
        let credited = credit_all(self.balances, winners, share);
        assert(credited == one.update(second, (one[second] + share) as u128));
        assert(self.paid_out(winners).balances =~= self.balances.update(
            first,
            (self.balances[first] + self.pot / 2 + self.pot % 2) as u128,
        ).update(second, (self.balances[second] + self.pot / 2) as u128));
    }
}

} // verus!
