use vstd::prelude::*;
use crate::error::PokerError;
use crate::poker::turn::find_next_player;
use crate::state::chips::{sum_bounds_each, sum_update};
use crate::state::store::{Store, StoreView};

verus! {

impl StoreView {
    /// The store after seat `seat` has moved `bet_amount` chips from its
    /// balance to the pot, and stands at `total_bet` on this street.
    pub open spec fn after_bet(self, seat: int, bet_amount: u128, total_bet: u128) -> StoreView {
        StoreView {
            balances: self.balances.update(seat, (self.balances[seat] - bet_amount) as u128),
            bets: self.bets.update(seat, Some(total_bet)),
            pot: (self.pot + bet_amount) as u128,
            ..self
        }
    }

    /// What a forced bet of `take_amount` takes from seat `seat`: that
    /// amount, or the whole balance where the seat holds less.
    pub open spec fn forced_amount(self, take_amount: u32, seat: int) -> u128 {
        if self.balances[seat] > take_amount as u128 {
            take_amount as u128
        } else {
            self.balances[seat]
        }
    }

    /// A bet moves chips from a balance to the pot and loses none: the
    /// store stays well formed and holds as many chips as before.
    pub proof fn bet_conserves_chips(self, seat: int, bet_amount: u128, total_bet: u128)
        requires
            self.wf(),
            0 <= seat < self.seats(),
            bet_amount <= self.balances[seat],
            total_bet <= self.current_min_bet,
            total_bet <= self.pot + bet_amount,
        ensures
            self.after_bet(seat, bet_amount, total_bet).wf(),
            self.after_bet(seat, bet_amount, total_bet).chips() == self.chips(),
            self.pot + bet_amount <= u128::MAX,
    {
        let next = self.after_bet(seat, bet_amount, total_bet);
        sum_update(self.balances, seat, (self.balances[seat] - bet_amount) as u128);
        sum_bounds_each(self.balances, seat);
        assert forall|i: int| 0 <= i < next.bets.len() implies match #[trigger] next.bets[i] {
            Some(b) => b <= next.current_min_bet && b <= next.pot,
            None => true,
        } by {
            if i != seat {
                assert(next.bets[i] == self.bets[i]);
            }
        }
    }
}

/// Moves `bet_amount` chips from the balance of seat `seat` to the pot and
/// records `total_bet` as what the seat has committed on this street.
///
/// The seat must hold the chips, and `total_bet` may exceed neither the
/// minimum bet nor what the pot then holds.
pub fn take_bet(bet_amount: u128, total_bet: u128, seat: usize, storage: &mut Store)
    requires
        old(storage)@.wf(),
        seat < old(storage)@.seats(),
        bet_amount <= old(storage)@.balances[seat as int],
        total_bet <= old(storage)@.current_min_bet,
        total_bet <= old(storage)@.pot + bet_amount,
    ensures
        final(storage)@ == old(storage)@.after_bet(seat as int, bet_amount, total_bet),
        final(storage)@.wf(),
        final(storage)@.chips() == old(storage)@.chips(),
{
    proof {
        old(storage)@.bet_conserves_chips(seat as int, bet_amount, total_bet);
    }
    let remaining_balance: u128 = storage.balances[seat] - bet_amount;
    storage.balances.set(seat, remaining_balance);
    storage.bets.set(seat, Some(total_bet));
    storage.pot = storage.pot + bet_amount;
    assert(storage@ =~= old(storage)@.after_bet(seat as int, bet_amount, total_bet));
}

/// Takes a forced bet of `take_amount`, or all that is left of the balance,
/// from the first eligible seat at or after `player_position`, and returns
/// that seat.
pub(crate) fn take_forced_bet(
    take_amount: u32,
    player_position: usize,
    storage: &mut Store,
) -> (r: Result<usize, PokerError>)
    requires
        old(storage)@.wf(),
        take_amount <= old(storage)@.current_min_bet,
    ensures
        final(storage)@.wf(),
        final(storage)@.chips() == old(storage)@.chips(),
        match r {
            Ok(seat) => {
                &&& old(storage)@.next_eligible(player_position as int) == Some(seat as int)
                &&& seat < old(storage)@.seats()
                &&& final(storage)@ == old(storage)@.after_bet(
                    seat as int,
                    old(storage)@.forced_amount(take_amount, seat as int),
                    old(storage)@.forced_amount(take_amount, seat as int),
                )
            },
            Err(e) => {
                &&& e == PokerError::NoEligiblePlayers
                &&& old(storage)@.next_eligible(player_position as int) is None
                &&& final(storage)@ == old(storage)@
            },
        },
{
    let seat: usize = match find_next_player(storage, player_position) {
        Ok(seat) => seat,
        Err(e) => {
            return Err(e);
        },
    };
    let players_balance: u128 = storage.balances[seat];
    let bet_amount: u128 = if players_balance > take_amount as u128 {
        take_amount as u128
    } else {
        players_balance
    };
    take_bet(bet_amount, bet_amount, seat, storage);
    Ok(seat)
}

} // verus!
