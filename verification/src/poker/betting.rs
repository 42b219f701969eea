use vstd::prelude::*;
use crate::error::PokerError;
use crate::poker::bets::take_bet;
use crate::poker::deal::seed_of;
use crate::poker::round::move_turn_position;
use crate::state::game_state::GameState;
use crate::state::store::{Store, StoreView};

verus! {

/// What a player can do when it is their turn.
#[derive(Clone, Copy, Debug, PartialEq, Eq, Structural)]
pub enum Action {
    /// Give the hand up. What has been committed stays in the pot.
    Fold,
    /// Stay in without committing chips, the minimum bet being matched.
    Check,
    /// Commit what is missing to the minimum bet.
    Call,
    /// Commit the given number of chips; the seat's total on the street
    /// becomes the minimum bet.
    Raise(u128),
}

impl StoreView {
    /// The store after seat `seat` has done `action`, or why it cannot.
    ///
    /// A fold takes the seat's hand. A check asks that the seat's bet on
    /// the street equal the minimum bet, and fails with `CannotCheck`
    /// otherwise. A call commits what the seat's bet lacks to the minimum
    /// bet, and fails with `InsufficientChips` where that is more than its
    /// balance. A raise commits the given chips; it fails with
    /// `InsufficientChips` where they exceed the balance, and with
    /// `BetBelowMinimum` where the seat's total would stay below the minimum
    /// bet; otherwise that total is the new minimum bet and the seat the
    /// last raiser. A raise of nothing is a raise like any other: it is
    /// refused where the seat stands below the minimum bet, and never taken
    /// for a fold. Whatever is committed moves from the balance to the pot,
    /// and a seat that checked, called or raised has a bet on the street,
    /// be it a bet of nothing.
    pub open spec fn act_spec(self, seat: int, action: Action) -> Result<StoreView, PokerError> {
        match action {
            Action::Fold => Ok(StoreView { hands: self.hands.update(seat, None), ..self }),
            Action::Check => {
                if self.bet_of(seat) == self.current_min_bet {
                    Ok(self.after_bet(seat, 0, self.bet_of(seat)))
                } else {
                    Err(PokerError::CannotCheck)
                }
            },
            Action::Call => {
                let bet_amount = (self.current_min_bet - self.bet_of(seat)) as u128;
                if bet_amount > self.balances[seat] {
                    Err(PokerError::InsufficientChips)
                } else {
                    Ok(self.after_bet(seat, bet_amount, self.current_min_bet))
                }
            },
            Action::Raise(raise_amount) => {
                if raise_amount > self.balances[seat] {
                    Err(PokerError::InsufficientChips)
                } else if self.bet_of(seat) + raise_amount < self.current_min_bet {
                    Err(PokerError::BetBelowMinimum)
                } else {
                    let total_bet = (self.bet_of(seat) + raise_amount) as u128;
                    Ok(
                        StoreView {
                            last_raiser: seat as usize,
                            current_min_bet: total_bet,
                            ..self
                        }.after_bet(seat, raise_amount, total_bet),
                    )
                }
            },
        }
    }

    /// The store after `sender` has asked for `action`, or why the request
    /// is refused.
    ///
    /// The game must have started, else `GameNotStarted`; the sender must
    /// hold a live hand, else `NoHandInRound`; the seat whose turn it is
    /// must be a seat of the table, else `PositionOutOfRange`, and the
    /// sender's, else `NotYourTurn`. Then the action is done and the turn
    /// moves on.
    pub open spec fn betting_turn_spec(
        self,
        sender: Seq<char>,
        action: Action,
        random: Option<Seq<u8>>,
    ) -> Result<StoreView, PokerError> {
        if self.current_state == GameState::NotStarted {
            Err(PokerError::GameNotStarted)
        } else if !self.seated(sender) || self.hands[self.seat_of(sender)] is None {
            Err(PokerError::NoHandInRound)
        } else if self.current_turn_position >= self.seats() {
            Err(PokerError::PositionOutOfRange)
        } else if self.all_players[self.current_turn_position as int] != sender {
            Err(PokerError::NotYourTurn)
        } else {
            match self.act_spec(self.current_turn_position as int, action) {
                Err(e) => Err(e),
                Ok(acted) => acted.move_turn_spec(self.current_turn_position, random),
            }
        }
    }
}

/// Does `action` for seat `seat`, as `act_spec` says. Where the action is
/// refused the store is unchanged.
pub fn perform_action(action: Action, seat: usize, storage: &mut Store) -> (r: Result<
    (),
    PokerError,
>)
    requires
        old(storage)@.wf(),
        seat < old(storage)@.seats(),
    ensures
        final(storage)@.wf(),
        final(storage)@.chips() == old(storage)@.chips(),
        match (r, old(storage)@.act_spec(seat as int, action)) {
            (Ok(_), Ok(next)) => final(storage)@ == next,
            (Err(e), Err(expected)) => e == expected && final(storage)@ == old(storage)@,
            _ => false,
        },
{
    let players_balance: u128 = storage.balances[seat];
    let current_bet: u128 = match storage.bets[seat] {
        Some(bet) => bet,
        None => 0,
    };
    let current_min_bet: u128 = storage.current_min_bet;
    proof {
        crate::state::chips::sum_bounds_each(storage@.balances, seat as int);
        assert(storage@.bets[seat as int] is Some ==> storage@.bets[seat as int]->Some_0
            <= storage@.pot);
    }
    match action {
        Action::Fold => {
            storage.hands.set(seat, None);
            assert(storage@ =~= (StoreView {
                hands: old(storage)@.hands.update(seat as int, None),
                ..old(storage)@
            }));
            Ok(())
        },
        Action::Check => {
            if current_bet != current_min_bet {
                return Err(PokerError::CannotCheck);
            }
            take_bet(0, current_bet, seat, storage);
            Ok(())
        },
        Action::Call => {
            let bet_amount: u128 = current_min_bet - current_bet;
            if bet_amount > players_balance {
                return Err(PokerError::InsufficientChips);
            }
            take_bet(bet_amount, current_min_bet, seat, storage);
            Ok(())
        },
        Action::Raise(raise_amount) => {
            if raise_amount > players_balance {
                return Err(PokerError::InsufficientChips);
            }
            let total_bet: u128 = current_bet + raise_amount;
            if total_bet < current_min_bet {
                return Err(PokerError::BetBelowMinimum);
            }
            storage.last_raiser = seat;
            storage.current_min_bet = total_bet;
            proof {
                assert forall|i: int| 0 <= i < storage@.bets.len() implies match #[trigger] storage@.bets[i] {
                    Some(b) => b <= storage@.current_min_bet && b <= storage@.pot,
                    None => true,
                } by {
                    assert(old(storage)@.bets[i] == storage@.bets[i]);
                }
            }
            take_bet(raise_amount, total_bet, seat, storage);
            Ok(())
        },
    }
}

/// One turn of betting: tests that `sender` may act now, does `action` for
/// the seat whose turn it is, and moves the turn on, as `betting_turn_spec`
/// says. Where it fails the store is unchanged.
pub fn betting_turn(
    sender: &String,
    action: Action,
    storage: &mut Store,
    random: &Option<Vec<u8>>,
) -> (r: Result<(), PokerError>)
    requires
        old(storage)@.wf(),
    ensures
        final(storage)@.wf(),
        final(storage)@.chips() == old(storage)@.chips(),
        match (r, old(storage)@.betting_turn_spec(sender@, action, seed_of(*random))) {
            (Ok(_), Ok(next)) => final(storage)@ == next,
            (Err(e), Err(expected)) => e == expected && final(storage)@ == old(storage)@,
            _ => false,
        },
{
    if storage.current_state == GameState::NotStarted {
        return Err(PokerError::GameNotStarted);
    }
    let seat: usize = match storage.find_seat(sender) {
        Some(seat) => seat,
        None => {
            return Err(PokerError::NoHandInRound);
        },
    };
    proof {
        storage@.seat_is_unique(sender@, seat as int);
    }
    if storage.hands[seat].is_none() {
        return Err(PokerError::NoHandInRound);
    }
    let current_turn_position: usize = storage.current_turn_position;
    if current_turn_position >= storage.all_players.len() {
        return Err(PokerError::PositionOutOfRange);
    }
    if storage.all_players[current_turn_position] != *sender {
        return Err(PokerError::NotYourTurn);
    }
    let mut work = storage.clone();
    match perform_action(action, current_turn_position, &mut work) {
        Ok(_) => {},
        Err(e) => {
            return Err(e);
        },
    }
    match move_turn_position(current_turn_position, &mut work, random) {
        Ok(_) => {},
        Err(e) => {
            return Err(e);
        },
    }
    *storage = work;
    Ok(())
}

} // verus!
