use vstd::prelude::*;
use crate::error::PokerError;
use crate::poker::deal::{empty_bets, new_hand, seed_of};
use crate::poker::showdown::{end_round, showdown};
use crate::poker::turn::find_next_player_lazy;
use crate::state::game_state::GameState;
use crate::state::store::{Store, StoreView};

verus! {

impl StoreView {
    /// The seat after seat `position`, going clockwise. A position beyond
    /// the table is taken round it first.
    pub open spec fn seat_after(self, position: usize) -> usize {
        ((position as int % (self.seats() as int) + 1) % (self.seats() as int)) as usize
    }

    /// The store at the start of the next street: the phase moves on, no
    /// seat has bet, and there is nothing to match.
    pub open spec fn next_street(self) -> StoreView {
        StoreView {
            current_state: self.current_state.successor(),
            bets: self.without_bets(),
            current_min_bet: 0,
            ..self
        }
    }

    /// What closes a street: the store after it, and whether the hand is
    /// over. After the river the hand goes to showdown and is ended; after
    /// any other phase the next street begins.
    pub open spec fn next_betting_round_spec(self) -> Result<(StoreView, bool), PokerError> {
        if self.current_state == GameState::River {
            match self.showdown_spec() {
                Ok(paid) => Ok((paid.round_ended(), true)),
                Err(e) => Err(e),
            }
        } else {
            Ok((self.next_street(), false))
        }
    }

    /// The street is closed when the turn would pass to seat `next`: that
    /// seat has acted and stands at the minimum bet, so that nothing is left
    /// for it to match, or it made the last raise.
    pub open spec fn street_closed(self, next: int) -> bool {
        self.bets[next] == Some(self.current_min_bet) || next == self.last_raiser
    }

    /// The store after the turn has moved on from seat `current`.
    ///
    /// The turn passes to the first eligible seat after `current`. Where
    /// that closes the street, the street or the hand is ended first. After
    /// a street the first eligible seat after the button acts, and counts as
    /// the last raiser. After a hand a new one is dealt with the button one
    /// seat on, which also names who acts.
    pub open spec fn move_turn_spec(self, current: usize, random: Option<Seq<u8>>) -> Result<
        StoreView,
        PokerError,
    > {
        if self.seats() == 0 {
            Err(PokerError::NoEligiblePlayers)
        } else {
            match self.next_eligible(self.seat_after(current) as int) {
                None => Err(PokerError::NoEligiblePlayers),
                Some(next) => {
                    if !self.street_closed(next) {
                        Ok(StoreView { current_turn_position: next as usize, ..self })
                    } else {
                        match self.next_betting_round_spec() {
                            Err(e) => Err(e),
                            Ok((after, ended)) => {
                                let left = self.seat_after(self.button_position);
                                if ended {
                                    after.new_hand_spec(left, random)
                                } else {
                                    match after.next_eligible(left as int) {
                                        None => Err(PokerError::NoEligiblePlayers),
                                        Some(first) => Ok(
                                            StoreView {
                                                current_turn_position: first as usize,
                                                last_raiser: first as usize,
                                                ..after
                                            },
                                        ),
                                    }
                                }
                            },
                        }
                    }
                },
            }
        }
    }
}

/// Closes the street. After the river the hand goes to showdown and is
/// ended, and `true` is returned; otherwise the next street begins with no
/// bets and nothing to match, and `false` is returned. Where the showdown
/// fails the store is unchanged.
pub fn next_betting_round(storage: &mut Store) -> (r: Result<bool, PokerError>)
    requires
        old(storage)@.wf(),
    ensures
        final(storage)@.wf(),
        final(storage)@.chips() == old(storage)@.chips(),
        match (r, old(storage)@.next_betting_round_spec()) {
            (Ok(ended), Ok((next, expected))) => final(storage)@ == next && ended == expected,
            (Err(e), Err(expected)) => e == expected && final(storage)@ == old(storage)@,
            _ => false,
        },
{
    let current_game_state: GameState = storage.current_state;
    if current_game_state == GameState::River {
        match showdown(storage) {
            Ok(_) => {},
            Err(e) => {
                return Err(e);
            },
        }
        end_round(storage);
        return Ok(true);
    }
    storage.current_state = current_game_state.next();
    storage.bets = empty_bets(storage.all_players.len());
    storage.current_min_bet = 0;
    assert(storage@ =~= old(storage)@.next_street());
    Ok(false)
}

/// The seat after `position` at a table of `seats` seats.
fn after(position: usize, seats: usize) -> (r: usize)
    requires
        seats > 0,
    ensures
        r == ((position as int % (seats as int) + 1) % (seats as int)) as usize,
        r < seats,
{
    (position % seats + 1) % seats
}

/// Moves the turn on from seat `current_turn_position`, closing the street
/// or the hand where the turn has come round, as `move_turn_spec` says.
/// Where it fails the store is unchanged.
pub fn move_turn_position(
    current_turn_position: usize,
    storage: &mut Store,
    random: &Option<Vec<u8>>,
) -> (r: Result<(), PokerError>)
    requires
        old(storage)@.wf(),
    ensures
        final(storage)@.wf(),
        final(storage)@.chips() == old(storage)@.chips(),
        match (r, old(storage)@.move_turn_spec(current_turn_position, seed_of(*random))) {
            (Ok(_), Ok(next)) => final(storage)@ == next,
            (Err(e), Err(expected)) => e == expected && final(storage)@ == old(storage)@,
            _ => false,
        },
{
    let num_players: usize = storage.all_players.len();
    if num_players == 0 {
        return Err(PokerError::NoEligiblePlayers);
    }
    let next_player_position: usize = match find_next_player_lazy(
        after(current_turn_position, num_players),
        storage,
    ) {
        Ok(seat) => seat,
        Err(e) => {
            return Err(e);
        },
    };
    let matched: bool = match storage.bets[next_player_position] {
        Some(bet) => bet == storage.current_min_bet,
        None => false,
    };
    if !matched && next_player_position != storage.last_raiser {
        storage.current_turn_position = next_player_position;
        return Ok(());
    }
    let left_of_button: usize = after(storage.button_position, num_players);
    let mut work = storage.clone();
    let is_end_of_hand: bool = match next_betting_round(&mut work) {
        Ok(ended) => ended,
        Err(e) => {
            return Err(e);
        },
    };
    if is_end_of_hand {
        match new_hand(left_of_button, &mut work, random) {
            Ok(_) => {},
            Err(e) => {
                return Err(e);
            },
        }
    } else {
        let first: usize = match find_next_player_lazy(left_of_button, &work) {
            Ok(seat) => seat,
            Err(e) => {
                return Err(e);
            },
        };
        work.current_turn_position = first;
        work.last_raiser = first;
    }
    *storage = work;
    Ok(())
}

} // verus!
