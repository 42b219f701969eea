use vstd::prelude::*;
use crate::error::PokerError;
use crate::poker::betting::Action;
use crate::state::game_state::GameState;
use crate::state::store::StoreView;

verus! {

/// One request to act: who asks, for what, and the randomness of the block
/// in which the request arrives.
pub struct Turn {
    pub sender: Seq<char>,
    pub action: Action,
    pub random: Option<Seq<u8>>,
}

impl StoreView {
    /// Dealing the cards of a hand moves no chips.
    pub proof fn dealing_moves_no_chips(self, seed: Seq<u8>, button: usize)
        requires
            self.wf(),
        ensures
            self.dealt(seed, button).wf(),
            self.dealt(seed, button).chips() == self.chips(),
            self.dealt(seed, button).seats() == self.seats(),
    {
    }

    /// A blind moves chips from a balance to the pot and loses none.
    pub proof fn blind_conserves_chips(self, take_amount: u32, seat: int)
        requires
            self.wf(),
            0 <= seat < self.seats(),
            take_amount <= self.current_min_bet,
        ensures
            self.after_blind(take_amount, seat).wf(),
            self.after_blind(take_amount, seat).chips() == self.chips(),
            self.after_blind(take_amount, seat).seats() == self.seats(),
            self.after_blind(take_amount, seat).current_min_bet == self.current_min_bet,
    {
        let amount = self.forced_amount(take_amount, seat);
        self.bet_conserves_chips(seat, amount, amount);
    }

    /// A new hand keeps every chip at the table, and names an eligible seat
    /// to act first.
    pub proof fn new_hand_conserves_chips(self, button: usize, random: Option<Seq<u8>>)
        requires
            self.wf(),
            self.new_hand_spec(button, random) is Ok,
        ensures
            self.new_hand_spec(button, random)->Ok_0.wf(),
            self.new_hand_spec(button, random)->Ok_0.chips() == self.chips(),
            self.new_hand_spec(button, random)->Ok_0.eligible(
                self.new_hand_spec(button, random)->Ok_0.current_turn_position as int,
            ),
            self.new_hand_spec(button, random)->Ok_0.all_players == self.all_players,
            self.new_hand_spec(button, random)->Ok_0.lobby_config == self.lobby_config,
            self.new_hand_spec(button, random)->Ok_0.current_state == self.current_state,
    {
        let seed = random->Some_0;
        let dealt = self.dealt(seed, button);
        self.dealing_moves_no_chips(seed, button);
        dealt.next_eligible_is_first(button + 1);
        let small = dealt.next_eligible(button + 1)->Some_0;
        let half = (self.lobby_config.big_blind / 2) as u32;
        dealt.blind_conserves_chips(half, small);
        let first = dealt.after_blind(half, small);
        first.next_eligible_is_first(small + 1);
        let big = first.next_eligible(small + 1)->Some_0;
        first.blind_conserves_chips(self.lobby_config.big_blind, big);
        let second = first.after_blind(self.lobby_config.big_blind, big);
        second.next_eligible_is_first(big + 1);
        let turn = second.next_eligible(big + 1)->Some_0;
        let next = StoreView {
            current_turn_position: turn as usize,
            last_raiser: big as usize,
            ..second
        };
        assert(next == self.new_hand_spec(button, random)->Ok_0);
        assert(next.eligible(turn));
    }

    /// Closing a street, or a hand, keeps every chip at the table and every
    /// seat where it is, and moves the game to the phase that follows.
    pub proof fn closing_conserves_chips(self)
        requires
            self.wf(),
            self.next_betting_round_spec() is Ok,
        ensures
            self.next_betting_round_spec()->Ok_0.0.wf(),
            self.next_betting_round_spec()->Ok_0.0.chips() == self.chips(),
            self.next_betting_round_spec()->Ok_0.0.all_players == self.all_players,
            self.next_betting_round_spec()->Ok_0.0.lobby_config == self.lobby_config,
            self.next_betting_round_spec()->Ok_0.0.current_state
                == self.current_state.successor(),
    {
        if self.current_state == GameState::River {
            let ranks = self.showdown_ranks();
            let winners = self.winners(ranks);
            self.winners_are_seats(ranks, self.seats());
            self.payout_conserves_chips(winners);
            let paid = self.paid_out(winners);
            assert(paid.round_ended().wf());
        } else {
            assert(self.next_street().wf());
        }
    }

    /// Moving the turn on keeps every chip at the table, whether or not a
    /// street or a hand ends on the way, and passes the turn to a seat that
    /// holds a live hand and chips. The seats stay where they are, and the
    /// game stays in its phase or moves to the one that follows.
    pub proof fn moving_on_conserves_chips(self, current: usize, random: Option<Seq<u8>>)
        requires
            self.wf(),
            self.move_turn_spec(current, random) is Ok,
        ensures
            self.move_turn_spec(current, random)->Ok_0.wf(),
            self.move_turn_spec(current, random)->Ok_0.chips() == self.chips(),
            self.move_turn_spec(current, random)->Ok_0.eligible(
                self.move_turn_spec(current, random)->Ok_0.current_turn_position as int,
            ),
            self.move_turn_spec(current, random)->Ok_0.all_players == self.all_players,
            self.move_turn_spec(current, random)->Ok_0.lobby_config == self.lobby_config,
            self.move_turn_spec(current, random)->Ok_0.current_state == self.current_state
                || self.move_turn_spec(current, random)->Ok_0.current_state
                == self.current_state.successor(),
    {
        let start = self.seat_after(current) as int;
        self.next_eligible_is_first(start);
        let next = self.next_eligible(start)->Some_0;
        if self.street_closed(next) {
            self.closing_conserves_chips();
            let after = self.next_betting_round_spec()->Ok_0.0;
            let ended = self.next_betting_round_spec()->Ok_0.1;
            let left = self.seat_after(self.button_position);
            if ended {
                after.new_hand_conserves_chips(left, random);
            } else {
                after.next_eligible_is_first(left as int);
            }
        }
    }

    /// An action keeps every chip at the table: what leaves a balance goes
    /// to the pot.
    pub proof fn action_conserves_chips(self, seat: int, action: Action)
        requires
            self.wf(),
            0 <= seat < self.seats(),
            self.act_spec(seat, action) is Ok,
        ensures
            self.act_spec(seat, action)->Ok_0.wf(),
            self.act_spec(seat, action)->Ok_0.chips() == self.chips(),
            self.act_spec(seat, action)->Ok_0.all_players == self.all_players,
            self.act_spec(seat, action)->Ok_0.lobby_config == self.lobby_config,
            self.act_spec(seat, action)->Ok_0.current_state == self.current_state,
    {
        crate::state::chips::sum_bounds_each(self.balances, seat);
        assert(self.bets[seat] is Some ==> self.bets[seat]->Some_0 <= self.pot);
        match action {
            Action::Fold => {},
            Action::Check => {
                self.bet_conserves_chips(seat, 0, self.bet_of(seat));
            },
            Action::Call => {
                self.bet_conserves_chips(
                    seat,
                    (self.current_min_bet - self.bet_of(seat)) as u128,
                    self.current_min_bet,
                );
            },
            Action::Raise(raise_amount) => {
                let total_bet = (self.bet_of(seat) + raise_amount) as u128;
                let raised = StoreView {
                    last_raiser: seat as usize,
                    current_min_bet: total_bet,
                    ..self
                };
                assert forall|i: int| 0 <= i < raised.bets.len() implies match #[trigger] raised.bets[i] {
                    Some(b) => b <= raised.current_min_bet && b <= raised.pot,
                    None => true,
                } by {
                    assert(raised.bets[i] == self.bets[i]);
                }
                raised.bet_conserves_chips(seat, raise_amount, total_bet);
            },
        }
    }

    /// Chip conservation. A turn of betting that is accepted keeps every
    /// chip at the table: the pot and the balances together hold as much
    /// after it as before, also where it ends the hand, pays the pot out and
    /// posts the blinds of the next one. It leaves the turn with a seat that
    /// holds a live hand and chips, and every seat where it was. The
    /// table's configuration is as it was created. The game stays in its
    /// phase or moves to the one that follows, and is never again as it was
    /// before it started.
    pub proof fn betting_turn_conserves_chips(
        self,
        sender: Seq<char>,
        action: Action,
        random: Option<Seq<u8>>,
    )
        requires
            self.wf(),
            self.betting_turn_spec(sender, action, random) is Ok,
        ensures
            self.betting_turn_spec(sender, action, random)->Ok_0.wf(),
            self.betting_turn_spec(sender, action, random)->Ok_0.chips() == self.chips(),
            self.betting_turn_spec(sender, action, random)->Ok_0.eligible(
                self.betting_turn_spec(sender, action, random)->Ok_0.current_turn_position as int,
            ),
            self.betting_turn_spec(sender, action, random)->Ok_0.all_players == self.all_players,
            self.betting_turn_spec(sender, action, random)->Ok_0.lobby_config
                == self.lobby_config,
            self.betting_turn_spec(sender, action, random)->Ok_0.current_state
                == self.current_state || self.betting_turn_spec(
                sender,
                action,
                random,
            )->Ok_0.current_state == self.current_state.successor(),
            self.betting_turn_spec(sender, action, random)->Ok_0.current_state
                != GameState::NotStarted,
    {
        let seat = self.current_turn_position;
        self.action_conserves_chips(seat as int, action);
        let acted = self.act_spec(seat as int, action)->Ok_0;
        acted.moving_on_conserves_chips(seat, random);
    }

    /// The store after the requests in `turns` have been handled one after
    /// the other. A request that is refused changes nothing.
    pub open spec fn after_turns(self, turns: Seq<Turn>) -> StoreView
        decreases turns.len(),
    {
        if turns.len() == 0 {
            self
        } else {
            let before = self.after_turns(turns.drop_last());
            match before.betting_turn_spec(
                turns.last().sender,
                turns.last().action,
                turns.last().random,
            ) {
                Ok(next) => next,
                Err(_) => before,
            }
        }
    }

    /// Chip conservation over any play: whatever requests to fold, check,
    /// call or raise arrive, and in whatever order, the pot and the
    /// balances together hold as much afterwards as before.
    pub proof fn play_conserves_chips(self, turns: Seq<Turn>)
        requires
            self.wf(),
        ensures
            self.after_turns(turns).wf(),
            self.after_turns(turns).chips() == self.chips(),
        decreases turns.len(),
    {
        if turns.len() > 0 {
            self.play_conserves_chips(turns.drop_last());
            let before = self.after_turns(turns.drop_last());
            let last = turns.last();
            if before.betting_turn_spec(last.sender, last.action, last.random) is Ok {
                before.betting_turn_conserves_chips(last.sender, last.action, last.random);
            }
        }
    }

    /// A check is refused as one exactly when the seat's bet on the street
    /// is not the minimum bet. This is said of a request that may act: the
    /// game has started and it is the turn of the sender, who holds a live
    /// hand. A check that is not refused as one is done: it moves no chips
    /// and leaves the seat with its bet on record.
    pub proof fn check_needs_a_matched_bet(self, sender: Seq<char>, random: Option<Seq<u8>>)
        requires
            self.wf(),
            self.current_state != GameState::NotStarted,
            self.current_turn_position < self.seats(),
            self.all_players[self.current_turn_position as int] == sender,
            self.hands[self.current_turn_position as int] is Some,
        ensures
            self.betting_turn_spec(sender, Action::Check, random) == Err::<StoreView, PokerError>(
                PokerError::CannotCheck,
            ) <==> self.bet_of(self.current_turn_position as int) != self.current_min_bet,
            self.bet_of(self.current_turn_position as int) == self.current_min_bet
                ==> self.act_spec(self.current_turn_position as int, Action::Check) == Ok::<
                StoreView,
                PokerError,
            >(
                self.after_bet(
                    self.current_turn_position as int,
                    0,
                    self.bet_of(self.current_turn_position as int),
                ),
            ),
    {
        let seat = self.current_turn_position as int;
        self.seat_is_unique(sender, seat);
        if self.bet_of(seat) == self.current_min_bet {
            let acted = self.act_spec(seat, Action::Check)->Ok_0;
            acted.moving_on_fails_otherwise(self.current_turn_position, random);
        }
    }

    /// A check succeeds exactly when the seat's bet on the street is the
    /// minimum bet. This is said of a request that may act, as above, and
    /// of a store from which the turn can move on once the check is done.
    pub proof fn check_succeeds_on_a_matched_bet(self, sender: Seq<char>, random: Option<Seq<u8>>)
        requires
            self.wf(),
            self.current_state != GameState::NotStarted,
            self.current_turn_position < self.seats(),
            self.all_players[self.current_turn_position as int] == sender,
            self.hands[self.current_turn_position as int] is Some,
            self.after_bet(
                self.current_turn_position as int,
                0,
                self.bet_of(self.current_turn_position as int),
            ).move_turn_spec(self.current_turn_position, random) is Ok,
        ensures
            self.betting_turn_spec(sender, Action::Check, random) is Ok <==> self.bet_of(
                self.current_turn_position as int,
            ) == self.current_min_bet,
    {
        self.seat_is_unique(sender, self.current_turn_position as int);
    }

    /// Whatever stops the turn from moving on, it is not the refusal of a
    /// check.
    pub proof fn moving_on_fails_otherwise(self, current: usize, random: Option<Seq<u8>>)
        ensures
            self.move_turn_spec(current, random) != Err::<StoreView, PokerError>(
                PokerError::CannotCheck,
            ),
    {
    }
}

} // verus!
