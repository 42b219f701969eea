use vstd::prelude::*;
use crate::error::PokerError;
use crate::msg::{pairs, InGameStatus, InGameStatusView, LobbyStatus, LobbyStatusView};
use crate::poker::cards::{cards_of, u8s_to_cards};
use crate::state::card::{Card, Player};
use crate::state::game_state::GameState;
use crate::state::store::{Store, StoreView};

verus! {

impl StoreView {
    /// The name and the chips of each seat, in seating order.
    pub open spec fn listed_balances(self) -> Seq<(Seq<char>, u128)> {
        Seq::new(self.seats(), |i: int| (self.usernames[i], self.balances[i]))
    }

    /// What anyone may know of the lobby.
    pub open spec fn lobby_status(self) -> LobbyStatusView {
        LobbyStatusView {
            admin: self.admin_username,
            lobby_config: self.lobby_config,
            is_started: self.current_state != GameState::NotStarted,
            balances: self.listed_balances(),
        }
    }

    /// The community cards that are face up: none before the flop, three
    /// on the flop, four on the turn and five on the river, as far as the
    /// table holds them.
    pub open spec fn revealed_table(self) -> Seq<u8> {
        if self.current_state.revealed() <= self.table.len() {
            self.table.take(self.current_state.revealed() as int)
        } else {
            self.table
        }
    }

    /// The cards of `viewer`, while it is seated and holds any.
    pub open spec fn hand_of(self, viewer: Seq<char>) -> Option<(u8, u8)> {
        if self.seated(viewer) {
            self.hands[self.seat_of(viewer)]
        } else {
            None
        }
    }

    /// What `viewer` has to commit to call: what its bet on the street lacks
    /// to the minimum bet.
    pub open spec fn owed_by(self, viewer: Seq<char>) -> u128 {
        if self.seated(viewer) {
            (self.current_min_bet - self.bet_of(self.seat_of(viewer))) as u128
        } else {
            self.current_min_bet
        }
    }

    /// What `viewer` may know of the game, or why it is told nothing.
    ///
    /// The game must have started, else `GameNotStarted`; the viewer must
    /// have created the lobby or sit at the table, else `NotInGame`; and the
    /// turn and the button must be at seats of the table, else
    /// `PositionOutOfRange`.
    pub open spec fn game_status(self, viewer: Seq<char>) -> Result<InGameStatusView, PokerError> {
        if self.current_state == GameState::NotStarted {
            Err(PokerError::GameNotStarted)
        } else if viewer != self.admin && !self.seated(viewer) {
            Err(PokerError::NotInGame)
        } else if self.current_turn_position >= self.seats() || self.button_position
            >= self.seats() {
            Err(PokerError::PositionOutOfRange)
        } else {
            Ok(
                InGameStatusView {
                    balances: self.listed_balances(),
                    table: self.revealed_table(),
                    pot: self.pot,
                    hand: self.hand_of(viewer),
                    current_turn: self.usernames[self.current_turn_position as int],
                    button_player: self.usernames[self.button_position as int],
                    min_bet: self.owed_by(viewer),
                },
            )
        }
    }

    /// What the seat of `viewer` shows to it, or `NotInGame` where it has
    /// none.
    pub open spec fn player_of(self, viewer: Seq<char>) -> Result<Player, PokerError> {
        if !self.seated(viewer) {
            Err(PokerError::NotInGame)
        } else {
            Ok(
                Player {
                    hand: match self.hands[self.seat_of(viewer)] {
                        Some(hand) => cards_of(hand),
                        None => None,
                    },
                    chip_count: self.balances[self.seat_of(viewer)],
                },
            )
        }
    }
}

/// Lists the name and the chips of each seat, in seating order.
pub fn get_balances(storage: &Store) -> (r: Vec<(String, u128)>)
    requires
        storage@.wf(),
    ensures
        pairs(r@) == storage@.listed_balances(),
{
    let mut balances: Vec<(String, u128)> = Vec::new();
    let mut i: usize = 0;
    while i < storage.all_players.len()
        invariant
            storage@.wf(),
            i <= storage.all_players.len(),
            balances@.len() == i,
            forall|k: int|
                0 <= k < i ==> (#[trigger] balances@[k]).0@ == storage@.usernames[k]
                    && balances@[k].1 == storage@.balances[k],
        decreases storage.all_players.len() - i,
    {
        balances.push((storage.usernames[i].clone(), storage.balances[i]));
        i = i + 1;
    }
    assert(pairs(balances@) =~= storage@.listed_balances());
    balances
}

/// The community cards that are face up.
pub fn query_table(storage: &Store) -> (r: Vec<u8>)
    ensures
        r@ == storage@.revealed_table(),
{
    let number_of_visible_cards: usize = storage.current_state.revealed_cards();
    let mut cards: Vec<u8> = Vec::new();
    let mut i: usize = 0;
    while i < number_of_visible_cards && i < storage.table.len()
        invariant
            i <= number_of_visible_cards,
            i <= storage.table.len(),
            cards@ == storage.table@.take(i as int),
        decreases storage.table.len() - i,
    {
        cards.push(storage.table[i]);
        i = i + 1;
        assert(cards@ =~= storage.table@.take(i as int));
    }
    assert(storage.table@.take(storage.table@.len() as int) =~= storage.table@);
    cards
}

/// What the seat of `sender` shows to it.
pub fn query_player(storage: &Store, sender: &String) -> (r: Result<Player, PokerError>)
    requires
        storage@.wf(),
    ensures
        r == storage@.player_of(sender@),
{
    let seat: usize = match storage.find_seat(sender) {
        Some(seat) => seat,
        None => {
            return Err(PokerError::NotInGame);
        },
    };
    proof {
        storage@.seat_is_unique(sender@, seat as int);
    }
    let hand: Option<(Card, Card)> = match storage.hands[seat] {
        Some(hand) => u8s_to_cards(hand),
        None => None,
    };
    Ok(Player { hand, chip_count: storage.balances[seat] })
}

/// What anyone may know of the lobby, before the game and during it.
pub fn query_pre_start_state(storage: &Store) -> (r: LobbyStatus)
    requires
        storage@.wf(),
    ensures
        r@ == storage@.lobby_status(),
{
    LobbyStatus {
        admin: storage.admin_username.clone(),
        lobby_config: storage.lobby_config,
        is_started: storage.current_state != GameState::NotStarted,
        balances: get_balances(storage),
    }
}

/// What `sender` may know of the game, as `game_status` says.
pub fn query_game_state(storage: &Store, sender: &String) -> (r: Result<
    InGameStatus,
    PokerError,
>)
    requires
        storage@.wf(),
    ensures
        match (r, storage@.game_status(sender@)) {
            (Ok(status), Ok(expected)) => status@ == expected,
            (Err(e), Err(expected)) => e == expected,
            _ => false,
        },
{
    if storage.current_state == GameState::NotStarted {
        return Err(PokerError::GameNotStarted);
    }
    let seat: Option<usize> = storage.find_seat(sender);
    proof {
        if seat is Some {
            storage@.seat_is_unique(sender@, seat->Some_0 as int);
        }
    }
    if !(*sender == storage.admin) && seat.is_none() {
        return Err(PokerError::NotInGame);
    }
    let balances: Vec<(String, u128)> = get_balances(storage);
    let current_turn_position: usize = storage.current_turn_position;
    let button_player_position: usize = storage.button_position;
    if current_turn_position >= storage.usernames.len() || button_player_position
        >= storage.usernames.len() {
        return Err(PokerError::PositionOutOfRange);
    }
    let current_turn: String = storage.usernames[current_turn_position].clone();
    let button_player: String = storage.usernames[button_player_position].clone();
    let (hand, current_bet): (Option<(u8, u8)>, u128) = match seat {
        Some(seat) => (
            storage.hands[seat],
            match storage.bets[seat] {
                Some(bet) => bet,
                None => 0,
            },
        ),
        None => (None, 0),
    };
    let min_bet: u128 = storage.current_min_bet - current_bet;
    Ok(
        InGameStatus {
            balances,
            table: query_table(storage),
            pot: storage.pot,
            hand,
            current_turn,
            button_player,
            min_bet,
        },
    )
}

} // verus!
