use vstd::prelude::*;
use crate::error::PokerError;
use crate::msg::{coins, Coin};
use crate::poker::betting::{betting_turn, Action};
use crate::poker::deal::{new_hand, seed_of};
use crate::poker::round::move_turn_position;
use crate::contract::new_lobby;
use crate::state::chips::{sum, sum_push, sum_update};
use crate::state::game_state::GameState;
use crate::state::store::{LobbyConfig, Store, StoreView, MAX_PLAYERS};

verus! {

/// The denomination in which chips are bought.
pub open spec fn chip_denom() -> Seq<char> {
    "uscrt"@
}

impl StoreView {
    /// The store with `sender` holding `amount` chips under the name
    /// `username`: at the seat it had, where it had one, at a new seat
    /// otherwise. Where the sender created the lobby, the creator is shown
    /// under that name from now on.
    pub open spec fn bought_in(self, username: Seq<char>, sender: Seq<char>, amount: u128) -> StoreView {
        let admin_username = if sender == self.admin {
            username
        } else {
            self.admin_username
        };
        if self.seated(sender) {
            StoreView {
                admin_username,
                usernames: self.usernames.update(self.seat_of(sender), username),
                balances: self.balances.update(self.seat_of(sender), amount),
                ..self
            }
        } else {
            StoreView {
                admin_username,
                all_players: self.all_players.push(sender),
                usernames: self.usernames.push(username),
                balances: self.balances.push(amount),
                hands: self.hands.push(None),
                bets: self.bets.push(None),
                ..self
            }
        }
    }

    /// The store after `sender` has bought in with `funds` under the name
    /// `username`, or why the buy-in is refused.
    ///
    /// The game must not have started, else `GameAlreadyStarted`; a seat
    /// must be free, else `LobbyFull`; the sender must not hold chips at the
    /// table, else `AlreadyBoughtIn`; the funds must be one coin, else
    /// `WrongFundsCount`, of the table's denomination, else
    /// `WrongDenomination`; its amount must not be below the smallest
    /// buy-in, else `BuyInTooSmall`, nor above the largest, else
    /// `BuyInTooLarge`; and the table's chips must stay countable, else
    /// `TooManyChips`. The tests are made in this order.
    pub open spec fn buy_in_spec(
        self,
        username: Seq<char>,
        sender: Seq<char>,
        funds: Seq<(Seq<char>, u128)>,
    ) -> Result<StoreView, PokerError> {
        if self.current_state != GameState::NotStarted {
            Err(PokerError::GameAlreadyStarted)
        } else if self.seats() >= MAX_PLAYERS {
            Err(PokerError::LobbyFull)
        } else if self.seated(sender) && self.balances[self.seat_of(sender)] > 0 {
            Err(PokerError::AlreadyBoughtIn)
        } else if funds.len() != 1 {
            Err(PokerError::WrongFundsCount)
        } else if funds[0].0 != chip_denom() {
            Err(PokerError::WrongDenomination)
        } else if funds[0].1 < self.lobby_config.min_buy_in() {
            Err(PokerError::BuyInTooSmall { minimum: self.lobby_config.min_buy_in() as u64 })
        } else if funds[0].1 > self.lobby_config.max_buy_in() {
            Err(PokerError::BuyInTooLarge { maximum: self.lobby_config.max_buy_in() as u64 })
        } else if self.chips() + funds[0].1 > u128::MAX {
            Err(PokerError::TooManyChips)
        } else {
            Ok(self.bought_in(username, sender, funds[0].1))
        }
    }

    /// The store after `sender` has started the game, or why it cannot.
    ///
    /// The game must not have started, else `GameAlreadyStarted`; the
    /// sender must have created the lobby, else `NotAdmin`; two seats must
    /// be taken, else `InsufficientPlayers`. Then the first hand is dealt
    /// with the button at the first seat.
    pub open spec fn start_game_spec(self, sender: Seq<char>, random: Option<Seq<u8>>) -> Result<
        StoreView,
        PokerError,
    > {
        if self.current_state != GameState::NotStarted {
            Err(PokerError::GameAlreadyStarted)
        } else if sender != self.admin {
            Err(PokerError::NotAdmin)
        } else if self.seats() < 2 {
            Err(PokerError::InsufficientPlayers)
        } else {
            match self.new_hand_spec(0, random) {
                Ok(dealt) => Ok(StoreView { current_state: GameState::PreFlop, ..dealt }),
                Err(e) => Err(e),
            }
        }
    }

    /// The store with seat `seat` having left the table: it holds no chips,
    /// no cards and no bet. The seat itself stays.
    pub open spec fn vacated(self, seat: int) -> StoreView {
        StoreView {
            balances: self.balances.update(seat, 0),
            hands: self.hands.update(seat, None),
            bets: self.bets.update(seat, None),
            ..self
        }
    }

    /// The store after `sender` has left with its chips, and how many they
    /// are; or why it cannot leave.
    ///
    /// The sender must hold chips at the table, else `NotInGame`, and not
    /// hold a live hand with a bet on it, else `CannotWithdraw`. Once the
    /// game has started, the seat whose turn it is must be a seat of the
    /// table, else `PositionOutOfRange`; where it is the sender's, the turn
    /// moves on.
    pub open spec fn withdraw_spec(self, sender: Seq<char>, random: Option<Seq<u8>>) -> Result<
        (StoreView, u128),
        PokerError,
    > {
        if !self.seated(sender) || self.balances[self.seat_of(sender)] == 0 {
            Err(PokerError::NotInGame)
        } else {
            let seat = self.seat_of(sender);
            let amount = self.balances[seat];
            if self.bets[seat] is Some && self.hands[seat] is Some {
                Err(PokerError::CannotWithdraw)
            } else if self.current_state == GameState::NotStarted {
                Ok((self.vacated(seat), amount))
            } else if self.current_turn_position >= self.seats() {
                Err(PokerError::PositionOutOfRange)
            } else if self.current_turn_position == seat {
                match self.vacated(seat).move_turn_spec(self.current_turn_position, random) {
                    Ok(moved) => Ok((moved, amount)),
                    Err(e) => Err(e),
                }
            } else {
                Ok((self.vacated(seat), amount))
            }
        }
    }

    /// A seat that leaves takes its balance with it and nothing else.
    pub proof fn vacating_takes_the_balance(self, seat: int)
        requires
            self.wf(),
            0 <= seat < self.seats(),
        ensures
            self.vacated(seat).wf(),
            self.vacated(seat).chips() == self.chips() - self.balances[seat],
    {
        let left = self.vacated(seat);
        sum_update(self.balances, seat, 0);
        assert forall|i: int| 0 <= i < left.bets.len() implies match #[trigger] left.bets[i] {
            Some(b) => b <= left.current_min_bet && b <= left.pot,
            None => true,
        } by {
            if i != seat {
                assert(left.bets[i] == self.bets[i]);
            }
        }
    }

    /// A buy-in adds its amount to the balances and nothing else.
    pub proof fn buy_in_adds_the_amount(self, username: Seq<char>, sender: Seq<char>, amount: u128)
        requires
            self.wf(),
            self.seats() < MAX_PLAYERS,
            self.seated(sender) ==> self.balances[self.seat_of(sender)] == 0,
            self.chips() + amount <= u128::MAX,
        ensures
            self.bought_in(username, sender, amount).wf(),
            self.bought_in(username, sender, amount).chips() == self.chips() + amount,
            self.bought_in(username, sender, amount).pot == self.pot,
    {
        let next = self.bought_in(username, sender, amount);
        if self.seated(sender) {
            let seat = self.seat_of(sender);
            assert(self.sits_at(sender, seat));
            sum_update(self.balances, seat, amount);
        } else {
            sum_push(self.balances, amount);
            assert forall|i: int, j: int| 0 <= i < j < next.all_players.len() implies #[trigger] next.all_players[i]
                != #[trigger] next.all_players[j] by {
                if j == self.seats() {
                    assert(!self.sits_at(sender, i));
                } else {
                    assert(self.all_players[i] != self.all_players[j]);
                }
            }
            assert forall|i: int| 0 <= i < next.bets.len() implies match #[trigger] next.bets[i] {
                Some(b) => b <= next.current_min_bet && b <= next.pot,
                None => true,
            } by {
                if i < self.seats() {
                    assert(next.bets[i] == self.bets[i]);
                }
            }
        }
    }
}

/// Starts the game for the creator of the lobby and deals the first hand,
/// as `start_game_spec` says. Where it fails the store is unchanged.
pub fn try_start_game(storage: &mut Store, sender: &String, random: &Option<Vec<u8>>) -> (r:
    Result<(), PokerError>)
    requires
        old(storage)@.wf(),
    ensures
        final(storage)@.wf(),
        final(storage)@.chips() == old(storage)@.chips(),
        match (r, old(storage)@.start_game_spec(sender@, seed_of(*random))) {
            (Ok(_), Ok(next)) => final(storage)@ == next,
            (Err(e), Err(expected)) => e == expected && final(storage)@ == old(storage)@,
            _ => false,
        },
{
    if storage.current_state != GameState::NotStarted {
        return Err(PokerError::GameAlreadyStarted);
    }
    if !(*sender == storage.admin) {
        return Err(PokerError::NotAdmin);
    }
    if storage.all_players.len() < 2 {
        return Err(PokerError::InsufficientPlayers);
    }
    match new_hand(0, storage, random) {
        Ok(_) => {},
        Err(e) => {
            return Err(e);
        },
    }
    storage.current_state = GameState::PreFlop;
    Ok(())
}

/// Seats `sender` with the chips it paid, as `buy_in_spec` says. Where the
/// buy-in is refused the store is unchanged.
pub fn try_buy_in(username: String, storage: &mut Store, sender: String, funds: &Vec<Coin>) -> (r:
    Result<(), PokerError>)
    requires
        old(storage)@.wf(),
    ensures
        final(storage)@.wf(),
        match (r, old(storage)@.buy_in_spec(username@, sender@, coins(funds@))) {
            (Ok(_), Ok(next)) => final(storage)@ == next && final(storage)@.chips() == old(
                storage,
            )@.chips() + funds@[0].amount,
            (Err(e), Err(expected)) => e == expected && final(storage)@ == old(storage)@,
            _ => false,
        },
{
    if storage.current_state != GameState::NotStarted {
        return Err(PokerError::GameAlreadyStarted);
    }
    if storage.all_players.len() >= MAX_PLAYERS {
        return Err(PokerError::LobbyFull);
    }
    let seat: Option<usize> = storage.find_seat(&sender);
    proof {
        if seat is Some {
            storage@.seat_is_unique(sender@, seat->Some_0 as int);
        }
    }
    match seat {
        Some(taken) => {
            if storage.balances[taken] > 0 {
                return Err(PokerError::AlreadyBoughtIn);
            }
        },
        None => {},
    }
    if funds.len() != 1 {
        return Err(PokerError::WrongFundsCount);
    }
    let denom: String = "uscrt".to_owned();
    if !(funds[0].denom == denom) {
        return Err(PokerError::WrongDenomination);
    }
    let buy_in_amount: u128 = funds[0].amount;
    let min_buy_in: u64 = storage.lobby_config.minimum_buy_in();
    let max_buy_in: u64 = storage.lobby_config.maximum_buy_in();
    if buy_in_amount < min_buy_in as u128 {
        return Err(PokerError::BuyInTooSmall { minimum: min_buy_in });
    }
    if buy_in_amount > max_buy_in as u128 {
        return Err(PokerError::BuyInTooLarge { maximum: max_buy_in });
    }
    if storage.total_chips().checked_add(buy_in_amount).is_none() {
        return Err(PokerError::TooManyChips);
    }
    proof {
        storage@.buy_in_adds_the_amount(username@, sender@, buy_in_amount);
    }
    if sender == storage.admin {
        storage.admin_username = username.clone();
    }
    match seat {
        Some(taken) => {
            storage.usernames.set(taken, username);
            storage.balances.set(taken, buy_in_amount);
        },
        None => {
            storage.all_players.push(sender);
            storage.usernames.push(username);
            storage.balances.push(buy_in_amount);
            storage.hands.push(None);
            storage.bets.push(None);
        },
    }
    assert(storage@ =~= old(storage)@.bought_in(username@, sender@, buy_in_amount));
    Ok(())
}

/// Folds the hand of `sender`, whose turn it must be.
pub fn try_fold(sender: &String, storage: &mut Store, random: &Option<Vec<u8>>) -> (r: Result<
    (),
    PokerError,
>)
    requires
        old(storage)@.wf(),
    ensures
        final(storage)@.wf(),
        final(storage)@.chips() == old(storage)@.chips(),
        match (r, old(storage)@.betting_turn_spec(sender@, Action::Fold, seed_of(*random))) {
            (Ok(_), Ok(next)) => final(storage)@ == next,
            (Err(e), Err(expected)) => e == expected && final(storage)@ == old(storage)@,
            _ => false,
        },
{
    betting_turn(sender, Action::Fold, storage, random)
}

/// Checks for `sender`, whose turn it must be and whose bet must match the
/// minimum bet.
pub fn try_check(sender: &String, storage: &mut Store, random: &Option<Vec<u8>>) -> (r: Result<
    (),
    PokerError,
>)
    requires
        old(storage)@.wf(),
    ensures
        final(storage)@.wf(),
        final(storage)@.chips() == old(storage)@.chips(),
        match (r, old(storage)@.betting_turn_spec(sender@, Action::Check, seed_of(*random))) {
            (Ok(_), Ok(next)) => final(storage)@ == next,
            (Err(e), Err(expected)) => e == expected && final(storage)@ == old(storage)@,
            _ => false,
        },
{
    betting_turn(sender, Action::Check, storage, random)
}

/// Calls for `sender`, whose turn it must be: commits what its bet lacks to
/// the minimum bet.
pub fn try_call(sender: &String, storage: &mut Store, random: &Option<Vec<u8>>) -> (r: Result<
    (),
    PokerError,
>)
    requires
        old(storage)@.wf(),
    ensures
        final(storage)@.wf(),
        final(storage)@.chips() == old(storage)@.chips(),
        match (r, old(storage)@.betting_turn_spec(sender@, Action::Call, seed_of(*random))) {
            (Ok(_), Ok(next)) => final(storage)@ == next,
            (Err(e), Err(expected)) => e == expected && final(storage)@ == old(storage)@,
            _ => false,
        },
{
    betting_turn(sender, Action::Call, storage, random)
}

/// Raises for `sender`, whose turn it must be: commits `raise_amount` chips
/// and makes the seat's total the minimum bet.
pub fn try_raise(
    sender: &String,
    raise_amount: u128,
    storage: &mut Store,
    random: &Option<Vec<u8>>,
) -> (r: Result<(), PokerError>)
    requires
        old(storage)@.wf(),
    ensures
        final(storage)@.wf(),
        final(storage)@.chips() == old(storage)@.chips(),
        match (
            r,
            old(storage)@.betting_turn_spec(sender@, Action::Raise(raise_amount), seed_of(*random)),
        ) {
            (Ok(_), Ok(next)) => final(storage)@ == next,
            (Err(e), Err(expected)) => e == expected && final(storage)@ == old(storage)@,
            _ => false,
        },
{
    betting_turn(sender, Action::Raise(raise_amount), storage, random)
}

/// Places a bet of `value` chips: a raise by another name.
pub fn try_place_bet(sender: &String, value: u128, storage: &mut Store, random: &Option<Vec<u8>>) -> (r:
    Result<(), PokerError>)
    requires
        old(storage)@.wf(),
    ensures
        final(storage)@.wf(),
        final(storage)@.chips() == old(storage)@.chips(),
        match (r, old(storage)@.betting_turn_spec(sender@, Action::Raise(value), seed_of(*random))) {
            (Ok(_), Ok(next)) => final(storage)@ == next,
            (Err(e), Err(expected)) => e == expected && final(storage)@ == old(storage)@,
            _ => false,
        },
{
    betting_turn(sender, Action::Raise(value), storage, random)
}

/// Lets `sender` leave the table and returns the chips to pay out, as
/// `withdraw_spec` says. Where it fails the store is unchanged.
pub fn try_withdraw_chips(sender: &String, storage: &mut Store, random: &Option<Vec<u8>>) -> (r:
    Result<u128, PokerError>)
    requires
        old(storage)@.wf(),
    ensures
        final(storage)@.wf(),
        match (r, old(storage)@.withdraw_spec(sender@, seed_of(*random))) {
            (Ok(amount), Ok((next, expected))) => {
                &&& final(storage)@ == next
                &&& amount == expected
                &&& final(storage)@.chips() == old(storage)@.chips() - amount
                &&& amount > 0
            },
            (Err(e), Err(expected)) => e == expected && final(storage)@ == old(storage)@,
            _ => false,
        },
{
    let seat: usize = match storage.find_seat(sender) {
        Some(seat) => seat,
        None => {
            return Err(PokerError::NotInGame);
        },
    };
    proof {
        storage@.seat_is_unique(sender@, seat as int);
        storage@.vacating_takes_the_balance(seat as int);
    }
    let balance: u128 = storage.balances[seat];
    if balance == 0 {
        return Err(PokerError::NotInGame);
    }
    if storage.bets[seat].is_some() && storage.hands[seat].is_some() {
        return Err(PokerError::CannotWithdraw);
    }
    let mut work = storage.clone();
    work.balances.set(seat, 0);
    work.hands.set(seat, None);
    work.bets.set(seat, None);
    assert(work@ =~= old(storage)@.vacated(seat as int));
    if !(work.current_state == GameState::NotStarted) {
        let current_player_position: usize = work.current_turn_position;
        if current_player_position >= work.all_players.len() {
            return Err(PokerError::PositionOutOfRange);
        }
        if current_player_position == seat {
            match move_turn_position(current_player_position, &mut work, random) {
                Ok(_) => {},
                Err(e) => {
                    return Err(e);
                },
            }
        }
    }
    *storage = work;
    Ok(balance)
}

/// One request to buy in: the name to be shown, who asks, and what was paid.
pub struct BuyIn {
    pub username: Seq<char>,
    pub sender: Seq<char>,
    pub funds: Seq<(Seq<char>, u128)>,
}

impl StoreView {
    /// The store after the buy-ins in `requests` have been handled one
    /// after the other. A buy-in that is refused changes nothing.
    pub open spec fn after_buy_ins(self, requests: Seq<BuyIn>) -> StoreView
        decreases requests.len(),
    {
        if requests.len() == 0 {
            self
        } else {
            let before = self.after_buy_ins(requests.drop_last());
            match before.buy_in_spec(
                requests.last().username,
                requests.last().sender,
                requests.last().funds,
            ) {
                Ok(next) => next,
                Err(_) => before,
            }
        }
    }

    /// The chips of those buy-ins in `requests` that are accepted.
    pub open spec fn accepted_buy_ins(self, requests: Seq<BuyIn>) -> nat
        decreases requests.len(),
    {
        if requests.len() == 0 {
            0
        } else {
            let before = self.after_buy_ins(requests.drop_last());
            self.accepted_buy_ins(requests.drop_last()) + match before.buy_in_spec(
                requests.last().username,
                requests.last().sender,
                requests.last().funds,
            ) {
                Ok(_) => requests.last().funds[0].1 as nat,
                Err(_) => 0nat,
            }
        }
    }

    /// A buy-in that is accepted lies between the smallest and the largest
    /// buy-in of the table, and adds exactly its amount to the balances.
    pub proof fn buy_in_is_exact(
        self,
        username: Seq<char>,
        sender: Seq<char>,
        funds: Seq<(Seq<char>, u128)>,
    )
        requires
            self.wf(),
            self.buy_in_spec(username, sender, funds) is Ok,
        ensures
            self.lobby_config.min_buy_in() <= funds[0].1 <= self.lobby_config.max_buy_in(),
            self.buy_in_spec(username, sender, funds)->Ok_0.wf(),
            sum(self.buy_in_spec(username, sender, funds)->Ok_0.balances) == sum(self.balances)
                + funds[0].1,
            self.buy_in_spec(username, sender, funds)->Ok_0.pot == self.pot,
    {
        self.buy_in_adds_the_amount(username, sender, funds[0].1);
    }

    /// Whatever buy-ins arrive, and in whatever order, the balances grow by
    /// exactly the chips of those that are accepted.
    pub proof fn buy_ins_add_up(self, requests: Seq<BuyIn>)
        requires
            self.wf(),
        ensures
            self.after_buy_ins(requests).wf(),
            sum(self.after_buy_ins(requests).balances) == sum(self.balances)
                + self.accepted_buy_ins(requests),
            self.after_buy_ins(requests).pot == self.pot,
        decreases requests.len(),
    {
        if requests.len() > 0 {
            self.buy_ins_add_up(requests.drop_last());
            let before = self.after_buy_ins(requests.drop_last());
            let last = requests.last();
            if before.buy_in_spec(last.username, last.sender, last.funds) is Ok {
                before.buy_in_is_exact(last.username, last.sender, last.funds);
            }
        }
    }
}

/// The balances of a lobby add up to its buy-ins. In a lobby that has just
/// been created and has then handled any buy-ins, the balances together are
/// exactly the chips of the buy-ins that were accepted, and the pot is empty.
pub proof fn lobby_holds_its_buy_ins(
    sender: Seq<char>,
    username: Seq<char>,
    config: LobbyConfig,
    requests: Seq<BuyIn>,
)
    requires
        config.min_buy_in_bb <= config.max_buy_in_bb,
    ensures
        sum(new_lobby(sender, username, config).after_buy_ins(requests).balances) == new_lobby(
            sender,
            username,
            config,
        ).accepted_buy_ins(requests),
        new_lobby(sender, username, config).after_buy_ins(requests).pot == 0,
{
    let lobby = new_lobby(sender, username, config);
    assert(lobby.wf());
    lobby.buy_ins_add_up(requests);
}

} // verus!
