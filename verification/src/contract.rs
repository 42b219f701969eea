pub mod execute;
pub mod query;

use vstd::prelude::*;
use crate::error::PokerError;
use crate::msg::{coins, Coin, ExecuteMsg, InstantiateMsg, QueryMsg, QueryResponse};
use crate::poker::betting::Action;
use crate::poker::deal::seed_of;
use crate::state::game_state::GameState;
use crate::state::store::{LobbyConfig, Store, StoreView};
use execute::{
    try_buy_in, try_call, try_check, try_fold, try_place_bet, try_raise, try_start_game,
    try_withdraw_chips,
};
use query::{query_game_state, query_pre_start_state};

verus! {

/// The store of a lobby that `sender` has just created: no seat is taken,
/// the pot is empty and the game has not started.
pub open spec fn new_lobby(sender: Seq<char>, username: Seq<char>, config: LobbyConfig) -> StoreView {
    StoreView {
        lobby_config: config,
        admin: sender,
        admin_username: username,
        current_state: GameState::NotStarted,
        all_players: Seq::empty(),
        usernames: Seq::empty(),
        balances: Seq::empty(),
        hands: Seq::empty(),
        bets: Seq::empty(),
        table: Seq::empty(),
        pot: 0,
        current_min_bet: 0,
        current_turn_position: 0,
        button_position: 0,
        last_raiser: 0,
    }
}

/// Creates a lobby for `sender`. It fails with `InvalidBuyInRange` exactly
/// when the smallest buy-in that is asked for exceeds the largest.
pub fn instantiate(sender: String, msg: InstantiateMsg) -> (r: Result<Store, PokerError>)
    ensures
        match r {
            Ok(storage) => {
                &&& msg.min_buy_in_bb <= msg.max_buy_in_bb
                &&& storage@ == new_lobby(
                    sender@,
                    msg.username@,
                    LobbyConfig {
                        big_blind: msg.big_blind,
                        max_buy_in_bb: msg.max_buy_in_bb,
                        min_buy_in_bb: msg.min_buy_in_bb,
                    },
                )
                &&& storage@.wf()
                &&& storage@.chips() == 0
            },
            Err(e) => e == PokerError::InvalidBuyInRange && msg.min_buy_in_bb > msg.max_buy_in_bb,
        },
{
    if msg.min_buy_in_bb > msg.max_buy_in_bb {
        return Err(PokerError::InvalidBuyInRange);
    }
    let lobby_config = LobbyConfig {
        big_blind: msg.big_blind,
        max_buy_in_bb: msg.max_buy_in_bb,
        min_buy_in_bb: msg.min_buy_in_bb,
    };
    let storage = Store {
        lobby_config,
        admin: sender,
        admin_username: msg.username,
        current_state: GameState::NotStarted,
        all_players: Vec::new(),
        usernames: Vec::new(),
        balances: Vec::new(),
        hands: Vec::new(),
        bets: Vec::new(),
        table: Vec::new(),
        pot: 0,
        current_min_bet: 0,
        current_turn_position: 0,
        button_position: 0,
        last_raiser: 0,
    };
    assert(storage@ =~= new_lobby(sender@, msg.username@, lobby_config));
    Ok(storage)
}

impl StoreView {
    /// The store after `sender` has sent `msg` with `funds`, and the chips
    /// to pay out to it, which are none but for a withdrawal; or why the
    /// message is refused.
    pub open spec fn execute_spec(
        self,
        sender: Seq<char>,
        funds: Seq<(Seq<char>, u128)>,
        msg: ExecuteMsg,
        random: Option<Seq<u8>>,
    ) -> Result<(StoreView, u128), PokerError> {
        match msg {
            ExecuteMsg::Withdraw => self.withdraw_spec(sender, random),
            _ => {
                let outcome = match msg {
                    ExecuteMsg::StartGame => self.start_game_spec(sender, random),
                    ExecuteMsg::BuyIn { username } => self.buy_in_spec(username@, sender, funds),
                    ExecuteMsg::Fold => self.betting_turn_spec(sender, Action::Fold, random),
                    ExecuteMsg::Check => self.betting_turn_spec(sender, Action::Check, random),
                    ExecuteMsg::Call => self.betting_turn_spec(sender, Action::Call, random),
                    ExecuteMsg::Raise { raise_amount } => self.betting_turn_spec(
                        sender,
                        Action::Raise(raise_amount),
                        random,
                    ),
                    ExecuteMsg::PlaceBet { value } => self.betting_turn_spec(
                        sender,
                        Action::Raise(value),
                        random,
                    ),
                    ExecuteMsg::Withdraw => Err(PokerError::NotInGame),
                };
                match outcome {
                    Ok(next) => Ok((next, 0)),
                    Err(e) => Err(e),
                }
            },
        }
    }
}

/// Does what `msg` asks for `sender` and returns the chips to pay out to
/// it, as `execute_spec` says. Where the message is refused the store is
/// unchanged.
pub fn execute(
    storage: &mut Store,
    sender: String,
    funds: &Vec<Coin>,
    msg: ExecuteMsg,
    random: &Option<Vec<u8>>,
) -> (r: Result<u128, PokerError>)
    requires
        old(storage)@.wf(),
    ensures
        final(storage)@.wf(),
        match (r, old(storage)@.execute_spec(sender@, coins(funds@), msg, seed_of(*random))) {
            (Ok(payout), Ok((next, expected))) => final(storage)@ == next && payout == expected,
            (Err(e), Err(expected)) => e == expected && final(storage)@ == old(storage)@,
            _ => false,
        },
{
    let done: Result<(), PokerError> = match msg {
        ExecuteMsg::StartGame => try_start_game(storage, &sender, random),
        ExecuteMsg::BuyIn { username } => try_buy_in(username, storage, sender, funds),
        ExecuteMsg::Fold => try_fold(&sender, storage, random),
        ExecuteMsg::Check => try_check(&sender, storage, random),
        ExecuteMsg::Call => try_call(&sender, storage, random),
        ExecuteMsg::Raise { raise_amount } => try_raise(&sender, raise_amount, storage, random),
        ExecuteMsg::PlaceBet { value } => try_place_bet(&sender, value, storage, random),
        ExecuteMsg::Withdraw => {
            return try_withdraw_chips(&sender, storage, random);
        },
    };
    match done {
        Ok(_) => Ok(0),
        Err(e) => Err(e),
    }
}

/// Answers `msg` for `sender`: the lobby's status to anyone, the game's to
/// those whom `game_status` admits.
pub fn query(storage: &Store, sender: &String, msg: QueryMsg) -> (r: Result<
    QueryResponse,
    PokerError,
>)
    requires
        storage@.wf(),
    ensures
        match msg {
            QueryMsg::ViewLobbyStatus => r matches Ok(QueryResponse::Lobby(status)) && status@
                == storage@.lobby_status(),
            QueryMsg::ViewGameStatus => match (r, storage@.game_status(sender@)) {
                (Ok(QueryResponse::Game(status)), Ok(expected)) => status@ == expected,
                (Err(e), Err(expected)) => e == expected,
                _ => false,
            },
        },
{
    match msg {
        QueryMsg::ViewLobbyStatus => Ok(QueryResponse::Lobby(query_pre_start_state(storage))),
        QueryMsg::ViewGameStatus => match query_game_state(storage, sender) {
            Ok(status) => Ok(QueryResponse::Game(status)),
            Err(e) => Err(e),
        },
    }
}

} // verus!
