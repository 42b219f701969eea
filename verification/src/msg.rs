use vstd::prelude::*;
use crate::state::store::LobbyConfig;

verus! {

/// What a lobby is created from.
#[derive(Clone, Debug, PartialEq, Eq)]
pub struct InstantiateMsg {
    /// The name under which the creator is shown.
    pub username: String,
    pub big_blind: u32,
    pub max_buy_in_bb: u8,
    pub min_buy_in_bb: u8,
}

/// What a player can ask the table to do.
#[derive(Clone, Debug, PartialEq, Eq)]
pub enum ExecuteMsg {
    StartGame,
    BuyIn { username: String },
    Fold,
    Check,
    Call,
    Raise { raise_amount: u128 },
    PlaceBet { value: u128 },
    Withdraw,
}

/// What can be asked about the table.
#[derive(Clone, Copy, Debug, PartialEq, Eq, Structural)]
pub enum QueryMsg {
    ViewLobbyStatus,
    ViewGameStatus,
}

/// A number of coins of one denomination, as they come with a buy-in.
#[derive(Clone, Debug, PartialEq, Eq)]
pub struct Coin {
    pub denom: String,
    pub amount: u128,
}

/// What anyone may know of the lobby.
#[derive(Clone, Debug, PartialEq, Eq)]
pub struct LobbyStatus {
    /// The name of the creator.
    pub admin: String,
    pub lobby_config: LobbyConfig,
    pub is_started: bool,
    /// The name and the chips of each seat, in seating order.
    pub balances: Vec<(String, u128)>,
}

/// What a player may know of the game.
#[derive(Clone, Debug, PartialEq, Eq)]
pub struct InGameStatus {
    /// The name and the chips of each seat, in seating order.
    pub balances: Vec<(String, u128)>,
    /// The community cards that are face up.
    pub table: Vec<u8>,
    pub pot: u128,
    /// The cards of the player who asks, while they hold any.
    pub hand: Option<(u8, u8)>,
    /// The name of the seat whose turn it is.
    pub current_turn: String,
    /// The name of the seat with the button.
    pub button_player: String,
    /// What the player who asks has to commit to call.
    pub min_bet: u128,
}

/// The answer to a query.
#[derive(Clone, Debug, PartialEq, Eq)]
pub enum QueryResponse {
    Lobby(LobbyStatus),
    Game(InGameStatus),
}

/// A list of names and chips as a mathematical value.
pub open spec fn pairs(v: Seq<(String, u128)>) -> Seq<(Seq<char>, u128)> {
    v.map_values(|p: (String, u128)| (p.0@, p.1))
}

/// The lobby status as a mathematical value.
pub struct LobbyStatusView {
    pub admin: Seq<char>,
    pub lobby_config: LobbyConfig,
    pub is_started: bool,
    pub balances: Seq<(Seq<char>, u128)>,
}

/// The game status as a mathematical value.
pub struct InGameStatusView {
    pub balances: Seq<(Seq<char>, u128)>,
    pub table: Seq<u8>,
    pub pot: u128,
    pub hand: Option<(u8, u8)>,
    pub current_turn: Seq<char>,
    pub button_player: Seq<char>,
    pub min_bet: u128,
}

impl View for LobbyStatus {
    type V = LobbyStatusView;

    open spec fn view(&self) -> LobbyStatusView {
        LobbyStatusView {
            admin: self.admin@,
            lobby_config: self.lobby_config,
            is_started: self.is_started,
            balances: pairs(self.balances@),
        }
    }
}

impl View for InGameStatus {
    type V = InGameStatusView;

    open spec fn view(&self) -> InGameStatusView {
        InGameStatusView {
            balances: pairs(self.balances@),
            table: self.table@,
            pot: self.pot,
            hand: self.hand,
            current_turn: self.current_turn@,
            button_player: self.button_player@,
            min_bet: self.min_bet,
        }
    }
}

/// The denominations and amounts of a list of coins.
pub open spec fn coins(funds: Seq<Coin>) -> Seq<(Seq<char>, u128)> {
    funds.map_values(|c: Coin| (c.denom@, c.amount))
}

} // verus!
