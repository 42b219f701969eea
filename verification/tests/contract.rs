use holdem::contract::{execute, instantiate, query};
use holdem::error::PokerError;
use holdem::msg::{
    Coin, ExecuteMsg, InGameStatus, InstantiateMsg, LobbyStatus, QueryMsg, QueryResponse,
};
use holdem::state::game_state::GameState;
use holdem::state::{LobbyConfig, Store};

const VALID_USERNAME: &str = "TestUser";
const VALID_LOBBY_CONFIG: LobbyConfig = LobbyConfig {
    big_blind: 1_000_000,
    max_buy_in_bb: 100,
    min_buy_in_bb: 50,
};
const VALID_MAX_BUY_IN: u128 =
    VALID_LOBBY_CONFIG.big_blind as u128 * VALID_LOBBY_CONFIG.max_buy_in_bb as u128;
const VALID_MIN_BUY_IN: u128 =
    VALID_LOBBY_CONFIG.big_blind as u128 * VALID_LOBBY_CONFIG.min_buy_in_bb as u128;

/// The randomness of the mock block.
fn mock_random() -> Option<Vec<u8>> {
    Some(vec![
        192, 187, 10, 117, 255, 236, 98, 171, 210, 48, 141, 6, 209, 165, 145, 142, 134, 246, 230,
        106, 200, 7, 69, 80, 86, 52, 227, 13, 121, 195, 105, 249,
    ])
}

fn coins(amount: u128, denom: &str) -> Vec<Coin> {
    vec![Coin {
        denom: denom.to_string(),
        amount,
    }]
}

fn valid_instantiation() -> Store {
    let msg = InstantiateMsg {
        username: VALID_USERNAME.to_string(),
        big_blind: VALID_LOBBY_CONFIG.big_blind,
        max_buy_in_bb: VALID_LOBBY_CONFIG.max_buy_in_bb,
        min_buy_in_bb: VALID_LOBBY_CONFIG.min_buy_in_bb,
    };

    instantiate("creator".to_string(), msg).unwrap()
}

fn buy_in_as(sender: &str, username: &str, amount: u128, store: &mut Store) {
    let msg = ExecuteMsg::BuyIn {
        username: username.to_string(),
    };

    execute(
        store,
        sender.to_string(),
        &coins(amount, "uscrt"),
        msg,
        &mock_random(),
    )
    .unwrap();
}

fn buy_in(sender: &str, amount: u128, store: &mut Store) {
    buy_in_as(sender, sender, amount, store);
}

fn start_game(store: &mut Store) {
    execute(
        store,
        "creator".to_string(),
        &vec![],
        ExecuteMsg::StartGame,
        &mock_random(),
    )
    .unwrap();
}

fn call(sender: &str, store: &mut Store) -> Result<u128, PokerError> {
    execute(
        store,
        sender.to_string(),
        &vec![],
        ExecuteMsg::Call,
        &mock_random(),
    )
}

fn query_lobby_status(store: &Store) -> LobbyStatus {
    match query(store, &"anyone".to_string(), QueryMsg::ViewLobbyStatus).unwrap() {
        QueryResponse::Lobby(status) => status,
        QueryResponse::Game(_) => panic!("asked for the lobby"),
    }
}

fn query_game_status(sender: &str, store: &Store) -> InGameStatus {
    match query(store, &sender.to_string(), QueryMsg::ViewGameStatus).unwrap() {
        QueryResponse::Game(status) => status,
        QueryResponse::Lobby(_) => panic!("asked for the game"),
    }
}

fn find_balance(username: &str, balances: &[(String, u128)]) -> u128 {
    balances
        .iter()
        .find_map(|(username_, balance)| {
            if username_ == username {
                Some(*balance)
            } else {
                None
            }
        })
        .unwrap()
}

#[test]
fn test_instantiation_valid_message() {
    let store = valid_instantiation();

    let lobby_status = query_lobby_status(&store);
    assert_eq!(VALID_USERNAME, lobby_status.admin);
    assert_eq!(false, lobby_status.is_started);
    assert_eq!(0, lobby_status.balances.len());
    assert_eq!(VALID_LOBBY_CONFIG, lobby_status.lobby_config);
}

#[test]
fn test_buy_in_with_max_buy_in() {
    let mut store = valid_instantiation();
    buy_in_as("anyone", VALID_USERNAME, VALID_MAX_BUY_IN, &mut store);

    let lobby_status = query_lobby_status(&store);
    assert_eq!(1, lobby_status.balances.len());
    assert_eq!(
        (VALID_USERNAME.to_string(), VALID_MAX_BUY_IN),
        lobby_status.balances[0]
    );
}

#[test]
fn test_buy_in_with_min_buy_in() {
    let mut store = valid_instantiation();
    buy_in_as("anyone", VALID_USERNAME, VALID_MIN_BUY_IN, &mut store);

    let lobby_status = query_lobby_status(&store);
    assert_eq!(1, lobby_status.balances.len());
    assert_eq!(
        (VALID_USERNAME.to_string(), VALID_MIN_BUY_IN),
        lobby_status.balances[0]
    );
}

#[test]
fn test_start_game_as_admin() {
    let first_buyer = "first_user";
    let second_buyer = "second_user";

    let mut store = valid_instantiation();
    buy_in(first_buyer, VALID_MIN_BUY_IN, &mut store);
    buy_in(second_buyer, VALID_MIN_BUY_IN, &mut store);
    start_game(&mut store);

    let lobby_status = query_lobby_status(&store);
    assert_eq!(true, lobby_status.is_started);

    let game_status = query_game_status(first_buyer, &store);
    let first_buyers_balance = find_balance(first_buyer, &game_status.balances);
    let second_buyers_balance = find_balance(second_buyer, &game_status.balances);
    assert_eq!(
        VALID_MIN_BUY_IN - VALID_LOBBY_CONFIG.big_blind as u128,
        first_buyers_balance
    );
    assert_eq!(
        VALID_MIN_BUY_IN - VALID_LOBBY_CONFIG.big_blind as u128 / 2,
        second_buyers_balance
    );
}

#[test]
fn test_call_sufficient_balance() {
    let first_buyer = "first_user";
    let second_buyer = "second_user";

    let mut store = valid_instantiation();
    buy_in(first_buyer, VALID_MIN_BUY_IN, &mut store);
    buy_in(second_buyer, VALID_MIN_BUY_IN, &mut store);
    start_game(&mut store);
    let _ = call(first_buyer, &mut store);

    let _game_status = query_game_status(first_buyer, &store);
}

#[test]
fn start_game_posts_the_blinds() {
    let mut store = valid_instantiation();
    buy_in("first_user", 50_000_000, &mut store);
    buy_in("second_user", 50_000_000, &mut store);
    start_game(&mut store);

    assert_eq!(store.balances, vec![49_000_000, 49_500_000]);
    assert_eq!(store.pot, 1_500_000);
    assert_eq!(store.bets, vec![Some(1_000_000), Some(500_000)]);
    assert_eq!(store.current_min_bet, 1_000_000);
    assert_eq!(store.button_position, 0);
    assert_eq!(store.current_turn_position, 1);
    assert_eq!(store.last_raiser, 0);
    assert_eq!(store.current_state, GameState::PreFlop);
    assert!(store.is_well_formed());
}

#[test]
fn start_game_deals_from_the_seed() {
    let mut store = valid_instantiation();
    buy_in("first_user", 50_000_000, &mut store);
    buy_in("second_user", 50_000_000, &mut store);
    start_game(&mut store);

    assert_eq!(store.hands, vec![Some((36, 35)), Some((12, 22))]);
    assert_eq!(store.table, vec![19, 6, 2, 43, 42]);
}

#[test]
fn start_game_is_for_the_creator() {
    let mut store = valid_instantiation();
    buy_in("first_user", 50_000_000, &mut store);
    buy_in("second_user", 50_000_000, &mut store);
    let before = store.clone();

    let refused = execute(
        &mut store,
        "first_user".to_string(),
        &vec![],
        ExecuteMsg::StartGame,
        &mock_random(),
    );
    assert_eq!(refused, Err(PokerError::NotAdmin));
    assert_eq!(store, before);
}

#[test]
fn start_game_needs_two_players() {
    let mut store = valid_instantiation();
    buy_in("first_user", 50_000_000, &mut store);
    let before = store.clone();

    let refused = execute(
        &mut store,
        "creator".to_string(),
        &vec![],
        ExecuteMsg::StartGame,
        &mock_random(),
    );
    assert_eq!(refused, Err(PokerError::InsufficientPlayers));
    assert_eq!(store, before);
}

#[test]
fn start_game_twice_is_refused() {
    let mut store = valid_instantiation();
    buy_in("first_user", 50_000_000, &mut store);
    buy_in("second_user", 50_000_000, &mut store);
    start_game(&mut store);
    let before = store.clone();

    let refused = execute(
        &mut store,
        "creator".to_string(),
        &vec![],
        ExecuteMsg::StartGame,
        &mock_random(),
    );
    assert_eq!(refused, Err(PokerError::GameAlreadyStarted));
    assert_eq!(store, before);
}

#[test]
fn start_game_needs_randomness() {
    let mut store = valid_instantiation();
    buy_in("first_user", 50_000_000, &mut store);
    buy_in("second_user", 50_000_000, &mut store);
    let before = store.clone();

    let none = execute(
        &mut store,
        "creator".to_string(),
        &vec![],
        ExecuteMsg::StartGame,
        &None,
    );
    assert_eq!(none, Err(PokerError::RandomnessUnavailable));
    assert_eq!(store, before);

    let short = execute(
        &mut store,
        "creator".to_string(),
        &vec![],
        ExecuteMsg::StartGame,
        &Some(vec![1, 2, 3, 4, 5, 6, 7, 8]),
    );
    assert_eq!(short, Err(PokerError::InsufficientEntropy));
    assert_eq!(store, before);

    let enough = execute(
        &mut store,
        "creator".to_string(),
        &vec![],
        ExecuteMsg::StartGame,
        &Some(vec![1, 2, 3, 4, 5, 6, 7, 8, 9]),
    );
    assert_eq!(enough, Ok(0));
}

#[test]
fn instantiate_refuses_an_empty_buy_in_range() {
    let msg = InstantiateMsg {
        username: VALID_USERNAME.to_string(),
        big_blind: 10,
        max_buy_in_bb: 49,
        min_buy_in_bb: 50,
    };
    assert_eq!(
        instantiate("creator".to_string(), msg),
        Err(PokerError::InvalidBuyInRange)
    );
}

#[test]
fn instantiate_gives_an_empty_lobby() {
    let store = valid_instantiation();
    assert!(store.is_well_formed());
    assert_eq!(store.admin, "creator");
    assert_eq!(store.admin_username, VALID_USERNAME);
    assert_eq!(store.current_state, GameState::NotStarted);
    assert_eq!(store.pot, 0);
    assert_eq!(store.total_chips(), 0);
    assert!(store.all_players.is_empty());
}

#[test]
fn a_hand_played_to_showdown() {
    let mut store = valid_instantiation();
    buy_in("first_user", 50_000_000, &mut store);
    buy_in("second_user", 50_000_000, &mut store);
    start_game(&mut store);
    let random = mock_random();
    let first = "first_user".to_string();
    let second = "second_user".to_string();
    let none: Vec<Coin> = vec![];

    // Before the flop the small blind completes, which closes the street.
    assert_eq!(
        execute(&mut store, second.clone(), &none, ExecuteMsg::Call, &random),
        Ok(0)
    );
    assert_eq!(store.current_state, GameState::Flop);
    assert_eq!(store.balances, vec![49_000_000, 49_000_000]);
    assert_eq!(store.pot, 2_000_000);
    assert_eq!(store.bets, vec![None, None]);
    assert_eq!(store.current_min_bet, 0);
    assert_eq!(store.current_turn_position, 1);

    // On the flop both check.
    assert_eq!(
        execute(&mut store, second.clone(), &none, ExecuteMsg::Check, &random),
        Ok(0)
    );
    assert_eq!(store.current_state, GameState::Flop);
    assert_eq!(store.current_turn_position, 0);
    assert_eq!(
        execute(&mut store, first.clone(), &none, ExecuteMsg::Check, &random),
        Ok(0)
    );
    assert_eq!(store.current_state, GameState::Turn);
    assert_eq!(store.current_turn_position, 1);

    // On the turn a raise is called.
    assert_eq!(
        execute(
            &mut store,
            second.clone(),
            &none,
            ExecuteMsg::Raise {
                raise_amount: 1_000_000
            },
            &random
        ),
        Ok(0)
    );
    assert_eq!(store.current_min_bet, 1_000_000);
    assert_eq!(store.last_raiser, 1);
    assert_eq!(store.current_turn_position, 0);
    assert_eq!(
        execute(&mut store, first.clone(), &none, ExecuteMsg::Call, &random),
        Ok(0)
    );
    assert_eq!(store.current_state, GameState::River);
    assert_eq!(store.balances, vec![48_000_000, 48_000_000]);
    assert_eq!(store.pot, 4_000_000);

    // On the river both check, and the hand goes to showdown: a pair of
    // sevens on the table, and the second seat holds the higher kicker.
    assert_eq!(
        execute(&mut store, second.clone(), &none, ExecuteMsg::Check, &random),
        Ok(0)
    );
    assert_eq!(
        execute(&mut store, first.clone(), &none, ExecuteMsg::Check, &random),
        Ok(0)
    );

    // The next hand has been dealt with the button one seat on.
    assert_eq!(store.current_state, GameState::PreFlop);
    assert_eq!(store.button_position, 1);
    assert_eq!(store.balances, vec![47_500_000, 51_000_000]);
    assert_eq!(store.pot, 1_500_000);
    assert_eq!(store.bets, vec![Some(500_000), Some(1_000_000)]);
    assert_eq!(store.current_turn_position, 0);
    assert_eq!(store.last_raiser, 1);
    assert_eq!(store.total_chips(), 100_000_000);
    assert!(store.is_well_formed());
}

#[test]
fn withdraw_pays_the_balance_out() {
    let mut store = valid_instantiation();
    buy_in("first_user", 50_000_000, &mut store);
    buy_in("second_user", 60_000_000, &mut store);

    let paid = execute(
        &mut store,
        "second_user".to_string(),
        &vec![],
        ExecuteMsg::Withdraw,
        &mock_random(),
    );
    assert_eq!(paid, Ok(60_000_000));
    assert_eq!(store.balances, vec![50_000_000, 0]);
    assert_eq!(store.all_players.len(), 2);
    assert_eq!(store.total_chips(), 50_000_000);
}

#[test]
fn place_bet_is_a_raise() {
    let mut raised = valid_instantiation();
    buy_in("first_user", 50_000_000, &mut raised);
    buy_in("second_user", 50_000_000, &mut raised);
    start_game(&mut raised);
    let mut placed = raised.clone();

    let by_raise = execute(
        &mut raised,
        "second_user".to_string(),
        &vec![],
        ExecuteMsg::Raise {
            raise_amount: 2_000_000,
        },
        &mock_random(),
    );
    let by_bet = execute(
        &mut placed,
        "second_user".to_string(),
        &vec![],
        ExecuteMsg::PlaceBet { value: 2_000_000 },
        &mock_random(),
    );
    assert_eq!(by_raise, Ok(0));
    assert_eq!(by_bet, Ok(0));
    assert_eq!(raised, placed);
    assert_eq!(raised.current_min_bet, 2_500_000);
    assert_eq!(raised.balances, vec![49_000_000, 47_500_000]);
}

#[test]
fn game_status_is_for_players() {
    let mut store = valid_instantiation();
    buy_in("first_user", 50_000_000, &mut store);
    buy_in("second_user", 50_000_000, &mut store);

    assert_eq!(
        query(&store, &"first_user".to_string(), QueryMsg::ViewGameStatus),
        Err(PokerError::GameNotStarted)
    );
    start_game(&mut store);
    assert_eq!(
        query(&store, &"stranger".to_string(), QueryMsg::ViewGameStatus),
        Err(PokerError::NotInGame)
    );

    let status = query_game_status("second_user", &store);
    assert_eq!(
        status,
        InGameStatus {
            balances: vec![
                ("first_user".to_string(), 49_000_000),
                ("second_user".to_string(), 49_500_000)
            ],
            table: vec![],
            pot: 1_500_000,
            hand: Some((12, 22)),
            current_turn: "second_user".to_string(),
            button_player: "first_user".to_string(),
            min_bet: 500_000,
        }
    );

    // The creator may look on without a seat.
    let status = query_game_status("creator", &store);
    assert_eq!(status.hand, None);
    assert_eq!(status.min_bet, 1_000_000);
}

#[test]
fn three_players_and_a_split_pot() {
    let msg = InstantiateMsg {
        username: "Creator".to_string(),
        big_blind: 10,
        max_buy_in_bb: 100,
        min_buy_in_bb: 1,
    };
    let mut store = instantiate("creator".to_string(), msg).unwrap();
    // With a seed of zeros the deck is dealt in order: every card is a
    // heart, and the table holds a straight flush that nobody improves.
    let random = Some(vec![0u8; 32]);
    let none: Vec<Coin> = vec![];
    let mut act = |store: &mut Store, who: &str, msg: ExecuteMsg| {
        execute(store, who.to_string(), &none, msg, &random)
    };
    for who in ["ann", "bob", "cat"] {
        let paid = coins(100, "uscrt");
        let msg = ExecuteMsg::BuyIn {
            username: who.to_uppercase(),
        };
        assert_eq!(execute(&mut store, who.to_string(), &paid, msg, &random), Ok(0));
    }
    assert_eq!(act(&mut store, "creator", ExecuteMsg::StartGame), Ok(0));
    assert_eq!(store.hands, vec![Some((0, 1)), Some((2, 3)), Some((4, 5))]);
    assert_eq!(store.table, vec![6, 7, 8, 9, 10]);
    assert_eq!(store.balances, vec![100, 95, 90]);
    assert_eq!(store.current_turn_position, 0);

    // Before the flop: a call, a fold, and the big blind has nothing to match.
    assert_eq!(act(&mut store, "ann", ExecuteMsg::Call), Ok(0));
    assert_eq!(store.current_turn_position, 1);
    assert_eq!(act(&mut store, "bob", ExecuteMsg::Fold), Ok(0));
    assert_eq!(store.current_state, GameState::Flop);
    assert_eq!(store.pot, 25);
    assert_eq!(store.current_turn_position, 2);
    assert_eq!(store.last_raiser, 2);

    // On the flop: a check, a raise and a call.
    assert_eq!(act(&mut store, "cat", ExecuteMsg::Check), Ok(0));
    assert_eq!(
        act(&mut store, "ann", ExecuteMsg::Raise { raise_amount: 20 }),
        Ok(0)
    );
    assert_eq!(store.current_turn_position, 2);
    assert_eq!(
        act(&mut store, "cat", ExecuteMsg::Check),
        Err(PokerError::CannotCheck)
    );
    assert_eq!(act(&mut store, "cat", ExecuteMsg::Call), Ok(0));
    assert_eq!(store.current_state, GameState::Turn);
    assert_eq!(store.balances, vec![70, 95, 70]);
    assert_eq!(store.pot, 65);

    // The turn and the river are checked through.
    assert_eq!(act(&mut store, "cat", ExecuteMsg::Check), Ok(0));
    assert_eq!(act(&mut store, "ann", ExecuteMsg::Check), Ok(0));
    assert_eq!(store.current_state, GameState::River);
    assert_eq!(act(&mut store, "cat", ExecuteMsg::Check), Ok(0));
    assert_eq!(
        act(&mut store, "bob", ExecuteMsg::Check),
        Err(PokerError::NoHandInRound)
    );
    assert_eq!(act(&mut store, "ann", ExecuteMsg::Check), Ok(0));

    // Both play the table: 32 each, and the odd chip to the first seat.
    // Then the next hand: the button at seat 1, the small blind from seat 2
    // and the big blind from seat 0.
    assert_eq!(store.current_state, GameState::PreFlop);
    assert_eq!(store.button_position, 1);
    assert_eq!(store.balances, vec![103 - 10, 95, 102 - 5]);
    assert_eq!(store.bets, vec![Some(10), None, Some(5)]);
    assert_eq!(store.pot, 15);
    assert_eq!(store.current_turn_position, 1);
    assert_eq!(store.last_raiser, 0);
    assert_eq!(store.total_chips(), 300);
    assert!(store.is_well_formed());
}
