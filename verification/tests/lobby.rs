use holdem::contract::execute::{try_buy_in, try_start_game, try_withdraw_chips};
use holdem::contract::instantiate;
use holdem::error::PokerError;
use holdem::msg::{Coin, InstantiateMsg};
use holdem::state::game_state::GameState;
use holdem::state::{LobbyConfig, Store};

fn lobby() -> Store {
    instantiate(
        "creator".to_string(),
        InstantiateMsg {
            username: "Creator".to_string(),
            big_blind: 1_000_000,
            max_buy_in_bb: 100,
            min_buy_in_bb: 50,
        },
    )
    .unwrap()
}

fn uscrt(amount: u128) -> Vec<Coin> {
    vec![Coin {
        denom: "uscrt".to_string(),
        amount,
    }]
}

fn buy_in(store: &mut Store, who: &str, amount: u128) -> Result<(), PokerError> {
    try_buy_in(format!("{who}'s name"), store, who.to_string(), &uscrt(amount))
}

#[test]
fn the_balances_are_the_buy_ins() {
    let mut store = lobby();
    assert_eq!(buy_in(&mut store, "ann", 50_000_000), Ok(()));
    assert_eq!(buy_in(&mut store, "bob", 75_000_000), Ok(()));
    assert_eq!(buy_in(&mut store, "cat", 100_000_001), Err(PokerError::BuyInTooLarge { maximum: 100_000_000 }));
    assert_eq!(buy_in(&mut store, "cat", 100_000_000), Ok(()));
    assert_eq!(buy_in(&mut store, "ann", 60_000_000), Err(PokerError::AlreadyBoughtIn));

    assert_eq!(store.all_players, vec!["ann", "bob", "cat"]);
    assert_eq!(store.usernames, vec!["ann's name", "bob's name", "cat's name"]);
    assert_eq!(store.balances, vec![50_000_000, 75_000_000, 100_000_000]);
    assert_eq!(store.hands, vec![None, None, None]);
    assert_eq!(store.bets, vec![None, None, None]);
    assert_eq!(store.balances.iter().sum::<u128>(), 225_000_000);
    assert_eq!(store.total_chips(), 225_000_000);
    assert_eq!(store.pot, 0);
    assert!(store.is_well_formed());
}

#[test]
fn a_buy_in_lies_within_the_range() {
    let mut store = lobby();
    let before = store.clone();
    assert_eq!(
        buy_in(&mut store, "ann", 49_999_999),
        Err(PokerError::BuyInTooSmall {
            minimum: 50_000_000
        })
    );
    assert_eq!(
        buy_in(&mut store, "ann", 0),
        Err(PokerError::BuyInTooSmall {
            minimum: 50_000_000
        })
    );
    assert_eq!(
        buy_in(&mut store, "ann", u128::MAX),
        Err(PokerError::BuyInTooLarge {
            maximum: 100_000_000
        })
    );
    assert_eq!(store, before);
    assert_eq!(buy_in(&mut store, "ann", 50_000_000), Ok(()));
    assert_eq!(buy_in(&mut store, "bob", 100_000_000), Ok(()));
}

#[test]
fn the_range_is_counted_in_big_blinds() {
    let config = LobbyConfig {
        big_blind: u32::MAX,
        max_buy_in_bb: 255,
        min_buy_in_bb: 255,
    };
    assert_eq!(config.minimum_buy_in(), 1_095_216_660_225);
    assert_eq!(config.maximum_buy_in(), 1_095_216_660_225);
    let config = LobbyConfig {
        big_blind: 7,
        max_buy_in_bb: 3,
        min_buy_in_bb: 0,
    };
    assert_eq!(config.minimum_buy_in(), 0);
    assert_eq!(config.maximum_buy_in(), 21);
}

#[test]
fn a_buy_in_is_one_coin_of_the_right_kind() {
    let mut store = lobby();
    let before = store.clone();
    let ann = || "ann".to_string();
    assert_eq!(
        try_buy_in(ann(), &mut store, ann(), &vec![]),
        Err(PokerError::WrongFundsCount)
    );
    let mut two = uscrt(50_000_000);
    two.push(Coin {
        denom: "uscrt".to_string(),
        amount: 1,
    });
    assert_eq!(
        try_buy_in(ann(), &mut store, ann(), &two),
        Err(PokerError::WrongFundsCount)
    );
    let other = vec![Coin {
        denom: "uatom".to_string(),
        amount: 50_000_000,
    }];
    assert_eq!(
        try_buy_in(ann(), &mut store, ann(), &other),
        Err(PokerError::WrongDenomination)
    );
    assert_eq!(store, before);
}

#[test]
fn a_table_has_nine_seats() {
    let mut store = lobby();
    for seat in 0..9 {
        assert_eq!(buy_in(&mut store, &format!("player{seat}"), 50_000_000), Ok(()));
    }
    let before = store.clone();
    assert_eq!(
        buy_in(&mut store, "late", 50_000_000),
        Err(PokerError::LobbyFull)
    );
    assert_eq!(store, before);
    assert_eq!(store.total_chips(), 450_000_000);
}

#[test]
fn no_buy_in_once_the_game_has_started() {
    let mut store = lobby();
    assert_eq!(buy_in(&mut store, "ann", 50_000_000), Ok(()));
    assert_eq!(buy_in(&mut store, "bob", 50_000_000), Ok(()));
    assert_eq!(
        try_start_game(&mut store, &"creator".to_string(), &Some(vec![0; 9])),
        Ok(())
    );
    assert_eq!(store.current_state, GameState::PreFlop);
    let before = store.clone();
    assert_eq!(
        buy_in(&mut store, "cat", 50_000_000),
        Err(PokerError::GameAlreadyStarted)
    );
    assert_eq!(store, before);
}

#[test]
fn the_chips_must_stay_countable() {
    let mut store = lobby();
    store.pot = u128::MAX - 60_000_000;
    assert!(store.is_well_formed());
    let before = store.clone();
    assert_eq!(
        buy_in(&mut store, "ann", 60_000_001),
        Err(PokerError::TooManyChips)
    );
    assert_eq!(store, before);
    assert_eq!(buy_in(&mut store, "ann", 60_000_000), Ok(()));
    assert_eq!(store.total_chips(), u128::MAX);
}

#[test]
fn a_seat_that_was_left_is_taken_again_by_its_player() {
    let mut store = lobby();
    assert_eq!(buy_in(&mut store, "ann", 50_000_000), Ok(()));
    assert_eq!(buy_in(&mut store, "bob", 50_000_000), Ok(()));
    assert_eq!(
        try_withdraw_chips(&"ann".to_string(), &mut store, &None),
        Ok(50_000_000)
    );
    assert_eq!(store.balances, vec![0, 50_000_000]);

    assert_eq!(
        try_buy_in(
            "Ann again".to_string(),
            &mut store,
            "ann".to_string(),
            &uscrt(70_000_000)
        ),
        Ok(())
    );
    assert_eq!(store.all_players, vec!["ann", "bob"]);
    assert_eq!(store.usernames, vec!["Ann again", "bob's name"]);
    assert_eq!(store.balances, vec![70_000_000, 50_000_000]);
    assert!(store.is_well_formed());
}

#[test]
fn the_creator_is_shown_under_the_name_it_buys_in_with() {
    let mut store = lobby();
    assert_eq!(store.admin_username, "Creator");
    assert_eq!(buy_in(&mut store, "ann", 50_000_000), Ok(()));
    assert_eq!(store.admin_username, "Creator");
    assert_eq!(buy_in(&mut store, "creator", 50_000_000), Ok(()));
    assert_eq!(store.admin_username, "creator's name");
}

#[test]
fn leaving_the_lobby_takes_the_buy_in_back() {
    let mut store = lobby();
    assert_eq!(buy_in(&mut store, "ann", 50_000_000), Ok(()));
    let before = store.clone();
    assert_eq!(
        try_withdraw_chips(&"bob".to_string(), &mut store, &None),
        Err(PokerError::NotInGame)
    );
    assert_eq!(store, before);
    assert_eq!(
        try_withdraw_chips(&"ann".to_string(), &mut store, &None),
        Ok(50_000_000)
    );
    assert_eq!(store.total_chips(), 0);
    assert_eq!(
        try_withdraw_chips(&"ann".to_string(), &mut store, &None),
        Err(PokerError::NotInGame)
    );
}
