use holdem::state::game_state::GameState;
use holdem::state::store::{copy_of, copy_of_strings};
use holdem::state::{LobbyConfig, Store};

fn sound() -> Store {
    Store {
        lobby_config: LobbyConfig {
            big_blind: 10,
            max_buy_in_bb: 100,
            min_buy_in_bb: 1,
        },
        admin: "creator".to_string(),
        admin_username: "Creator".to_string(),
        current_state: GameState::Flop,
        all_players: vec!["ann".to_string(), "bob".to_string()],
        usernames: vec!["Ann".to_string(), "Bob".to_string()],
        balances: vec![100, 90],
        hands: vec![Some((0, 14)), None],
        bets: vec![Some(20), None],
        table: vec![6, 7, 8, 9, 10],
        pot: 58,
        current_min_bet: 20,
        current_turn_position: 0,
        button_position: 1,
        last_raiser: 0,
    }
}

#[test]
fn a_sound_store_is_accepted() {
    assert!(sound().is_well_formed());
}

#[test]
fn every_seat_has_all_its_cells() {
    let mut store = sound();
    store.usernames.pop();
    assert!(!store.is_well_formed());
    let mut store = sound();
    store.balances.push(1);
    assert!(!store.is_well_formed());
    let mut store = sound();
    store.hands.pop();
    assert!(!store.is_well_formed());
    let mut store = sound();
    store.bets.push(None);
    assert!(!store.is_well_formed());
}

#[test]
fn no_address_sits_twice() {
    let mut store = sound();
    store.all_players[1] = "ann".to_string();
    assert!(!store.is_well_formed());
}

#[test]
fn a_table_has_no_tenth_seat() {
    let mut store = sound();
    for seat in 2..9 {
        store.all_players.push(format!("player{seat}"));
        store.usernames.push(format!("Player {seat}"));
        store.balances.push(1);
        store.hands.push(None);
        store.bets.push(None);
    }
    assert!(store.is_well_formed());
    store.all_players.push("late".to_string());
    store.usernames.push("Late".to_string());
    store.balances.push(1);
    store.hands.push(None);
    store.bets.push(None);
    assert!(!store.is_well_formed());
}

#[test]
fn a_bet_is_within_the_minimum_and_the_pot() {
    let mut store = sound();
    store.bets[0] = Some(21);
    assert!(!store.is_well_formed());
    let mut store = sound();
    store.pot = 19;
    assert!(!store.is_well_formed());
    let mut store = sound();
    store.current_min_bet = 19;
    assert!(!store.is_well_formed());
}

#[test]
fn the_chips_fit_the_counter() {
    let mut store = sound();
    store.pot = u128::MAX - 190;
    assert!(store.is_well_formed());
    assert_eq!(store.total_chips(), u128::MAX);
    store.pot = u128::MAX - 189;
    assert!(!store.is_well_formed());
    store.pot = 58;
    store.balances = vec![u128::MAX, 1];
    assert!(!store.is_well_formed());
}

#[test]
fn the_buy_in_range_is_not_empty() {
    let mut store = sound();
    store.lobby_config.min_buy_in_bb = 101;
    assert!(!store.is_well_formed());
    store.lobby_config.min_buy_in_bb = 100;
    assert!(store.is_well_formed());
}

#[test]
fn a_seat_is_found_by_its_address() {
    let store = sound();
    assert_eq!(store.find_seat(&"ann".to_string()), Some(0));
    assert_eq!(store.find_seat(&"bob".to_string()), Some(1));
    assert_eq!(store.find_seat(&"Ann".to_string()), None);
    assert_eq!(store.find_seat(&"".to_string()), None);
}

#[test]
fn the_chips_are_the_pot_and_the_balances() {
    assert_eq!(sound().total_chips(), 248);
}

#[test]
fn a_copy_holds_the_same() {
    let store = sound();
    assert_eq!(store.clone(), store);
    assert_eq!(copy_of(&vec![3u8, 1, 2]), vec![3, 1, 2]);
    assert_eq!(copy_of(&Vec::<u128>::new()), Vec::<u128>::new());
    assert_eq!(
        copy_of_strings(&vec!["a".to_string(), "b".to_string()]),
        vec!["a", "b"]
    );
}
