use holdem::error::PokerError;
use holdem::poker::turn::is_eligible;
use holdem::poker::{find_next_player, find_next_player_lazy};
use holdem::state::game_state::GameState;
use holdem::state::{LobbyConfig, Store};

fn table(balances: Vec<u128>, hands: Vec<Option<(u8, u8)>>) -> Store {
    let seats = balances.len();
    let store = Store {
        lobby_config: LobbyConfig {
            big_blind: 10,
            max_buy_in_bb: 100,
            min_buy_in_bb: 1,
        },
        admin: "creator".to_string(),
        admin_username: "Creator".to_string(),
        current_state: GameState::PreFlop,
        all_players: (0..seats).map(|i| format!("player{i}")).collect(),
        usernames: (0..seats).map(|i| format!("Player {i}")).collect(),
        balances,
        hands,
        bets: vec![None; seats],
        table: vec![],
        pot: 0,
        current_min_bet: 0,
        current_turn_position: 0,
        button_position: 0,
        last_raiser: 0,
    };
    assert!(store.is_well_formed());
    store
}

#[test]
fn the_search_skips_folded_and_broke_seats() {
    // Seat 1 has folded, seat 2 holds no chips.
    let store = table(
        vec![10, 10, 0, 10],
        vec![Some((0, 1)), None, Some((2, 3)), Some((4, 5))],
    );
    assert!(is_eligible(&store, 0));
    assert!(!is_eligible(&store, 1));
    assert!(!is_eligible(&store, 2));
    assert!(is_eligible(&store, 3));
    assert!(!is_eligible(&store, 4));

    assert_eq!(find_next_player(&store, 0), Ok(0));
    assert_eq!(find_next_player(&store, 1), Ok(3));
    assert_eq!(find_next_player(&store, 2), Ok(3));
    assert_eq!(find_next_player(&store, 3), Ok(3));
}

#[test]
fn the_search_goes_round_the_table() {
    let store = table(
        vec![10, 10, 0, 0],
        vec![None, Some((0, 1)), Some((2, 3)), None],
    );
    assert_eq!(find_next_player(&store, 2), Ok(1));
    assert_eq!(find_next_player(&store, 3), Ok(1));
    // A start beyond the table is taken round it: 4 is seat 0, 6 is seat 2.
    assert_eq!(find_next_player(&store, 4), Ok(1));
    assert_eq!(find_next_player(&store, 5), Ok(1));
    assert_eq!(find_next_player(&store, 6), Ok(1));
    assert_eq!(find_next_player(&store, usize::MAX), Ok(1));
}

#[test]
fn both_searches_find_the_same_seat() {
    let stores = vec![
        table(
            vec![10, 10, 0, 10],
            vec![Some((0, 1)), None, Some((2, 3)), Some((4, 5))],
        ),
        table(vec![0, 0, 5], vec![None, Some((0, 1)), Some((2, 3))]),
        table(vec![1, 1], vec![None, None]),
        table(vec![9; 9], vec![Some((0, 1)); 9]),
        table(vec![], vec![]),
    ];
    for store in &stores {
        for start in 0..20 {
            assert_eq!(
                find_next_player(store, start),
                find_next_player_lazy(start, store)
            );
        }
    }
}

#[test]
fn no_eligible_seat_is_an_error() {
    let folded = table(vec![10, 10], vec![None, None]);
    assert_eq!(
        find_next_player(&folded, 0),
        Err(PokerError::NoEligiblePlayers)
    );
    assert_eq!(
        find_next_player_lazy(1, &folded),
        Err(PokerError::NoEligiblePlayers)
    );

    let broke = table(vec![0, 0], vec![Some((0, 1)), Some((2, 3))]);
    assert_eq!(
        find_next_player(&broke, 1),
        Err(PokerError::NoEligiblePlayers)
    );

    let empty = table(vec![], vec![]);
    assert_eq!(
        find_next_player(&empty, 0),
        Err(PokerError::NoEligiblePlayers)
    );
    assert_eq!(
        find_next_player_lazy(3, &empty),
        Err(PokerError::NoEligiblePlayers)
    );
}
