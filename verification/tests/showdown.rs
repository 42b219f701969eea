use holdem::error::PokerError;
use holdem::poker::{
    award_pot, distribute_pot, end_round, pick_winners, rank_hands, showdown, Evaluator,
};
use holdem::state::game_state::GameState;
use holdem::state::{LobbyConfig, Store};

fn at_the_river(
    balances: Vec<u128>,
    hands: Vec<Option<(u8, u8)>>,
    table: Vec<u8>,
    pot: u128,
) -> Store {
    let seats = balances.len();
    let store = Store {
        lobby_config: LobbyConfig {
            big_blind: 10,
            max_buy_in_bb: 100,
            min_buy_in_bb: 1,
        },
        admin: "creator".to_string(),
        admin_username: "Creator".to_string(),
        current_state: GameState::River,
        all_players: (0..seats).map(|i| format!("player{i}")).collect(),
        usernames: (0..seats).map(|i| format!("Player {i}")).collect(),
        balances,
        hands,
        bets: vec![None; seats],
        table,
        pot,
        current_min_bet: 0,
        current_turn_position: 0,
        button_position: 0,
        last_raiser: 0,
    };
    assert!(store.is_well_formed());
    store
}

// Hearts are 0 to 12, diamonds 13 to 25, clubs 26 to 38, spades 39 to 51,
// each from the ace up to the king.
const ROYAL_FLUSH_IN_HEARTS: [u8; 5] = [0, 9, 10, 11, 12];

#[test]
fn the_evaluator_ranks_seven_cards() {
    let evaluator = Evaluator::new();
    // Three of diamonds and of clubs with six of hearts, nine of spades, ten
    // of hearts, ace of clubs and seven of hearts.
    assert_eq!(
        evaluator.evaluate((15, 28), &vec![5, 47, 9, 26, 6]),
        Some(1689)
    );
    assert_eq!(
        evaluator.evaluate((0, 2), &vec![27, 15, 10, 41, 18]),
        Some(5124)
    );
    // The order of the cards does not matter.
    assert_eq!(
        evaluator.evaluate((28, 15), &vec![6, 26, 9, 47, 5]),
        Some(1689)
    );
}

#[test]
fn the_evaluator_ranks_better_hands_higher() {
    let evaluator = Evaluator::new();
    let table = vec![51, 34, 4, 41, 23];
    let aces = evaluator.evaluate((0, 13), &table).unwrap();
    let kings = evaluator.evaluate((12, 25), &table).unwrap();
    let nothing = evaluator.evaluate((19, 27), &table).unwrap();
    assert!(aces < kings, "three kings beat a pair of aces");
    assert!(nothing < aces);

    let royal = evaluator
        .evaluate((13, 14), &ROYAL_FLUSH_IN_HEARTS.to_vec())
        .unwrap();
    assert_eq!(royal, 7461);
    assert!(kings < royal);
}

#[test]
fn the_evaluator_wants_seven_different_cards() {
    let evaluator = Evaluator::new();
    assert_eq!(evaluator.evaluate((0, 1), &vec![2, 3, 4, 5]), None);
    assert_eq!(evaluator.evaluate((0, 1), &vec![2, 3, 4, 5, 6, 7]), None);
    assert_eq!(evaluator.evaluate((0, 1), &vec![]), None);
    assert_eq!(evaluator.evaluate((0, 0), &vec![2, 3, 4, 5, 6]), None);
    assert_eq!(evaluator.evaluate((0, 1), &vec![2, 3, 4, 5, 1]), None);
    assert_eq!(evaluator.evaluate((0, 1), &vec![2, 3, 3, 5, 6]), None);
    assert_eq!(evaluator.evaluate((0, 52), &vec![2, 3, 4, 5, 6]), None);
    assert_eq!(evaluator.evaluate((0, 1), &vec![2, 3, 4, 5, 200]), None);
    assert!(evaluator.evaluate((0, 1), &vec![2, 3, 4, 5, 6]).is_some());
}

#[test]
fn every_live_hand_is_ranked() {
    let store = at_the_river(
        vec![10, 10, 10],
        vec![Some((15, 28)), None, Some((0, 2))],
        vec![5, 47, 9, 26, 6],
        0,
    );
    assert_eq!(
        rank_hands(&store),
        vec![
            Some(1689),
            None,
            Evaluator::new().evaluate((0, 2), &store.table)
        ]
    );
}

#[test]
fn the_better_hand_takes_the_pot() {
    // A pair of aces against seven high, on a table that helps neither.
    let mut store = at_the_river(
        vec![10, 20],
        vec![Some((19, 27)), Some((0, 13))],
        vec![51, 34, 4, 41, 23],
        7,
    );
    assert_eq!(showdown(&mut store), Ok(()));
    assert_eq!(store.balances, vec![10, 27]);
    assert_eq!(store.pot, 0);
    assert_eq!(store.bets, vec![None, None]);
}

#[test]
fn a_lone_hand_takes_the_pot_unranked() {
    // With no table there is nothing to rank the hand with.
    let mut store = at_the_river(vec![10, 20, 30], vec![None, Some((0, 1)), None], vec![], 7);
    assert_eq!(showdown(&mut store), Ok(()));
    assert_eq!(store.balances, vec![10, 27, 30]);
    assert_eq!(store.pot, 0);
    assert_eq!(store.total_chips(), 67);
}

#[test]
fn tied_hands_split_the_pot() {
    // Both seats play the table.
    let mut store = at_the_river(
        vec![10, 0, 20],
        vec![Some((13, 14)), None, Some((26, 27))],
        ROYAL_FLUSH_IN_HEARTS.to_vec(),
        101,
    );
    assert_eq!(showdown(&mut store), Ok(()));
    // Fifty each, and the odd chip to the seat that sits first.
    assert_eq!(store.balances, vec![61, 0, 70]);
    assert_eq!(store.pot, 0);
    assert_eq!(store.total_chips(), 131);
}

#[test]
fn a_seat_without_chips_still_wins() {
    let mut store = at_the_river(
        vec![0, 20],
        vec![Some((0, 13)), Some((19, 27))],
        vec![51, 34, 4, 41, 23],
        40,
    );
    assert_eq!(showdown(&mut store), Ok(()));
    assert_eq!(store.balances, vec![40, 20]);
}

#[test]
fn hands_that_cannot_be_ranked_do_not_win() {
    // Two live hands and no table: neither has a rank.
    let mut store = at_the_river(vec![10, 20], vec![Some((0, 1)), Some((2, 3))], vec![], 7);
    let before = store.clone();
    assert_eq!(showdown(&mut store), Err(PokerError::NoEligiblePlayers));
    assert_eq!(store, before);

    // A hand that holds a card of the table has no rank, the other wins.
    let mut store = at_the_river(
        vec![10, 20],
        vec![Some((51, 1)), Some((19, 27))],
        vec![51, 34, 4, 41, 23],
        7,
    );
    assert_eq!(showdown(&mut store), Ok(()));
    assert_eq!(store.balances, vec![10, 27]);
}

#[test]
fn a_showdown_without_hands_is_an_error() {
    let mut store = at_the_river(vec![10, 20], vec![None, None], vec![1, 2, 3, 4, 5], 7);
    let before = store.clone();
    assert_eq!(showdown(&mut store), Err(PokerError::NoEligiblePlayers));
    assert_eq!(store, before);
}

#[test]
fn the_highest_rank_wins() {
    let store = at_the_river(
        vec![1, 1, 1, 1],
        vec![Some((0, 1)), Some((2, 3)), Some((4, 5)), None],
        vec![],
        0,
    );
    assert_eq!(
        pick_winners(&store, &vec![Some(5), Some(9), Some(9), Some(100)]),
        vec![1, 2]
    );
    assert_eq!(
        pick_winners(&store, &vec![Some(5), None, Some(4), None]),
        vec![0]
    );
    assert_eq!(
        pick_winners(&store, &vec![Some(7), Some(7), Some(7), Some(7)]),
        vec![0, 1, 2]
    );
    assert_eq!(
        pick_winners(&store, &vec![None, None, None, None]),
        Vec::<usize>::new()
    );
    // Ranks that are missing count as none.
    assert_eq!(pick_winners(&store, &vec![Some(1)]), vec![0]);
    assert_eq!(pick_winners(&store, &vec![]), Vec::<usize>::new());
}

#[test]
fn the_pot_is_divided_among_the_winners() {
    let mut store = at_the_river(
        vec![100, 200, 300],
        vec![Some((0, 1)), Some((2, 3)), Some((4, 5))],
        vec![],
        11,
    );
    assert_eq!(
        award_pot(&vec![Some(5), Some(9), Some(9)], &mut store),
        Ok(())
    );
    // Five each, and the odd chip to the first of the two.
    assert_eq!(store.balances, vec![100, 206, 305]);
    assert_eq!(store.pot, 0);

    let mut store = at_the_river(
        vec![100, 200, 300],
        vec![Some((0, 1)), Some((2, 3)), Some((4, 5))],
        vec![],
        11,
    );
    assert_eq!(
        award_pot(&vec![Some(9), Some(9), Some(9)], &mut store),
        Ok(())
    );
    // Three each, and two left over.
    assert_eq!(store.balances, vec![105, 203, 303]);
    assert_eq!(store.total_chips(), 611);
}

#[test]
fn a_pot_without_a_winner_stays() {
    let mut store = at_the_river(
        vec![100, 200],
        vec![Some((0, 1)), Some((2, 3))],
        vec![],
        11,
    );
    let before = store.clone();
    assert_eq!(
        award_pot(&vec![None, None], &mut store),
        Err(PokerError::NoEligiblePlayers)
    );
    assert_eq!(store, before);
}

#[test]
fn the_winners_are_paid_in_the_order_given() {
    let mut store = at_the_river(vec![1, 2, 3], vec![None, None, None], vec![], 10);
    store.bets = vec![Some(0), None, Some(0)];
    assert!(store.is_well_formed());
    distribute_pot(&vec![2, 0, 1], &mut store);
    assert_eq!(store.balances, vec![4, 5, 7]);
    assert_eq!(store.pot, 0);
    assert_eq!(store.bets, vec![None, None, None]);

    let mut store = at_the_river(vec![1, 2, 3], vec![None, None, None], vec![], 10);
    distribute_pot(&vec![1], &mut store);
    assert_eq!(store.balances, vec![1, 12, 3]);
}

#[test]
fn the_end_of_a_round_clears_the_table() {
    let mut store = at_the_river(
        vec![100, 200],
        vec![Some((0, 1)), Some((2, 3))],
        vec![4, 5, 6, 7, 8],
        0,
    );
    store.bets = vec![Some(0), None];
    end_round(&mut store);
    assert_eq!(store.hands, vec![None, None]);
    assert_eq!(store.bets, vec![None, None]);
    assert_eq!(store.table, Vec::<u8>::new());
    assert_eq!(store.current_state, GameState::PreFlop);
    assert_eq!(store.balances, vec![100, 200]);
    assert_eq!(store.pot, 0);
}
