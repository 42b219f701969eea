pub mod bets;
pub mod betting;
pub mod cards;
pub mod conservation;
pub mod deal;
pub mod eval;
pub mod round;
pub mod showdown;
pub mod turn;

pub use bets::take_bet;
pub use betting::{betting_turn, perform_action, Action};
pub use cards::{card_to_u8, u8_to_card, u8s_to_cards};
pub use deal::new_hand;
pub use eval::Evaluator;
pub use round::{move_turn_position, next_betting_round};
pub use showdown::{award_pot, distribute_pot, end_round, pick_winners, rank_hands, showdown};
pub use turn::{find_next_player, find_next_player_lazy};
