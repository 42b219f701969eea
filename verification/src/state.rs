pub mod card;
pub mod chips;
pub mod deck;
pub mod game_state;
pub mod rank;
pub mod store;
pub mod suit;

pub use card::{Card, Player};
pub use deck::Deck;
pub use store::{LobbyConfig, Store, StoreView};
