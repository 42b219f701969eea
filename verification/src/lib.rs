//! A table of Texas Hold'em for up to nine players who share one pot.
//!
//! The game lives in a [`state::Store`], which holds everything that is
//! kept between two requests. Every operation takes the store, either does
//! what is asked and leaves the store well formed, or refuses and leaves it
//! untouched. What each operation does is said by a function on
//! [`state::StoreView`], the store as a mathematical value, and proved of
//! the code.
//!
//! - [`contract`] holds the requests: creating a lobby, buying in, starting
//!   the game, betting, leaving, and the two views of the table.
//! - [`poker`] holds the game: whose turn it is, dealing, the blinds, the
//!   betting streets, the showdown.
//! - [`state`] holds the store, the deck and the cards.

pub mod contract;
pub mod error;
pub mod msg;
pub mod poker;
pub mod state;
