use vstd::prelude::*;

verus! {

/// Why an operation on the table was refused.
///
/// Every operation that returns one of these leaves the store exactly as it
/// found it.
#[derive(Clone, Copy, Debug, PartialEq, Eq, Structural)]
pub enum PokerError {
    /// A betting action or an in-game query arrived before the first hand.
    GameNotStarted,
    /// A lobby action arrived after the first hand was dealt.
    GameAlreadyStarted,
    /// Someone other than the creator of the lobby tried to start the game.
    NotAdmin,
    /// Fewer than two players have bought in.
    InsufficientPlayers,
    /// Every seat of the table is taken.
    LobbyFull,
    /// The sender already holds chips at this table.
    AlreadyBoughtIn,
    /// The buy-in did not consist of exactly one coin.
    WrongFundsCount,
    /// The buy-in was paid in another denomination than the table's.
    WrongDenomination,
    /// The buy-in is below the table's minimum, which is given.
    BuyInTooSmall { minimum: u64 },
    /// The buy-in is above the table's maximum, which is given.
    BuyInTooLarge { maximum: u64 },
    /// The table would hold more chips than can be counted.
    TooManyChips,
    /// The minimum buy-in of a new lobby exceeds its maximum.
    InvalidBuyInRange,
    /// The sender is not the player whose turn it is.
    NotYourTurn,
    /// The sender holds no live hand: never dealt in, or folded.
    NoHandInRound,
    /// The sender has not matched the current minimum bet, so cannot check.
    CannotCheck,
    /// The amount to commit exceeds the sender's balance.
    InsufficientChips,
    /// The bet would leave the sender below the current minimum bet.
    BetBelowMinimum,
    /// No seat holds both a live hand and chips.
    NoEligiblePlayers,
    /// A stored seat pointer does not name a seat of the table.
    PositionOutOfRange,
    /// The block carries no randomness to deal from.
    RandomnessUnavailable,
    /// The seed is too short for the cards that have to be drawn.
    InsufficientEntropy,
    /// All fifty-two cards of the deck have been drawn.
    DeckExhausted,
    /// The sender has no chips at this table, or is unknown to it.
    NotInGame,
    /// The sender holds a live hand with a bet on it and cannot leave now.
    CannotWithdraw,
}

} // verus!
