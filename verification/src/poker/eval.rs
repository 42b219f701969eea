use std::sync::Arc;
use vstd::prelude::*;
use crate::poker::cards::{card_of, evaluator_key, rank_key, rank_keys_are_one_to_one, u8_to_card};

verus! {

/// The lookup tables of the hand evaluator: a collection of ranks, one for
/// each choice of seven cards.
#[verifier::external_type_specification]
#[verifier::external_body]
pub struct ExTableSeven(poker_eval::eval::seven::TableSeven);

/// What the tables hold: for seven cards, written in the evaluator's own
/// numbering, the rank that a lookup in these tables gives.
pub uninterp spec fn table_ranks(tables: poker_eval::eval::seven::TableSeven) -> Map<
    Seq<usize>,
    u32,
>;

/// The ranks that `poker_eval` puts into the tables it builds. A higher
/// rank is a better hand, and two hands of one rank tie.
pub uninterp spec fn built_ranks(verbose: bool) -> Map<Seq<usize>, u32>;

/// The rank that `poker_eval` gives to seven cards: the one that the tables
/// it builds hold for them.
pub open spec fn seven_card_rank(cards: Seq<usize>) -> u32 {
    built_ranks(false)[cards]
}

/// `poker_eval::eval::seven::build_tables`: builds the evaluator's lookup
/// tables, and reports the time it took where `verbose` is set. The claim is
/// that the ranks in the tables are the same whenever and wherever they are
/// built: the source fills them from constants, in fixed loops.
#[verifier::external_body]
fn build_tables(verbose: bool) -> (tables: Arc<poker_eval::eval::seven::TableSeven>)
    ensures
        table_ranks(*tables) == built_ranks(verbose),
{
    poker_eval::eval::seven::build_tables(verbose)
}

/// The seven cards that a seat plays at showdown: its own two, then the
/// table's.
pub open spec fn seven_cards(hand: (u8, u8), table: Seq<u8>) -> Seq<u8> {
    seq![hand.0, hand.1] + table
}

/// `cards` are seven different cards.
pub open spec fn valid_seven(cards: Seq<u8>) -> bool {
    &&& cards.len() == 7
    &&& forall|i: int| 0 <= i < 7 ==> #[trigger] cards[i] < 52
    &&& forall|i: int, j: int| 0 <= i < j < 7 ==> #[trigger] cards[i] != #[trigger] cards[j]
}

/// Seven cards in the evaluator's numbering.
pub open spec fn rank_keys(cards: Seq<u8>) -> Seq<usize> {
    Seq::new(7, |i: int| rank_key(card_of(cards[i])->Some_0) as usize)
}

/// The rank of a hand with the table's cards, where together they are seven
/// different cards; nothing otherwise.
pub open spec fn hand_rank(hand: (u8, u8), table: Seq<u8>) -> Option<u32> {
    if valid_seven(seven_cards(hand, table)) {
        Some(seven_card_rank(rank_keys(seven_cards(hand, table))))
    } else {
        None
    }
}

/// Whether `cards` are seven different cards.
fn is_valid_seven(cards: &[u8; 7]) -> (r: bool)
    ensures
        r == valid_seven(cards@),
{
    let mut j: usize = 0;
    while j < 7
        invariant
            j <= 7,
            forall|a: int| 0 <= a < j ==> #[trigger] cards@[a] < 52,
            forall|a: int, b: int| 0 <= a < b < j ==> #[trigger] cards@[a] != #[trigger] cards@[b],
        decreases 7 - j,
    {
        if cards[j] >= 52 {
            return false;
        }
        let mut i: usize = 0;
        while i < j
            invariant
                i <= j < 7,
                forall|a: int| 0 <= a < i ==> #[trigger] cards@[a] != cards@[j as int],
            decreases j - i,
        {
            if cards[i] == cards[j] {
                return false;
            }
            i = i + 1;
        }
        j = j + 1;
    }
    true
}

/// The evaluator's number of the card that is stored as `card`.
fn key_of(card: u8) -> (r: usize)
    requires
        card < 52,
    ensures
        r == rank_key(card_of(card)->Some_0),
        r < 52,
{
    match u8_to_card(card) {
        Some(c) => evaluator_key(c),
        None => 0,
    }
}

/// Two different cards have different numbers with the evaluator.
proof fn keys_differ(first: u8, second: u8)
    requires
        first < 52,
        second < 52,
        first != second,
    ensures
        rank_key(card_of(first)->Some_0) != rank_key(card_of(second)->Some_0),
{
    let a = card_of(first)->Some_0;
    let b = card_of(second)->Some_0;
    rank_keys_are_one_to_one(a, b);
    crate::poker::cards::card_numbers_are_one_to_one(a, first);
    crate::poker::cards::card_numbers_are_one_to_one(b, second);
}

/// Ranks hands. It holds the evaluator's tables, which take a moment to
/// build and are never changed.
pub struct Evaluator {
    tables: Arc<poker_eval::eval::seven::TableSeven>,
}

impl Evaluator {
    /// The ranks that the evaluator's tables hold.
    pub closed spec fn ranks(&self) -> Map<Seq<usize>, u32> {
        table_ranks(*self.tables)
    }

    /// Every evaluator holds tables as `poker_eval` builds them.
    #[verifier::type_invariant]
    spec fn holds_built_tables(&self) -> bool {
        self.ranks() == built_ranks(false)
    }

    /// An evaluator with freshly built tables: it holds the ranks that
    /// `poker_eval` gives. There is no other way to make one.
    pub fn new() -> (evaluator: Evaluator)
        ensures
            evaluator.ranks() == built_ranks(false),
    {
        Evaluator { tables: build_tables(false) }
    }

    /// `poker_eval::eval::seven::get_rank`: looks the rank of seven cards up
    /// in the tables that this evaluator holds, and returns what they hold
    /// for these cards. The tables must be as `build_tables` made them and
    /// the cards seven different numbers below 52: on others the lookup may
    /// leave its tables.
    #[verifier::external_body]
    fn get_rank(&self, cards: [usize; 7]) -> (rank: u32)
        requires
            self.ranks() == built_ranks(false),
            forall|i: int| 0 <= i < 7 ==> #[trigger] cards@[i] < 52,
            forall|i: int, j: int| 0 <= i < j < 7 ==> #[trigger] cards@[i] != #[trigger] cards@[j],
        ensures
            rank == self.ranks()[cards@],
    {
        poker_eval::eval::seven::get_rank(&self.tables, cards)
    }

    /// The rank of `hand` with the cards of `table`. There is none where the
    /// table does not hold five cards, or the seven are not seven different
    /// cards.
    pub fn evaluate(&self, hand: (u8, u8), table: &Vec<u8>) -> (r: Option<u32>)
        ensures
            r == hand_rank(hand, table@),
    {
        if table.len() != 5 {
            return None;
        }
        let cards: [u8; 7] = [hand.0, hand.1, table[0], table[1], table[2], table[3], table[4]];
        assert(cards@ =~= seven_cards(hand, table@));
        if !is_valid_seven(&cards) {
            return None;
        }
        let keys: [usize; 7] = [
            key_of(cards[0]),
            key_of(cards[1]),
            key_of(cards[2]),
            key_of(cards[3]),
            key_of(cards[4]),
            key_of(cards[5]),
            key_of(cards[6]),
        ];
        proof {
            use_type_invariant(self);
            assert(keys@ =~= rank_keys(cards@));
            assert forall|i: int, j: int| 0 <= i < j < 7 implies #[trigger] keys@[i]
                != #[trigger] keys@[j] by {
                assert(cards@[i] != cards@[j]);
                keys_differ(cards@[i], cards@[j]);
            }
        }
        Some(self.get_rank(keys))
    }
}

} // verus!
