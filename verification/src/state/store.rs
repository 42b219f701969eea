use vstd::prelude::*;
use crate::state::chips::{sum, sum_take_le, sum_take_step};
use crate::state::game_state::GameState;

verus! {

/// The number of seats at a table.
pub const MAX_PLAYERS: usize = 9;

/// What a lobby is created with and keeps for good: the size of the big
/// blind, and the smallest and largest buy-in, each counted in big blinds.
#[derive(Clone, Copy, Debug, PartialEq, Eq, Structural)]
pub struct LobbyConfig {
    pub big_blind: u32,
    pub max_buy_in_bb: u8,
    pub min_buy_in_bb: u8,
}

impl LobbyConfig {
    /// The smallest buy-in, in chips.
    pub open spec fn min_buy_in(self) -> nat {
        self.min_buy_in_bb as nat * self.big_blind as nat
    }

    /// The largest buy-in, in chips.
    pub open spec fn max_buy_in(self) -> nat {
        self.max_buy_in_bb as nat * self.big_blind as nat
    }

    /// The smallest buy-in, in chips.
    pub fn minimum_buy_in(&self) -> (r: u64)
        ensures
            r == self.min_buy_in(),
    {
        assert(self.min_buy_in_bb as nat * self.big_blind as nat <= 0xff * 0xffff_ffff)
            by (nonlinear_arith)
            requires
                self.min_buy_in_bb <= 0xff,
                self.big_blind <= 0xffff_ffff,
        ;
        (self.min_buy_in_bb as u64) * (self.big_blind as u64)
    }

    /// The largest buy-in, in chips.
    pub fn maximum_buy_in(&self) -> (r: u64)
        ensures
            r == self.max_buy_in(),
    {
        assert(self.max_buy_in_bb as nat * self.big_blind as nat <= 0xff * 0xffff_ffff)
            by (nonlinear_arith)
            requires
                self.max_buy_in_bb <= 0xff,
                self.big_blind <= 0xffff_ffff,
        ;
        (self.max_buy_in_bb as u64) * (self.big_blind as u64)
    }
}

/// Everything the game keeps between two calls, one field for each cell.
///
/// A seat is a place in `all_players`; the four vectors after it hold, at
/// the same place, what belongs to that seat. Seats are handed out at buy-in
/// and never move. A balance of zero means that the seat holds no chips.
#[derive(Debug, PartialEq, Eq)]
pub struct Store {
    pub lobby_config: LobbyConfig,
    /// The address that created the lobby.
    pub admin: String,
    /// The name under which the creator is shown.
    pub admin_username: String,
    pub current_state: GameState,
    /// The address of each seat, in seating order.
    pub all_players: Vec<String>,
    /// The name of each seat.
    pub usernames: Vec<String>,
    /// The chips of each seat.
    pub balances: Vec<u128>,
    /// The two cards of each seat, while it is in the hand.
    pub hands: Vec<Option<(u8, u8)>>,
    /// What each seat has committed on this street, once it has acted.
    pub bets: Vec<Option<u128>>,
    /// The community cards of the hand, face up or not.
    pub table: Vec<u8>,
    pub pot: u128,
    /// What a seat must have committed on this street to stay in the hand.
    pub current_min_bet: u128,
    pub current_turn_position: usize,
    pub button_position: usize,
    pub last_raiser: usize,
}

/// The store as a mathematical value.
#[verifier::ext_equal]
pub struct StoreView {
    pub lobby_config: LobbyConfig,
    pub admin: Seq<char>,
    pub admin_username: Seq<char>,
    pub current_state: GameState,
    pub all_players: Seq<Seq<char>>,
    pub usernames: Seq<Seq<char>>,
    pub balances: Seq<u128>,
    pub hands: Seq<Option<(u8, u8)>>,
    pub bets: Seq<Option<u128>>,
    pub table: Seq<u8>,
    pub pot: u128,
    pub current_min_bet: u128,
    pub current_turn_position: usize,
    pub button_position: usize,
    pub last_raiser: usize,
}

/// The texts of a vector of strings.
pub open spec fn texts(v: Seq<String>) -> Seq<Seq<char>> {
    v.map_values(|s: String| s@)
}

impl View for Store {
    type V = StoreView;

    open spec fn view(&self) -> StoreView {
        StoreView {
            lobby_config: self.lobby_config,
            admin: self.admin@,
            admin_username: self.admin_username@,
            current_state: self.current_state,
            all_players: texts(self.all_players@),
            usernames: texts(self.usernames@),
            balances: self.balances@,
            hands: self.hands@,
            bets: self.bets@,
            table: self.table@,
            pot: self.pot,
            current_min_bet: self.current_min_bet,
            current_turn_position: self.current_turn_position,
            button_position: self.button_position,
            last_raiser: self.last_raiser,
        }
    }
}

impl StoreView {
    /// The number of seats.
    pub open spec fn seats(self) -> nat {
        self.all_players.len()
    }

    /// Every seat has a name, a balance, a hand cell and a bet cell, and the
    /// table has no more seats than it may.
    pub open spec fn shaped(self) -> bool {
        &&& self.usernames.len() == self.seats()
        &&& self.balances.len() == self.seats()
        &&& self.hands.len() == self.seats()
        &&& self.bets.len() == self.seats()
        &&& self.seats() <= MAX_PLAYERS
    }

    /// No address sits at two seats.
    pub open spec fn distinct_players(self) -> bool {
        forall|i: int, j: int|
            0 <= i < j < self.all_players.len() ==> #[trigger] self.all_players[i]
                != #[trigger] self.all_players[j]
    }

    /// No street bet exceeds what has to be matched, nor what the pot holds.
    pub open spec fn bets_bounded(self) -> bool {
        forall|i: int|
            0 <= i < self.bets.len() ==> match #[trigger] self.bets[i] {
                Some(b) => b <= self.current_min_bet && b <= self.pot,
                None => true,
            }
    }

    /// All chips at the table: the pot and every balance.
    pub open spec fn chips(self) -> nat {
        self.pot as nat + sum(self.balances)
    }

    /// What every operation expects of the store and leaves true of it.
    pub open spec fn wf(self) -> bool {
        &&& self.shaped()
        &&& self.distinct_players()
        &&& self.lobby_config.min_buy_in_bb <= self.lobby_config.max_buy_in_bb
        &&& self.chips() <= u128::MAX
        &&& self.bets_bounded()
    }

    /// What seat `i` has committed on this street; nothing before it acts.
    pub open spec fn bet_of(self, i: int) -> u128 {
        match self.bets[i] {
            Some(b) => b,
            None => 0,
        }
    }

    /// Seat `i` holds a hand that has not been folded.
    pub open spec fn live(self, i: int) -> bool {
        0 <= i < self.seats() && i < self.hands.len() && self.hands[i] is Some
    }

    /// Seat `i` can be asked to act: it holds a live hand and chips.
    pub open spec fn eligible(self, i: int) -> bool {
        &&& 0 <= i < self.seats()
        &&& i < self.hands.len()
        &&& i < self.balances.len()
        &&& self.hands[i] is Some
        &&& self.balances[i] > 0
    }

    /// `who` sits at seat `i`.
    pub open spec fn sits_at(self, who: Seq<char>, i: int) -> bool {
        0 <= i < self.all_players.len() && self.all_players[i] == who
    }

    /// `who` sits at some seat.
    pub open spec fn seated(self, who: Seq<char>) -> bool {
        exists|i: int| self.sits_at(who, i)
    }

    /// The seat of `who`, where `who` is seated.
    pub open spec fn seat_of(self, who: Seq<char>) -> int {
        choose|i: int| self.sits_at(who, i)
    }

    /// At a table where no address sits twice, the seat of an address is
    /// the one seat where it sits.
    pub proof fn seat_is_unique(self, who: Seq<char>, i: int)
        requires
            self.distinct_players(),
            self.sits_at(who, i),
        ensures
            self.seated(who),
            self.seat_of(who) == i,
    {
        let j = self.seat_of(who);
        assert(self.sits_at(who, j));
        if j < i {
            assert(self.all_players[j] != self.all_players[i]);
        } else if i < j {
            assert(self.all_players[i] != self.all_players[j]);
        }
    }
}

/// A copy of a vector of plain values.
pub fn copy_of<T: Copy>(v: &Vec<T>) -> (r: Vec<T>)
    ensures
        r@ == v@,
{
    let mut r: Vec<T> = Vec::new();
    let mut i: usize = 0;
    while i < v.len()
        invariant
            i <= v.len(),
            r@ == v@.take(i as int),
        decreases v.len() - i,
    {
        r.push(v[i]);
        i = i + 1;
        assert(r@ =~= v@.take(i as int));
    }
    assert(v@.take(v.len() as int) =~= v@);
    r
}

/// A copy of a vector of strings.
pub fn copy_of_strings(v: &Vec<String>) -> (r: Vec<String>)
    ensures
        r@ == v@,
{
    let mut r: Vec<String> = Vec::new();
    let mut i: usize = 0;
    while i < v.len()
        invariant
            i <= v.len(),
            r@ == v@.take(i as int),
        decreases v.len() - i,
    {
        r.push(v[i].clone());
        i = i + 1;
        assert(r@ =~= v@.take(i as int));
    }
    assert(v@.take(v.len() as int) =~= v@);
    r
}

impl Clone for Store {
    /// A copy that holds the same in every cell.
    fn clone(&self) -> (r: Store)
        ensures
            r@ == self@,
    {
        Store {
            lobby_config: self.lobby_config,
            admin: self.admin.clone(),
            admin_username: self.admin_username.clone(),
            current_state: self.current_state,
            all_players: copy_of_strings(&self.all_players),
            usernames: copy_of_strings(&self.usernames),
            balances: copy_of(&self.balances),
            hands: copy_of(&self.hands),
            bets: copy_of(&self.bets),
            table: copy_of(&self.table),
            pot: self.pot,
            current_min_bet: self.current_min_bet,
            current_turn_position: self.current_turn_position,
            button_position: self.button_position,
            last_raiser: self.last_raiser,
        }
    }
}

impl Store {
    /// The seat at which `who` sits, if any.
    pub fn find_seat(&self, who: &String) -> (r: Option<usize>)
        ensures
            match r {
                Some(i) => self@.sits_at(who@, i as int) && forall|j: int|
                    0 <= j < i ==> !self@.sits_at(who@, j),
                None => !self@.seated(who@),
            },
    {
        let mut i: usize = 0;
        while i < self.all_players.len()
            invariant
                i <= self.all_players.len(),
                forall|j: int| 0 <= j < i ==> !self@.sits_at(who@, j),
            decreases self.all_players.len() - i,
        {
            if self.all_players[i] == *who {
                return Some(i);
            }
            i = i + 1;
        }
        None
    }

    /// Whether no address sits at two seats.
    fn players_are_distinct(&self) -> (r: bool)
        ensures
            r == self@.distinct_players(),
    {
        let n: usize = self.all_players.len();
        let mut j: usize = 0;
        while j < n
            invariant
                j <= n,
                n == self.all_players.len(),
                forall|a: int, b: int|
                    0 <= a < b < j ==> #[trigger] self@.all_players[a]
                        != #[trigger] self@.all_players[b],
            decreases n - j,
        {
            let mut i: usize = 0;
            while i < j
                invariant
                    i <= j < n,
                    n == self.all_players.len(),
                    forall|a: int| 0 <= a < i ==> #[trigger] self@.all_players[a]
                        != self@.all_players[j as int],
                decreases j - i,
            {
                if self.all_players[i] == self.all_players[j] {
                    assert(self@.all_players[i as int] == self@.all_players[j as int]);
                    return false;
                }
                i = i + 1;
            }
            j = j + 1;
        }
        true
    }

    /// Whether every street bet is within the minimum bet and the pot.
    fn bets_are_bounded(&self) -> (r: bool)
        ensures
            r == self@.bets_bounded(),
    {
        let mut i: usize = 0;
        while i < self.bets.len()
            invariant
                i <= self.bets.len(),
                forall|k: int|
                    0 <= k < i ==> match #[trigger] self@.bets[k] {
                        Some(b) => b <= self.current_min_bet && b <= self.pot,
                        None => true,
                    },
            decreases self.bets.len() - i,
        {
            match self.bets[i] {
                Some(b) => {
                    if b > self.current_min_bet || b > self.pot {
                        return false;
                    }
                },
                None => {},
            }
            i = i + 1;
        }
        true
    }

    /// Whether the pot and the balances together fit the chip counter.
    fn chips_fit(&self) -> (r: bool)
        ensures
            r == (self@.chips() <= u128::MAX),
    {
        let mut total: u128 = self.pot;
        let mut i: usize = 0;
        while i < self.balances.len()
            invariant
                i <= self.balances.len(),
                total == self.pot + sum(self.balances@.take(i as int)),
            decreases self.balances.len() - i,
        {
            proof {
                sum_take_step(self.balances@, i as int);
                sum_take_le(self.balances@, i + 1);
            }
            match total.checked_add(self.balances[i]) {
                Some(t) => {
                    total = t;
                },
                None => {
                    return false;
                },
            }
            i = i + 1;
        }
        assert(self.balances@.take(i as int) =~= self.balances@);
        true
    }

    /// All chips at the table: the pot and every balance.
    pub fn total_chips(&self) -> (r: u128)
        requires
            self@.wf(),
        ensures
            r == self@.chips(),
    {
        let mut total: u128 = self.pot;
        let mut i: usize = 0;
        while i < self.balances.len()
            invariant
                i <= self.balances.len(),
                total == self.pot + sum(self.balances@.take(i as int)),
                self@.chips() <= u128::MAX,
            decreases self.balances.len() - i,
        {
            proof {
                sum_take_step(self.balances@, i as int);
                sum_take_le(self.balances@, i + 1);
            }
            total = total + self.balances[i];
            i = i + 1;
        }
        assert(self.balances@.take(i as int) =~= self.balances@);
        total
    }

    /// Whether the store is one that the game's operations accept. A store
    /// that was read back from where it is kept is tested with this before
    /// anything is done to it.
    pub fn is_well_formed(&self) -> (r: bool)
        ensures
            r == self@.wf(),
    {
        let n: usize = self.all_players.len();
        if self.usernames.len() != n || self.balances.len() != n || self.hands.len() != n
            || self.bets.len() != n || n > MAX_PLAYERS {
            return false;
        }
        if self.lobby_config.min_buy_in_bb > self.lobby_config.max_buy_in_bb {
            return false;
        }
        self.players_are_distinct() && self.chips_fit() && self.bets_are_bounded()
    }
}

} // verus!
