use vstd::arithmetic::div_mod::{
    lemma_add_mod_noop, lemma_mod_bound, lemma_mod_sub_multiples_vanish, lemma_small_mod,
};
use vstd::prelude::*;
use crate::error::PokerError;
use crate::state::store::{Store, StoreView};

verus! {

impl StoreView {
    /// The seat `i` places round the table from seat 0, for `i` below twice
    /// the number of seats.
    pub open spec fn wrap(self, i: int) -> int {
        if i < self.seats() {
            i
        } else {
            i - self.seats()
        }
    }

    /// The first eligible seat among those `k` or more places clockwise of
    /// `base`, once round the table at most.
    pub open spec fn scan(self, base: int, k: int) -> Option<int>
        decreases self.seats() - k,
    {
        if k < 0 || k >= self.seats() {
            None
        } else if self.eligible(self.wrap(base + k)) {
            Some(self.wrap(base + k))
        } else {
            self.scan(base, k + 1)
        }
    }

    /// The seat that acts next when the search starts at `start`: the first
    /// seat, `start` itself included, going clockwise and once round the
    /// table, that holds a live hand and chips. `start` may be any number;
    /// it is taken round the table.
    pub open spec fn next_eligible(self, start: int) -> Option<int> {
        if self.seats() == 0 {
            None
        } else {
            self.scan(start % (self.seats() as int), 0)
        }
    }

    /// Going round the table is counting modulo the number of seats: the
    /// place that the search looks at `k` steps after its start is seat
    /// `(start + k) % seats`.
    pub proof fn wrap_counts_round_the_table(self, start: int, k: int)
        requires
            0 <= k < self.seats(),
        ensures
            self.wrap(start % (self.seats() as int) + k) == (start + k) % (self.seats() as int),
    {
        let n = self.seats() as int;
        let base = start % n;
        lemma_mod_bound(start, n);
        lemma_add_mod_noop(start, k, n);
        lemma_small_mod(k as nat, n as nat);
        if base + k < n {
            lemma_small_mod((base + k) as nat, n as nat);
        } else {
            lemma_mod_sub_multiples_vanish(base + k, n);
            lemma_small_mod((base + k - n) as nat, n as nat);
        }
    }

    /// A search that meets no eligible seat between `from` and `to` finds
    /// what a search from `to` on finds.
    pub proof fn scan_skips(self, base: int, from: int, to: int)
        requires
            0 <= from <= to <= self.seats(),
            forall|j: int| from <= j < to ==> !self.eligible(#[trigger] self.wrap(base + j)),
        ensures
            self.scan(base, from) == self.scan(base, to),
        decreases to - from,
    {
        if from < to {
            assert(!self.eligible(self.wrap(base + from)));
            self.scan_skips(base, from + 1, to);
        }
    }

    /// The seat that acts next is eligible, and no seat between the start
    /// and it is. There is none exactly when no seat is eligible: a seat
    /// that has folded or holds no chips is never chosen.
    pub proof fn next_eligible_is_first(self, start: int)
        requires
            self.seats() > 0,
        ensures
            match self.next_eligible(start) {
                Some(seat) => {
                    &&& self.eligible(seat)
                    &&& exists|k: int|
                        {
                            &&& 0 <= k < self.seats()
                            &&& seat == #[trigger] self.wrap(start % (self.seats() as int) + k)
                            &&& forall|j: int|
                                0 <= j < k ==> !self.eligible(
                                    #[trigger] self.wrap(start % (self.seats() as int) + j),
                                )
                        }
                },
                None => forall|i: int| !self.eligible(i),
            },
    {
        let n = self.seats() as int;
        let base = start % n;
        assert(0 <= base < n) by (nonlinear_arith)
            requires
                base == start % n,
                n > 0,
        ;
        self.first_from(base, 0);
        if self.scan(base, 0) is None {
            assert forall|i: int| !self.eligible(i) by {
                if 0 <= i < n {
                    let j = if i >= base {
                        i - base
                    } else {
                        i - base + n
                    };
                    assert(self.wrap(base + j) == i);
                }
            }
        }
    }

    /// What a search from place `k` on finds is eligible and the first such
    /// seat from there; where it finds nothing, no seat from there on is
    /// eligible.
    pub proof fn first_from(self, base: int, k: int)
        requires
            0 <= k <= self.seats(),
        ensures
            match self.scan(base, k) {
                Some(seat) => {
                    &&& self.eligible(seat)
                    &&& exists|m: int|
                        {
                            &&& k <= m < self.seats()
                            &&& seat == #[trigger] self.wrap(base + m)
                            &&& forall|j: int|
                                k <= j < m ==> !self.eligible(#[trigger] self.wrap(base + j))
                        }
                },
                None => forall|j: int|
                    k <= j < self.seats() ==> !self.eligible(#[trigger] self.wrap(base + j)),
            },
        decreases self.seats() - k,
    {
        if k < self.seats() {
            if self.eligible(self.wrap(base + k)) {
                assert(self.scan(base, k) == Some(self.wrap(base + k)));
            } else {
                self.first_from(base, k + 1);
                match self.scan(base, k + 1) {
                    Some(seat) => {
                        let m = choose|m: int|
                            {
                                &&& k + 1 <= m < self.seats()
                                &&& seat == #[trigger] self.wrap(base + m)
                                &&& forall|j: int|
                                    k + 1 <= j < m ==> !self.eligible(
                                        #[trigger] self.wrap(base + j),
                                    )
                            };
                        assert(seat == self.wrap(base + m));
                        assert forall|j: int| k <= j < m implies !self.eligible(
                            #[trigger] self.wrap(base + j),
                        ) by {}
                    },
                    None => {},
                }
            }
        }
    }
}

/// Whether seat `i` holds a live hand and chips.
pub fn is_eligible(storage: &Store, i: usize) -> (r: bool)
    ensures
        r == storage@.eligible(i as int),
{
    i < storage.all_players.len() && i < storage.hands.len() && i < storage.balances.len()
        && storage.hands[i].is_some()
        && storage.balances[i] > 0
}

/// Finds the seat that acts next, searching clockwise from
/// `player_position`, that seat included, once round the table.
///
/// Fails with `NoEligiblePlayers` exactly when no seat holds both a live
/// hand and chips.
pub fn find_next_player(storage: &Store, player_position: usize) -> (r: Result<
    usize,
    PokerError,
>)
    ensures
        match r {
            Ok(seat) => storage@.next_eligible(player_position as int) == Some(seat as int)
                && storage@.eligible(seat as int) && seat < storage@.seats(),
            Err(e) => e == PokerError::NoEligiblePlayers && storage@.next_eligible(
                player_position as int,
            ) is None,
        },
{
    let n: usize = storage.all_players.len();
    if n == 0 {
        return Err(PokerError::NoEligiblePlayers);
    }
    let base: usize = player_position % n;
    let mut k: usize = 0;
    while k < n
        invariant
            0 < n == storage@.seats(),
            base == player_position % n,
            base < n,
            k <= n,
            forall|j: int| 0 <= j < k ==> !storage@.eligible(#[trigger] storage@.wrap(base + j)),
        decreases n - k,
    {
        let seat: usize = if base < n - k {
            base + k
        } else {
            base - (n - k)
        };
        assert(seat == storage@.wrap(base + k));
        if is_eligible(storage, seat) {
            proof {
                storage@.scan_skips(base as int, 0, k as int);
                assert(storage@.scan(base as int, k as int) == Some(seat as int));
            }
            return Ok(seat);
        }
        k = k + 1;
    }
    proof {
        storage@.scan_skips(base as int, 0, n as int);
    }
    Err(PokerError::NoEligiblePlayers)
}

/// Finds the same seat as `find_next_player`, in two passes over the seats:
/// first from `player_position` to the last seat, then from the first seat
/// up to `player_position`.
pub fn find_next_player_lazy(player_position: usize, storage: &Store) -> (r: Result<
    usize,
    PokerError,
>)
    ensures
        match r {
            Ok(seat) => storage@.next_eligible(player_position as int) == Some(seat as int)
                && storage@.eligible(seat as int) && seat < storage@.seats(),
            Err(e) => e == PokerError::NoEligiblePlayers && storage@.next_eligible(
                player_position as int,
            ) is None,
        },
{
    let n: usize = storage.all_players.len();
    if n == 0 {
        return Err(PokerError::NoEligiblePlayers);
    }
    let base: usize = player_position % n;
    let mut i: usize = base;
    while i < n
        invariant
            0 < n == storage@.seats(),
            base == player_position % n,
            base <= i <= n,
            forall|j: int|
                0 <= j < i - base ==> !storage@.eligible(#[trigger] storage@.wrap(base + j)),
        decreases n - i,
    {
        assert(i == storage@.wrap(base + (i - base)));
        if is_eligible(storage, i) {
            proof {
                storage@.scan_skips(base as int, 0, i - base);
                assert(storage@.scan(base as int, i - base) == Some(i as int));
            }
            return Ok(i);
        }
        i = i + 1;
    }
    let mut i: usize = 0;
    while i < base
        invariant
            0 < n == storage@.seats(),
            base == player_position % n,
            i <= base < n,
            forall|j: int|
                0 <= j < n - base + i ==> !storage@.eligible(
                    #[trigger] storage@.wrap(base + j),
                ),
        decreases base - i,
    {
        assert(i == storage@.wrap(base + (n - base + i)));
        if is_eligible(storage, i) {
            proof {
                storage@.scan_skips(base as int, 0, n - base + i);
                assert(storage@.scan(base as int, n - base + i) == Some(i as int));
            }
            return Ok(i);
        }
        i = i + 1;
    }
    proof {
        storage@.scan_skips(base as int, 0, n as int);
    }
    Err(PokerError::NoEligiblePlayers)
}

} // verus!
