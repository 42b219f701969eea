use vstd::prelude::*;

verus! {

/// The sum of a sequence of chip counts.
pub open spec fn sum(s: Seq<u128>) -> nat
    decreases s.len(),
{
    if s.len() == 0 {
        0
    } else {
        sum(s.drop_last()) + s.last() as nat
    }
}

/// How many of the chip counts in `s` are above zero.
pub open spec fn funded(s: Seq<u128>) -> nat
    decreases s.len(),
{
    if s.len() == 0 {
        0
    } else {
        funded(s.drop_last()) + if s.last() > 0 { 1nat } else { 0nat }
    }
}

/// A count that is added at the end adds itself to the sum.
pub proof fn sum_push(s: Seq<u128>, x: u128)
    ensures
        sum(s.push(x)) == sum(s) + x,
{
    assert(s.push(x).drop_last() =~= s);
}

/// A count that is replaced takes its old value out of the sum and puts its
/// new one in.
pub proof fn sum_update(s: Seq<u128>, i: int, x: u128)
    requires
        0 <= i < s.len(),
    ensures
        sum(s.update(i, x)) == sum(s) - s[i] + x,
    decreases s.len(),
{
    let t = s.update(i, x);
    if i == s.len() - 1 {
        assert(t.drop_last() =~= s.drop_last());
    } else {
        assert(t.drop_last() =~= s.drop_last().update(i, x));
        sum_update(s.drop_last(), i, x);
    }
}

/// The sum of one count more is the sum so far and that count.
pub proof fn sum_take_step(s: Seq<u128>, i: int)
    requires
        0 <= i < s.len(),
    ensures
        sum(s.take(i + 1)) == sum(s.take(i)) + s[i],
{
    assert(s.take(i + 1).drop_last() =~= s.take(i));
}

/// The sum of the first counts does not exceed the sum of all.
pub proof fn sum_take_le(s: Seq<u128>, i: int)
    requires
        0 <= i <= s.len(),
    ensures
        sum(s.take(i)) <= sum(s),
    decreases s.len() - i,
{
    if i == s.len() {
        assert(s.take(i) =~= s);
    } else {
        sum_take_step(s, i);
        sum_take_le(s, i + 1);
    }
}

/// No single count exceeds the sum.
pub proof fn sum_bounds_each(s: Seq<u128>, i: int)
    requires
        0 <= i < s.len(),
    ensures
        s[i] <= sum(s),
{
    sum_take_step(s, i);
    sum_take_le(s, i + 1);
}

/// Among one count more there is one more above zero where that count is.
pub proof fn funded_take_step(s: Seq<u128>, i: int)
    requires
        0 <= i < s.len(),
    ensures
        funded(s.take(i + 1)) == funded(s.take(i)) + if s[i] > 0 { 1nat } else { 0nat },
{
    assert(s.take(i + 1).drop_last() =~= s.take(i));
}

/// Among the first counts no more are above zero than among all, and no
/// more than there are.
pub proof fn funded_take_le(s: Seq<u128>, i: int)
    requires
        0 <= i <= s.len(),
    ensures
        funded(s.take(i)) <= funded(s),
        funded(s.take(i)) <= i,
    decreases s.len() - i,
{
    funded_le_len(s.take(i));
    if i == s.len() {
        assert(s.take(i) =~= s);
    } else {
        funded_take_step(s, i);
        funded_take_le(s, i + 1);
    }
}

/// No more counts are above zero than there are counts.
pub proof fn funded_le_len(s: Seq<u128>)
    ensures
        funded(s) <= s.len(),
    decreases s.len(),
{
    if s.len() > 0 {
        funded_le_len(s.drop_last());
    }
}

} // verus!
