//! Sharing a range of days out among workers.
//!
//! A range of `total` days is cut into `k` consecutive shares. Every share
//! has `total / k` days, and the first `total % k` of them one day more, so
//! that with more workers than days the trailing shares are empty.

use vstd::prelude::*;
use vstd::arithmetic::div_mod::lemma_fundamental_div_mod;
use crate::date::{ConfigError, DateRange, MAX_DAY, MIN_DAY};

verus! {

/// Number of days in share `i` of `k`.
pub open spec fn share_len(total: int, k: int, i: int) -> int {
    total / k + if i < total % k { 1int } else { 0int }
}

/// Number of days that lie before share `i` of `k`.
pub open spec fn share_offset(total: int, k: int, i: int) -> int {
    i * (total / k) + if i < total % k { i } else { total % k }
}

/// Whether `s` is share `i` of `range` cut into `k`: nothing where the share
/// is empty, else the days from its offset on.
pub open spec fn is_share(s: Option<DateRange>, range: DateRange, k: int, i: int) -> bool {
    let len = share_len(range.len(), k, i);
    let first = range.first() + share_offset(range.len(), k, i);
    if len == 0 {
        s is None
    } else {
        s matches Some(days) && days.first() == first && days.last() == first + len - 1
    }
}

/// Whether `shares` is `range` cut into `k`.
pub open spec fn is_partition(shares: Seq<Option<DateRange>>, range: DateRange, k: int) -> bool {
    &&& shares.len() == k
    &&& forall|i: int| 0 <= i < k ==> is_share(#[trigger] shares[i], range, k, i)
}

/// Number of days in a share that may be empty.
pub open spec fn days_in(s: Option<DateRange>) -> int {
    match s {
        Some(days) => days.len(),
        None => 0,
    }
}

/// A share ends where the next one starts, and holds no negative number of days.
pub proof fn lemma_offset_step(total: int, k: int, i: int)
    requires
        k >= 1,
        total >= 0,
        0 <= i,
    ensures
        share_len(total, k, i) >= 0,
        total / k <= share_len(total, k, i) <= total / k + 1,
        share_offset(total, k, i + 1) == share_offset(total, k, i) + share_len(total, k, i),
{
    let q = total / k;
    assert((i + 1) * q == i * q + q) by (nonlinear_arith);
    assert(q >= 0) by (nonlinear_arith)
        requires
            q == total / k,
            total >= 0,
            k >= 1,
    ;
}

/// The shares start at the first day and end at the last.
pub proof fn lemma_offset_ends(total: int, k: int)
    requires
        k >= 1,
        total >= 0,
    ensures
        share_offset(total, k, 0) == 0,
        share_offset(total, k, k) == total,
{
    lemma_fundamental_div_mod(total, k);
}

/// Offsets grow with the index.
pub proof fn lemma_offset_grows(total: int, k: int, i: int, j: int)
    requires
        k >= 1,
        total >= 0,
        0 <= i <= j,
    ensures
        share_offset(total, k, i) <= share_offset(total, k, j),
        i < j ==> share_offset(total, k, i) + share_len(total, k, i) <= share_offset(total, k, j),
    decreases j - i,
{
    if i < j {
        lemma_offset_step(total, k, j - 1);
        lemma_offset_grows(total, k, i, j - 1);
    }
}

/// Every share lies inside the range.
pub proof fn lemma_share_inside(total: int, k: int, i: int)
    requires
        k >= 1,
        total >= 0,
        0 <= i < k,
    ensures
        0 <= share_offset(total, k, i),
        share_offset(total, k, i) + share_len(total, k, i) <= total,
{
    lemma_offset_ends(total, k);
    lemma_offset_step(total, k, i);
    lemma_offset_grows(total, k, 0, i);
    lemma_offset_grows(total, k, i + 1, k);
}

/// Every day of the range lies in some share below `hi`, once the shares
/// below `hi` reach past it.
proof fn lemma_find_share(total: int, k: int, x: int, hi: int) -> (i: int)
    requires
        k >= 1,
        total >= 0,
        0 <= x,
        0 <= hi,
        x < share_offset(total, k, hi),
    ensures
        0 <= i < hi,
        share_offset(total, k, i) <= x < share_offset(total, k, i) + share_len(total, k, i),
    decreases hi,
{
    if hi == 0 {
        lemma_offset_ends(total, k);
        0
    } else {
        lemma_offset_step(total, k, hi - 1);
        if share_offset(total, k, hi - 1) <= x {
            hi - 1
        } else {
            lemma_find_share(total, k, x, hi - 1)
        }
    }
}

/// Cuts `range` into `k` consecutive shares, the longer ones first. A share
/// without days is `None`. No worker at all is refused.
pub fn partition(range: &DateRange, k: usize) -> (r: Result<Vec<Option<DateRange>>, ConfigError>)
    ensures
        r is Err <==> k == 0,
        r matches Err(e) ==> e == ConfigError::InvalidWorkerCount,
        r matches Ok(shares) ==> is_partition(shares@, *range, k as int),
{
    if k == 0 {
        return Err(ConfigError::InvalidWorkerCount);
    }
    let total: u64 = range.total_days() as u64;
    let workers: u64 = k as u64;
    let base: u64 = total / workers;
    let extra: u64 = total % workers;
    let first: i64 = range.first_day() as i64;
    let ghost t: int = total as int;
    let ghost kk: int = k as int;
    let mut shares: Vec<Option<DateRange>> = Vec::new();
    let mut next: i64 = first;
    let mut i: usize = 0;
    proof {
        lemma_offset_ends(t, kk);
    }
    while i < k
        invariant
            0 <= i <= k,
            k >= 1,
            kk == k as int,
            workers == k as u64,
            t == total as int,
            t == range.len(),
            first == range.first(),
            base == t / kk,
            extra == t % kk,
            next == first + share_offset(t, kk, i as int),
            MIN_DAY <= first,
            first + t - 1 <= MAX_DAY,
            shares@.len() == i,
            forall|j: int| 0 <= j < i ==> is_share(#[trigger] shares@[j], *range, kk, j),
        decreases k - i,
    {
        proof {
            lemma_offset_step(t, kk, i as int);
            lemma_share_inside(t, kk, i as int);
        }
        let len: u64 = if (i as u64) < extra { base + 1 } else { base };
        if len == 0 {
            shares.push(None);
        } else {
            let last: i64 = next + (len as i64) - 1;
            shares.push(Some(DateRange::span(next as i32, last as i32)));
            next = last + 1;
        }
        i = i + 1;
    }
    Ok(shares)
}

/// A range cut into a given number of shares can be cut in one way only.
pub proof fn lemma_partition_unique(
    range: DateRange,
    k: int,
    a: Seq<Option<DateRange>>,
    b: Seq<Option<DateRange>>,
)
    requires
        is_partition(a, range, k),
        is_partition(b, range, k),
    ensures
        a == b,
{
    assert forall|i: int| 0 <= i < k implies a[i] == b[i] by {
        assert(is_share(a[i], range, k, i));
        assert(is_share(b[i], range, k, i));
        if a[i] is Some {
            DateRange::lemma_ends_decide(a[i]->0, b[i]->0);
        }
    }
    assert(a =~= b);
}

/// The shares hold every day of the range, and no other day.
pub proof fn lemma_partition_covers(range: DateRange, k: int, shares: Seq<Option<DateRange>>)
    requires
        k >= 1,
        range.len() >= 1,
        is_partition(shares, range, k),
    ensures
        forall|d: int|
            range.holds(d) ==> exists|i: int|
                0 <= i < k && (#[trigger] shares[i]) is Some && shares[i]->0.holds(d),
        forall|i: int, d: int|
            0 <= i < k && (#[trigger] shares[i]) is Some && #[trigger] shares[i]->0.holds(d)
                ==> range.holds(d),
{
    let total = range.len();
    assert forall|d: int| range.holds(d) implies exists|i: int|
        0 <= i < k && (#[trigger] shares[i]) is Some && shares[i]->0.holds(d) by {
        lemma_offset_ends(total, k);
        let i = lemma_find_share(total, k, d - range.first(), k);
        assert(is_share(shares[i], range, k, i));
        assert(shares[i] is Some && shares[i]->0.holds(d));
    }
    assert forall|i: int, d: int|
        0 <= i < k && (#[trigger] shares[i]) is Some && #[trigger] shares[i]->0.holds(
            d,
        ) implies range.holds(d) by {
        assert(is_share(shares[i], range, k, i));
        lemma_share_inside(total, k, i);
    }
}

/// The shares come in ascending order and no day lies in two of them.
pub proof fn lemma_partition_ascends(range: DateRange, k: int, shares: Seq<Option<DateRange>>)
    requires
        k >= 1,
        range.len() >= 1,
        is_partition(shares, range, k),
    ensures
        forall|i: int, j: int|
            0 <= i < j < k && (#[trigger] shares[i]) is Some && (#[trigger] shares[j]) is Some
                ==> shares[i]->0.last() < shares[j]->0.first(),
{
    let total = range.len();
    assert forall|i: int, j: int|
        0 <= i < j < k && (#[trigger] shares[i]) is Some && (#[trigger] shares[j]) is Some implies
        shares[i]->0.last() < shares[j]->0.first() by {
        assert(is_share(shares[i], range, k, i));
        assert(is_share(shares[j], range, k, j));
        lemma_offset_grows(total, k, i, j);
    }
}

/// No two shares differ by more than one day, and an earlier share is never
/// the shorter one.
pub proof fn lemma_partition_balanced(range: DateRange, k: int, shares: Seq<Option<DateRange>>)
    requires
        k >= 1,
        range.len() >= 1,
        is_partition(shares, range, k),
    ensures
        forall|i: int, j: int|
            0 <= i <= j < k ==> 0 <= days_in(#[trigger] shares[i]) - days_in(#[trigger] shares[j])
                <= 1,
        forall|i: int| 0 <= i < k ==> days_in(#[trigger] shares[i]) == share_len(range.len(), k, i),
{
    let total = range.len();
    assert forall|i: int| 0 <= i < k implies days_in(#[trigger] shares[i]) == share_len(
        total,
        k,
        i,
    ) by {
        assert(is_share(shares[i], range, k, i));
        lemma_offset_step(total, k, i);
    }
}

/// Each share starts on the day after the one before it ends, and the empty
/// shares come last.
pub proof fn lemma_partition_contiguous(range: DateRange, k: int, shares: Seq<Option<DateRange>>)
    requires
        k >= 1,
        range.len() >= 1,
        is_partition(shares, range, k),
    ensures
        shares[0] is Some && shares[0]->0.first() == range.first(),
        forall|i: int|
            0 <= i < k - 1 && (#[trigger] shares[i + 1]) is Some ==> shares[i] is Some
                && shares[i + 1]->0.first() == shares[i]->0.last() + 1,
        forall|i: int|
            0 <= i < k && (#[trigger] shares[i]) is Some && (i == k - 1 || shares[i + 1] is None)
                ==> shares[i]->0.last() == range.last(),
{
    let total = range.len();
    lemma_offset_ends(total, k);
    assert(is_share(shares[0], range, k, 0));
    assert(share_len(total, k, 0) >= 1) by {
        lemma_fundamental_div_mod(total, k);
        assert(total / k >= 1 || total % k >= 1) by (nonlinear_arith)
            requires
                total >= 1,
                k >= 1,
                total == k * (total / k) + total % k,
        ;
    }
    assert forall|i: int| 0 <= i < k - 1 && (#[trigger] shares[i + 1]) is Some implies shares[i]
         is Some && shares[i + 1]->0.first() == shares[i]->0.last() + 1 by {
        assert(is_share(shares[i], range, k, i));
        assert(is_share(shares[i + 1], range, k, i + 1));
        lemma_offset_step(total, k, i);
    }
    assert forall|i: int|
        0 <= i < k && (#[trigger] shares[i]) is Some && (i == k - 1 || shares[i + 1]
             is None) implies shares[i]->0.last() == range.last() by {
        assert(is_share(shares[i], range, k, i));
        lemma_offset_step(total, k, i);
        if i < k - 1 {
            assert(is_share(shares[i + 1], range, k, i + 1));
            lemma_trailing_empty(total, k, i + 1, k);
        }
    }
}

/// Once a share is empty, no day is left for the shares after it.
proof fn lemma_trailing_empty(total: int, k: int, i: int, j: int)
    requires
        k >= 1,
        total >= 0,
        0 <= i <= j,
        share_len(total, k, i) == 0,
    ensures
        share_offset(total, k, j) == share_offset(total, k, i),
    decreases j - i,
{
    if i < j {
        lemma_trailing_empty(total, k, i, j - 1);
        lemma_offset_step(total, k, j - 1);
        lemma_offset_step(total, k, i);
    }
}

} // verus!
