//! Scores and their order.
//!
//! A score is held as the 32 bits of a single-precision number, most
//! significant bit the sign. Ordering scores needs no arithmetic on them:
//! apart from the not-a-number patterns, their order is that of sign and
//! magnitude, and both zeros are equal.

use vstd::prelude::*;

verus! {

/// The bits above this magnitude are not numbers.
pub const INFINITY_BITS: u32 = 0x7f80_0000;

/// The sign bit.
pub const SIGN_BIT: u32 = 0x8000_0000;

/// The bits without the sign.
pub open spec fn magnitude_of(bits: u32) -> int {
    if bits >= SIGN_BIT {
        bits - SIGN_BIT
    } else {
        bits as int
    }
}

/// The bits are a not-a-number pattern.
pub open spec fn is_nan(bits: u32) -> bool {
    magnitude_of(bits) > INFINITY_BITS
}

/// An integer that orders as the score does: for scores that are numbers,
/// one is less than another exactly when its key is.
pub open spec fn score_key(bits: u32) -> int {
    if bits >= SIGN_BIT {
        -magnitude_of(bits)
    } else {
        magnitude_of(bits)
    }
}

/// The keys of a list of scores, in order.
pub open spec fn score_keys(scores: Seq<u32>) -> Seq<int> {
    Seq::new(scores.len(), |i: int| score_key(scores[i]))
}

/// No score of the list is a not-a-number pattern.
pub open spec fn all_numbers(scores: Seq<u32>) -> bool {
    forall|i: int| 0 <= i < scores.len() ==> !is_nan(#[trigger] scores[i])
}

/// Scores can be put in order: with two or more of them, every one is a
/// number.
pub open spec fn comparable(scores: Seq<u32>) -> bool {
    scores.len() >= 2 ==> all_numbers(scores)
}

/// Item `a` is listed before item `b`: its key is the greater, or the keys
/// are equal and it is the later of the two.
pub open spec fn precedes(keys: Seq<int>, a: int, b: int) -> bool {
    keys[a] > keys[b] || (keys[a] == keys[b] && a > b)
}

/// `order` lists the positions of `keys` by descending key: every position
/// once, each before all that it precedes.
pub open spec fn is_descending_order(keys: Seq<int>, order: Seq<int>) -> bool {
    &&& order.len() == keys.len()
    &&& forall|k: int| 0 <= k < order.len() ==> 0 <= #[trigger] order[k] < keys.len()
    &&& forall|i: int| 0 <= i < keys.len() ==> #[trigger] order.contains(i)
    &&& forall|j: int, k: int|
        0 <= j < k < order.len() ==> precedes(keys, #[trigger] order[j], #[trigger] order[k])
}

/// The descending order of a list of keys.
pub open spec fn descending_order_of(keys: Seq<int>) -> Seq<int> {
    choose|order: Seq<int>| is_descending_order(keys, order)
}

/// The positions of a list of indices, as integers.
pub open spec fn positions(order: Seq<usize>) -> Seq<int> {
    Seq::new(order.len(), |k: int| order[k] as int)
}

/// A descending order never runs upwards: each key is at least the next.
pub proof fn lemma_descending_keys(keys: Seq<int>, order: Seq<int>)
    requires
        is_descending_order(keys, order),
    ensures
        forall|j: int, k: int|
            0 <= j <= k < order.len() ==> keys[#[trigger] order[j]] >= keys[#[trigger] order[k]],
        forall|j: int, k: int|
            0 <= j < k < order.len() ==> #[trigger] order[j] != #[trigger] order[k],
{
    assert forall|j: int, k: int| 0 <= j <= k < order.len() implies keys[#[trigger] order[j]]
        >= keys[#[trigger] order[k]] by {
        if j < k {
            assert(precedes(keys, order[j], order[k]));
        }
    }
    assert forall|j: int, k: int| 0 <= j < k < order.len() implies #[trigger] order[j]
        != #[trigger] order[k] by {
        assert(precedes(keys, order[j], order[k]));
    }
}

/// There is one descending order of a list of keys and no other.
pub proof fn lemma_descending_order_unique(keys: Seq<int>, first: Seq<int>, second: Seq<int>)
    requires
        is_descending_order(keys, first),
        is_descending_order(keys, second),
    ensures
        first == second,
{
    lemma_orders_agree(keys, first, second, keys.len() as int);
    assert(first =~= second);
}

/// A descending order of a list of keys is the descending order of it.
pub proof fn lemma_descending_order_of(keys: Seq<int>, order: Seq<int>)
    requires
        is_descending_order(keys, order),
    ensures
        descending_order_of(keys) == order,
{
    lemma_descending_order_unique(keys, descending_order_of(keys), order);
}

/// Two descending orders of the same keys agree on their first `count`
/// places.
proof fn lemma_orders_agree(keys: Seq<int>, first: Seq<int>, second: Seq<int>, count: int)
    requires
        is_descending_order(keys, first),
        is_descending_order(keys, second),
        0 <= count <= keys.len(),
    ensures
        forall|k: int| 0 <= k < count ==> first[k] == second[k],
    decreases count,
{
    if count > 0 {
        lemma_orders_agree(keys, first, second, count - 1);
        let at = count - 1;
        let a = first[at];
        let b = second[at];
        if a != b {
            // `b` stands somewhere in `first`, and not before `at`, where
            // `first` agrees with `second`, in which `b` stands at `at` only.
            assert(first.contains(second[at]));
            let p = choose|p: int| 0 <= p < first.len() && first[p] == b;
            if p < at {
                assert(second[p] == b);
                assert(precedes(keys, second[p], second[at]));
            }
            assert(precedes(keys, first[at], first[p]));
            assert(second.contains(first[at]));
            let q = choose|q: int| 0 <= q < second.len() && second[q] == a;
            if q < at {
                assert(first[q] == a);
                assert(precedes(keys, first[q], first[at]));
            }
            assert(precedes(keys, second[at], second[q]));
        }
    }
}

/// The integer keys of a list, as mathematical integers.
pub open spec fn int_keys(keys: Seq<i64>) -> Seq<int> {
    Seq::new(keys.len(), |i: int| keys[i] as int)
}

/// The key of a score.
pub fn key_of(bits: u32) -> (key: i64)
    ensures
        key == score_key(bits),
{
    if bits >= SIGN_BIT {
        let magnitude: u32 = bits - SIGN_BIT;
        let key: i64 = 0 - (magnitude as i64);
        key
    } else {
        bits as i64
    }
}

/// Whether a score is a not-a-number pattern.
pub fn is_not_a_number(bits: u32) -> (nan: bool)
    ensures
        nan == is_nan(bits),
{
    let magnitude: u32 = if bits >= SIGN_BIT {
        bits - SIGN_BIT
    } else {
        bits
    };
    magnitude > INFINITY_BITS
}

/// Whether a list of scores can be put in order.
pub fn can_compare(scores: &Vec<u32>) -> (ok: bool)
    ensures
        ok == comparable(scores@),
{
    if scores.len() < 2 {
        return true;
    }
    let mut i: usize = 0;
    while i < scores.len()
        invariant
            0 <= i <= scores@.len(),
            scores@.len() >= 2,
            forall|j: int| 0 <= j < i ==> !is_nan(#[trigger] scores@[j]),
        decreases scores@.len() - i,
    {
        if is_not_a_number(scores[i]) {
            return false;
        }
        i += 1;
    }
    true
}

/// The keys of a list of scores.
pub fn keys_of(scores: &Vec<u32>) -> (keys: Vec<i64>)
    ensures
        int_keys(keys@) == score_keys(scores@),
{
    let mut keys: Vec<i64> = Vec::new();
    let mut i: usize = 0;
    while i < scores.len()
        invariant
            0 <= i <= scores@.len(),
            keys@.len() == i,
            forall|j: int| 0 <= j < i ==> #[trigger] keys@[j] == score_key(scores@[j]),
        decreases scores@.len() - i,
    {
        keys.push(key_of(scores[i]));
        i += 1;
    }
    assert(int_keys(keys@) =~= score_keys(scores@));
    keys
}

/// Lists the positions of `scores` from the highest score to the lowest. Of
/// two positions with equal scores the later comes first.
pub fn rank_scores(scores: &Vec<u32>) -> (order: Vec<usize>)
    requires
        comparable(scores@),
    ensures
        positions(order@) == descending_order_of(score_keys(scores@)),
        is_descending_order(score_keys(scores@), positions(order@)),
        order@.len() == scores@.len(),
        forall|k: int| 0 <= k < order@.len() ==> #[trigger] order@[k] < scores@.len(),
{
    let keys = keys_of(scores);
    let order = rank_descending(&keys);
    assert forall|k: int| 0 <= k < order@.len() implies #[trigger] order@[k] < scores@.len() by {
        assert(0 <= positions(order@)[k] < score_keys(scores@).len());
    }
    order
}

/// Lists the positions of `keys` by descending key. Of two positions with
/// equal keys the later comes first.
pub fn rank_descending(keys: &Vec<i64>) -> (order: Vec<usize>)
    ensures
        is_descending_order(int_keys(keys@), positions(order@)),
        positions(order@) == descending_order_of(int_keys(keys@)),
{
    let ghost wanted = int_keys(keys@);
    let mut order: Vec<usize> = Vec::new();
    let mut i: usize = 0;
    while i < keys.len()
        invariant
            0 <= i <= keys@.len(),
            wanted == int_keys(keys@),
            order@.len() == i,
            forall|k: int| 0 <= k < order@.len() ==> 0 <= #[trigger] order@[k] < i,
            forall|x: int| 0 <= x < i ==> #[trigger] positions(order@).contains(x),
            forall|j: int, k: int|
                0 <= j < k < order@.len() ==> precedes(
                    wanted,
                    #[trigger] order@[j] as int,
                    #[trigger] order@[k] as int,
                ),
        decreases keys@.len() - i,
    {
        let mut place: usize = 0;
        while place < order.len() && keys[order[place]] > keys[i]
            invariant
                0 <= place <= order@.len(),
                i < keys@.len(),
                wanted == int_keys(keys@),
                forall|k: int| 0 <= k < order@.len() ==> 0 <= #[trigger] order@[k] < i,
                forall|k: int| 0 <= k < place ==> wanted[#[trigger] order@[k] as int] > wanted[i as int],
            decreases order@.len() - place,
        {
            place += 1;
        }
        let ghost before = order@;
        order.insert(place, i);
        proof {
            let after = order@;
            assert(after.len() == before.len() + 1);
            assert forall|k: int| 0 <= k < after.len() implies 0 <= #[trigger] after[k] < i + 1 by {
                if k < place {
                    assert(after[k] == before[k]);
                } else if k > place {
                    assert(after[k] == before[k - 1]);
                }
            }
            assert forall|x: int| 0 <= x < i + 1 implies #[trigger] positions(after).contains(
                x,
            ) by {
                if x == i {
                    assert(positions(after)[place as int] == x);
                } else {
                    assert(positions(before).contains(x));
                    let k = choose|k: int|
                        0 <= k < positions(before).len() && positions(before)[k] == x;
                    if k < place {
                        assert(after[k] == before[k]);
                        assert(positions(after)[k] == x);
                    } else {
                        assert(after[k + 1] == before[k]);
                        assert(positions(after)[k + 1] == x);
                    }
                }
            }
            assert forall|j: int, k: int| 0 <= j < k < after.len() implies precedes(
                wanted,
                #[trigger] after[j] as int,
                #[trigger] after[k] as int,
            ) by {
                if k < place {
                    assert(after[j] == before[j] && after[k] == before[k]);
                } else if k == place {
                    assert(after[j] == before[j]);
                    assert(wanted[before[j] as int] > wanted[i as int]);
                } else if j < place {
                    assert(after[j] == before[j] && after[k] == before[k - 1]);
                } else if j == place {
                    // Every position from `place` on has a key no greater
                    // than the new one, and is an earlier position.
                    assert(after[k] == before[k - 1]);
                    if k - 1 > place {
                        assert(precedes(wanted, before[place as int] as int, before[k - 1] as int));
                    }
                    assert(wanted[before[place as int] as int] <= wanted[i as int]);
                } else {
                    assert(after[j] == before[j - 1] && after[k] == before[k - 1]);
                }
            }
        }
        i += 1;
    }
    proof {
        let listed = positions(order@);
        assert forall|j: int, k: int| 0 <= j < k < listed.len() implies precedes(
            wanted,
            #[trigger] listed[j],
            #[trigger] listed[k],
        ) by {
            assert(precedes(wanted, order@[j] as int, order@[k] as int));
        }
        assert forall|k: int| 0 <= k < listed.len() implies 0 <= #[trigger] listed[k]
            < wanted.len() by {
            assert(0 <= order@[k] < i);
        }
        lemma_descending_order_of(wanted, listed);
    }
    order
}

} // verus!
