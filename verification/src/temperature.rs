use vstd::prelude::*;

use crate::modbus::ExceptionCode;
use std::ops::Range;

verus! {

/// An error of the temperature reader.
#[derive(Debug)]
pub enum Error {
    /// The requested sensor indices reach past the sensors found.
    InvalidIndex { received: Range<usize>, expected: Range<usize> },
    /// The sensor bus failed; the text describes the failure.
    Internal(String),
}

impl From<Error> for ExceptionCode {
    fn from(value: Error) -> (code: ExceptionCode) {
        match value {
            Error::InvalidIndex { .. } => ExceptionCode::IllegalDataAddress,
            Error::Internal(_) => ExceptionCode::ServerDeviceFailure,
        }
    }
}

impl vstd::std_specs::convert::FromSpecImpl<Error> for ExceptionCode {
    open spec fn obeys_from_spec() -> bool {
        true
    }

    /// A bad index is the client's fault, a bus failure the device's.
    open spec fn from_spec(value: Error) -> ExceptionCode {
        match value {
            Error::InvalidIndex { .. } => ExceptionCode::IllegalDataAddress,
            Error::Internal(_) => ExceptionCode::ServerDeviceFailure,
        }
    }
}

/// The keys taken in the order `order`.
pub open spec fn keys_in_order(keys: Seq<u64>, order: Seq<usize>) -> Seq<u64> {
    Seq::new(order.len(), |i: int| keys[order[i] as int])
}

/// `order` lists the positions of `keys`, each once, so that the keys come in
/// ascending order and equal keys keep the order that they had: the order of
/// a stable sort by key.  Taken in that order the keys are the same keys,
/// each as often as before.
pub open spec fn is_stable_sort_order(keys: Seq<u64>, order: Seq<usize>) -> bool {
    &&& order.len() == keys.len()
    &&& keys_in_order(keys, order).to_multiset() == keys.to_multiset()
    &&& forall|i: int| 0 <= i < order.len() ==> #[trigger] order[i] < keys.len()
    &&& forall|i: int, j: int| 0 <= i < j < order.len() ==> order[i] != order[j]
    &&& forall|i: int, j: int|
        0 <= i < j < order.len() ==> keys[order[i] as int] <= keys[order[j] as int]
    &&& forall|i: int, j: int|
        0 <= i < j < order.len() && keys[order[i] as int] == keys[order[j] as int] ==> order[i]
            < order[j]
}

/// The order in which the sensors are addressed: their positions sorted by
/// bus address, stably.
pub fn sort_order(keys: &Vec<u64>) -> (order: Vec<usize>)
    ensures
        is_stable_sort_order(keys@, order@),
{
    let n: usize = keys.len();
    let mut order: Vec<usize> = Vec::new();
    let mut i: usize = 0;
    proof {
        assert(keys_in_order(keys@.subrange(0, 0), order@) =~= keys@.subrange(0, 0));
    }
    while i < n
        invariant
            n == keys.len(),
            i <= n,
            is_stable_sort_order(keys@.subrange(0, i as int), order@),
        decreases n - i,
    {
        let key: u64 = keys[i];
        let ghost prefix = keys@.subrange(0, i as int);
        let mut p: usize = order.len();
        while p > 0 && keys[order[p - 1]] > key
            invariant
                n == keys.len(),
                i < n,
                key == keys@[i as int],
                prefix == keys@.subrange(0, i as int),
                p <= order.len(),
                is_stable_sort_order(prefix, order@),
                forall|k: int| p <= k < order.len() ==> keys@[#[trigger] order@[k] as int] > key,
            decreases p,
        {
            p = p - 1;
        }
        proof {
            assert forall|k: int| 0 <= k < p implies keys@[#[trigger] order@[k] as int] <= key by {
                if k < p - 1 {
                    assert(prefix[order@[k] as int] <= prefix[order@[p - 1] as int]);
                }
            }
        }
        let ghost old_order = order@;
        order.insert(p, i);
        proof {
            old_order.insert_ensures(p as int, i);
            let next = keys@.subrange(0, i + 1);
            assert(next =~= prefix.push(key));
            assert(keys_in_order(next, order@) =~= keys_in_order(prefix, old_order).insert(
                p as int,
                key,
            )) by {
                assert forall|k: int| 0 <= k < order@.len() implies #[trigger] keys_in_order(
                    next,
                    order@,
                )[k] == keys_in_order(prefix, old_order).insert(p as int, key)[k] by {
                    keys_in_order(prefix, old_order).insert_ensures(p as int, key);
                    if k < p {
                    } else if k > p {
                        assert(order@[k] == old_order[k - 1]);
                    }
                }
            }
            vstd::seq_lib::to_multiset_insert(keys_in_order(prefix, old_order), p as int, key);
            vstd::seq_lib::to_multiset_build(prefix, key);
            assert forall|k: int| 0 <= k < order@.len() implies #[trigger] order@[k] < i + 1 by {
                if k < p {
                } else if k > p {
                    assert(order@[k] == old_order[k - 1]);
                }
            }
            assert forall|a: int, b: int|
                0 <= a < b < order@.len() implies next[order@[a] as int] <= next[order@[b] as int]
                && (next[order@[a] as int] == next[order@[b] as int] ==> order@[a] < order@[b])
                && order@[a] != order@[b] by {
                if b < p {
                    assert(order@[a] == old_order[a] && order@[b] == old_order[b]);
                } else if b == p {
                    assert(order@[a] == old_order[a]);
                } else if a < p {
                    assert(order@[a] == old_order[a] && order@[b] == old_order[b - 1]);
                } else if a == p {
                    assert(order@[b] == old_order[b - 1]);
                } else {
                    assert(order@[a] == old_order[a - 1] && order@[b] == old_order[b - 1]);
                }
            }
        }
        i = i + 1;
    }
    proof {
        assert(keys@.subrange(0, n as int) =~= keys@);
    }
    order
}

/// The sensors come in the same order whatever order the bus search finds
/// them in: for two searches that find the same addresses, each as often,
/// the sensor at each position of the sorted order has the same address.
pub proof fn lemma_order_ignores_search_order(
    found: Seq<u64>,
    order: Seq<usize>,
    found_again: Seq<u64>,
    order_again: Seq<usize>,
)
    requires
        found.to_multiset() == found_again.to_multiset(),
        is_stable_sort_order(found, order),
        is_stable_sort_order(found_again, order_again),
    ensures
        order.len() == order_again.len(),
        forall|i: int|
            0 <= i < order.len() ==> found[#[trigger] order[i] as int] == found_again[order_again[i] as int],
{
    let leq = |a: u64, b: u64| a <= b;
    let sorted = keys_in_order(found, order);
    let sorted_again = keys_in_order(found_again, order_again);
    assert(vstd::relations::total_ordering(leq));
    assert(vstd::relations::sorted_by(sorted, leq));
    assert(vstd::relations::sorted_by(sorted_again, leq));
    vstd::seq_lib::lemma_sorted_unique(sorted, sorted_again, leq);
    vstd::seq_lib::to_multiset_len(found);
    vstd::seq_lib::to_multiset_len(found_again);
    assert forall|i: int| 0 <= i < order.len() implies found[#[trigger] order[i] as int]
        == found_again[order_again[i] as int] by {
        assert(sorted[i] == sorted_again[i]);
    }
}

/// The positions `indices.start .. indices.end`, in order; none where the
/// range is empty.
pub open spec fn range_positions(indices: Range<usize>) -> Seq<usize> {
    Seq::new(
        if indices.start < indices.end {
            (indices.end - indices.start) as nat
        } else {
            0
        },
        |k: int| (indices.start + k) as usize,
    )
}

/// The sensors to read for a request of the indices `indices` out of
/// `sensor_count` sensors: the indices in order, or `InvalidIndex` when the
/// range reaches past the sensors.
pub fn plan_reading(indices: Range<usize>, sensor_count: usize) -> (result: Result<
    Vec<usize>,
    Error,
>)
    ensures
        match result {
            Ok(positions) => indices.end <= sensor_count && positions@ == range_positions(indices),
            Err(Error::InvalidIndex { received, expected }) => {
                &&& indices.end > sensor_count
                &&& received == indices
                &&& expected.start == 0
                &&& expected.end == sensor_count
            },
            Err(Error::Internal(_)) => false,
        },
{
    if indices.end > sensor_count {
        return Err(Error::InvalidIndex { received: indices, expected: 0..sensor_count });
    }
    let mut positions: Vec<usize> = Vec::new();
    let mut index: usize = indices.start;
    while index < indices.end
        invariant
            indices.start <= index || indices.start >= indices.end,
            index == indices.start || indices.start < index <= indices.end,
            positions.len() == if index > indices.start { index - indices.start } else { 0 },
            forall|k: int| 0 <= k < positions.len() ==> #[trigger] positions@[k] == indices.start + k,
        decreases indices.end - index,
    {
        positions.push(index);
        index = index + 1;
    }
    proof {
        assert(positions@ =~= range_positions(indices));
    }
    Ok(positions)
}

/// The plan of a range names every index of the range once, in increasing
/// order: `end - start` positions `start, start + 1, ...` for a non-empty
/// range, none for an empty one.
pub proof fn lemma_range_positions(indices: Range<usize>)
    ensures
        indices.start < indices.end ==> range_positions(indices).len() == indices.end
            - indices.start,
        indices.start >= indices.end ==> range_positions(indices).len() == 0,
        forall|k: int|
            0 <= k < range_positions(indices).len() ==> #[trigger] range_positions(indices)[k]
                == indices.start + k,
        forall|i: usize|
            indices.start <= i < indices.end ==> #[trigger] range_positions(indices).contains(i),
{
    assert forall|i: usize| indices.start <= i < indices.end implies #[trigger] range_positions(
        indices,
    ).contains(i) by {
        assert(range_positions(indices)[i - indices.start] == i);
    }
}

/// A bad index is answered as an illegal data address, a failure of the
/// sensor bus as a failure of the device.
pub proof fn lemma_error_exceptions(error: Error)
    ensures
        error is InvalidIndex ==> <ExceptionCode as vstd::std_specs::convert::FromSpec<
            Error,
        >>::from_spec(error) == ExceptionCode::IllegalDataAddress,
        error is Internal ==> <ExceptionCode as vstd::std_specs::convert::FromSpec<
            Error,
        >>::from_spec(error) == ExceptionCode::ServerDeviceFailure,
{
}

/// In the sorted order the first sensor has the smallest address and the
/// last one the largest: no sensor found has an address outside them.
pub proof fn lemma_order_ends(keys: Seq<u64>, order: Seq<usize>)
    requires
        is_stable_sort_order(keys, order),
        keys.len() > 0,
    ensures
        forall|j: int|
            0 <= j < keys.len() ==> keys[order[0] as int] <= #[trigger] keys[j] && keys[j]
                <= keys[order[order.len() - 1] as int],
{
    let sorted = keys_in_order(keys, order);
    assert forall|j: int| 0 <= j < keys.len() implies keys[order[0] as int] <= #[trigger] keys[j]
        && keys[j] <= keys[order[order.len() - 1] as int] by {
        vstd::seq_lib::to_multiset_contains(keys, keys[j]);
        assert(keys.contains(keys[j]));
        vstd::seq_lib::to_multiset_contains(sorted, keys[j]);
        let i = choose|i: int| 0 <= i < sorted.len() && sorted[i] == keys[j];
        assert(sorted[i] == keys[order[i] as int]);
        if i > 0 {
            assert(keys[order[0] as int] <= keys[order[i] as int]);
        }
        if i < order.len() - 1 {
            assert(keys[order[i] as int] <= keys[order[order.len() - 1] as int]);
        }
    }
}

} // verus!
