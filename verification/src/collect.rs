//! Collecting a list of results into one: every value in order, or the
//! first error.

use vstd::prelude::*;

verus! {

/// The values of a list of results, in order, or the error of the first
/// result that is one.
pub open spec fn collect_results<T, E>(results: Seq<Result<T, E>>) -> Result<Seq<T>, E>
    decreases results.len(),
{
    if results.len() == 0 {
        Ok(Seq::empty())
    } else {
        match collect_results(results.drop_last()) {
            Err(error) => Err(error),
            Ok(values) => match results.last() {
                Err(error) => Err(error),
                Ok(value) => Ok(values.push(value)),
            },
        }
    }
}

/// Collecting one more result: the list before it decides first.
pub proof fn lemma_collect_push<T, E>(results: Seq<Result<T, E>>, result: Result<T, E>)
    ensures
        collect_results(results.push(result)) == match collect_results(results) {
            Err(error) => Err::<Seq<T>, E>(error),
            Ok(values) => match result {
                Err(error) => Err(error),
                Ok(value) => Ok(values.push(value)),
            },
        },
{
    assert(results.push(result).drop_last() =~= results);
}

/// Once a prefix of a list collects to an error, so does the list, and to
/// the same error.
pub proof fn lemma_collect_prefix_error<T, E>(results: Seq<Result<T, E>>, count: int)
    requires
        0 <= count <= results.len(),
        collect_results(results.take(count)) is Err,
    ensures
        collect_results(results) == collect_results(results.take(count)),
    decreases results.len() - count,
{
    if count == results.len() {
        assert(results.take(count) =~= results);
    } else {
        assert(results.take(count + 1) =~= results.take(count).push(results[count]));
        lemma_collect_push(results.take(count), results[count]);
        lemma_collect_prefix_error(results, count + 1);
    }
}

/// Collecting is all or nothing. A list collects to values exactly when
/// every result is a value, and then to those values, each at its own
/// position. Otherwise it collects to the error at the lowest position that
/// holds one.
pub proof fn lemma_collect_all_or_nothing<T, E>(results: Seq<Result<T, E>>)
    ensures
        collect_results(results) matches Ok(values) ==> values.len() == results.len()
            && forall|i: int|
            0 <= i < results.len() ==> #[trigger] results[i] == Ok::<T, E>(values[i]),
        collect_results(results) matches Err(error) ==> exists|k: int|
            0 <= k < results.len() && #[trigger] results[k] == Err::<T, E>(error) && forall|j: int|
                0 <= j < k ==> (#[trigger] results[j]) is Ok,
        collect_results(results) is Ok <==> forall|i: int|
            0 <= i < results.len() ==> (#[trigger] results[i]) is Ok,
    decreases results.len(),
{
    if results.len() > 0 {
        let head = results.drop_last();
        lemma_collect_all_or_nothing(head);
        match collect_results(head) {
            Err(error) => {
                let k = choose|k: int|
                    0 <= k < head.len() && #[trigger] head[k] == Err::<T, E>(error) && forall|
                        j: int,
                    |
                        0 <= j < k ==> (#[trigger] head[j]) is Ok;
                assert(results[k] == head[k]);
                assert forall|j: int| 0 <= j < k implies (#[trigger] results[j]) is Ok by {
                    assert(results[j] == head[j]);
                }
            },
            Ok(values) => {
                assert forall|j: int| 0 <= j < head.len() implies (#[trigger] results[j]) is Ok by {
                    assert(results[j] == head[j]);
                }
                match results.last() {
                    Err(error) => {
                        let k = results.len() - 1;
                        assert(results[k] == results.last());
                    },
                    Ok(value) => {
                        assert forall|i: int| 0 <= i < results.len() implies #[trigger] results[i]
                            == Ok::<T, E>(values.push(value)[i]) by {
                            if i < head.len() {
                                assert(results[i] == head[i]);
                            }
                        }
                    },
                }
            },
        }
    }
}

/// The items of a list from the last to the first.
pub fn reversed<T>(items: Vec<T>) -> (turned: Vec<T>)
    ensures
        turned@.len() == items@.len(),
        forall|i: int|
            0 <= i < turned@.len() ==> #[trigger] turned@[i] == items@[items@.len() - 1 - i],
{
    let mut rest = items;
    let mut turned: Vec<T> = Vec::new();
    while rest.len() > 0
        invariant
            rest@.len() + turned@.len() == items@.len(),
            forall|j: int| 0 <= j < rest@.len() ==> rest@[j] == items@[j],
            forall|j: int|
                0 <= j < turned@.len() ==> #[trigger] turned@[j] == items@[items@.len() - 1 - j],
        decreases rest@.len(),
    {
        let item = rest.pop().unwrap();
        turned.push(item);
    }
    turned
}

} // verus!
