//! Admission and gathering: which requests may start, how their items wait
//! for a slot, and how the results of a batch come back together.
//!
//! The inference engine and the admission gate work outside this library.
//! What is decided here is handed to the caller as values: whether to
//! reject, how to ask for a permit, which counters to increment,
//! and, once every item has reported, the batch in input order or the error
//! that fails it.

use crate::collect::{collect_results, lemma_collect_all_or_nothing, reversed};
use crate::error::{ErrorResponse, ErrorType};
use crate::metadata::CallOutcome;
use crate::text::{decimal_of, decimal_string};
use vstd::prelude::*;
use vstd::string::StringExecFns;

verus! {

/// Whether a request carries one item or a batch.
#[derive(Clone, Copy, Debug, PartialEq, Eq, Structural)]
pub enum Method {
    Single,
    Batch,
}

/// Why a request was rejected before any work was dispatched.
#[derive(Clone, Copy, Debug, PartialEq, Eq, Structural)]
pub enum ValidationReason {
    /// The batch is larger than the configured maximum.
    BatchSize,
    /// The model lacks the capability that the endpoint needs.
    ModelType,
}

/// The label of a failure counter.
#[derive(Clone, Copy, Debug, PartialEq, Eq, Structural)]
pub enum FailureLabel {
    /// A dispatched request failed.
    Method(Method),
    /// A request was rejected before dispatch.
    Reason(ValidationReason),
}

/// One increment of a labelled counter.
#[derive(Clone, Copy, Debug, PartialEq, Eq, Structural)]
pub enum Counter {
    Request(Method),
    Success(Method),
    Failure(FailureLabel),
}

/// How a call asks the admission gate for its permit.
#[derive(Clone, Copy, Debug, PartialEq, Eq, Structural)]
pub enum Acquire {
    /// Without waiting: fail as overloaded where no slot is free.
    Try,
    /// Waiting until a slot is free.
    Wait,
}

/// A lone request fails fast; the items of an accepted batch wait.
pub open spec fn acquire_for(method: Method) -> Acquire {
    match method {
        Method::Single => Acquire::Try,
        Method::Batch => Acquire::Wait,
    }
}

/// The label of a method.
pub open spec fn method_label_of(method: Method) -> Seq<char> {
    match method {
        Method::Single => "single"@,
        Method::Batch => "batch"@,
    }
}

/// The label of a validation reason.
pub open spec fn reason_label_of(reason: ValidationReason) -> Seq<char> {
    match reason {
        ValidationReason::BatchSize => "batch_size"@,
        ValidationReason::ModelType => "model_type"@,
    }
}

/// No counter of the list counts a success.
pub open spec fn no_success(counters: Seq<Counter>) -> bool {
    forall|i: int| 0 <= i < counters.len() ==> !((#[trigger] counters[i]) is Success)
}

/// The message that rejects a batch as too large.
pub open spec fn batch_size_message(batch_size: nat, max_batch_size: nat) -> Seq<char> {
    "batch size "@ + decimal_of(batch_size) + " > maximum allowed batch size "@ + decimal_of(
        max_batch_size,
    )
}

/// The message for a request that found no free slot.
pub open spec fn overloaded_message() -> Seq<char> {
    "Model is overloaded"@
}

impl Method {
    /// How a request of this method asks the admission gate for a permit.
    pub fn acquire(&self) -> (how: Acquire)
        ensures
            how == acquire_for(*self),
    {
        match self {
            Method::Single => Acquire::Try,
            Method::Batch => Acquire::Wait,
        }
    }

    /// The label of this method on the request counters.
    pub fn label(&self) -> (label: &'static str)
        ensures
            label@ == method_label_of(*self),
    {
        match self {
            Method::Single => "single",
            Method::Batch => "batch",
        }
    }
}

impl ValidationReason {
    /// The label of this reason on the failure counter.
    pub fn label(&self) -> (label: &'static str)
        ensures
            label@ == reason_label_of(*self),
    {
        match self {
            ValidationReason::BatchSize => "batch_size",
            ValidationReason::ModelType => "model_type",
        }
    }
}

/// Starts a lone request with what the admission gate answered to a try.
/// A permit lets the call go on with it. Without one the request fails at
/// once as overloaded.
pub fn admit_single<T>(permit: Option<T>, counters: &mut Vec<Counter>) -> (r: Result<
    T,
    ErrorResponse,
>)
    ensures
        permit matches Some(granted) ==> r == Ok::<T, ErrorResponse>(granted) && final(counters)@
            == old(counters)@.push(Counter::Request(Method::Single)),
        permit is None ==> r is Err && r->Err_0.error_type == ErrorType::Overloaded
            && r->Err_0.error@ == overloaded_message() && final(counters)@ == old(counters)@.push(Counter::Request(Method::Single)).push(
            Counter::Failure(FailureLabel::Method(Method::Single)),
        ),
        no_success(final(counters)@.skip(old(counters)@.len() as int)),
{
    counters.push(Counter::Request(Method::Single));
    match permit {
        Some(granted) => Ok(granted),
        None => {
            counters.push(Counter::Failure(FailureLabel::Method(Method::Single)));
            Err(ErrorResponse::new("Model is overloaded", ErrorType::Overloaded))
        },
    }
}

/// Ends a lone request with what its call returned: the outcome and a
/// success counted, or the error and a failure counted.
pub fn conclude_single<P>(
    result: Result<CallOutcome<P>, ErrorResponse>,
    counters: &mut Vec<Counter>,
) -> (r: Result<CallOutcome<P>, ErrorResponse>)
    ensures
        r == result,
        result is Ok ==> final(counters)@ == old(counters)@.push(Counter::Success(Method::Single)),
        result is Err ==> final(counters)@ == old(counters)@.push(
            Counter::Failure(FailureLabel::Method(Method::Single)),
        ),
{
    match result {
        Ok(outcome) => {
            counters.push(Counter::Success(Method::Single));
            Ok(outcome)
        },
        Err(error) => {
            counters.push(Counter::Failure(FailureLabel::Method(Method::Single)));
            Err(error)
        },
    }
}

/// The error that rejects a batch of `batch_size` items where at most
/// `max_batch_size` are accepted.
pub fn batch_size_error(batch_size: usize, max_batch_size: usize) -> (error: ErrorResponse)
    ensures
        error.error_type == ErrorType::Validation,
        error.error@ == batch_size_message(batch_size as nat, max_batch_size as nat),
{
    let mut message = String::from_str("batch size ");
    let size = decimal_string(batch_size);
    message.append(size.as_str());
    message.append(" > maximum allowed batch size ");
    let max = decimal_string(max_batch_size);
    message.append(max.as_str());
    ErrorResponse { error: message, error_type: ErrorType::Validation }
}

/// What one slot of a gather holds: nothing yet, or what the item's call
/// returned.
pub type Slot<P> = Option<Result<CallOutcome<P>, ErrorResponse>>;

/// `count` slots, all empty.
pub open spec fn empty_slots<P>(count: nat) -> Seq<Slot<P>> {
    Seq::new(count, |i: int| None::<Result<CallOutcome<P>, ErrorResponse>>)
}

/// The slots after the item at `index` has reported `result`. A report for
/// an index outside the batch, or for a slot already written, changes
/// nothing.
pub open spec fn record_at<P>(
    slots: Seq<Slot<P>>,
    index: int,
    result: Result<CallOutcome<P>, ErrorResponse>,
) -> Seq<Slot<P>> {
    if 0 <= index < slots.len() && slots[index] is None {
        slots.update(index, Some(result))
    } else {
        slots
    }
}

/// Every slot is written.
pub open spec fn all_reported<P>(slots: Seq<Slot<P>>) -> bool {
    forall|i: int| 0 <= i < slots.len() ==> (#[trigger] slots[i]) is Some
}

/// What the slots hold, in order.
pub open spec fn reported<P>(slots: Seq<Slot<P>>) -> Seq<Result<CallOutcome<P>, ErrorResponse>>
    recommends
        all_reported(slots),
{
    Seq::new(slots.len(), |i: int| slots[i]->Some_0)
}

/// The result slots of one batch, one per item, allocated before any item
/// is dispatched. Each item's call writes its own slot when it completes, so
/// the batch comes out in input order whatever the order of completion.
pub struct BatchGather<P> {
    slots: Vec<Slot<P>>,
}

impl<P> View for BatchGather<P> {
    type V = Seq<Slot<P>>;

    closed spec fn view(&self) -> Seq<Slot<P>> {
        self.slots@
    }
}

impl<P> BatchGather<P> {
    /// Starts a batch of `batch_size` items.
    ///
    /// A batch larger than `max_batch_size` is rejected before anything is
    /// dispatched: the request is counted, then the failure by its reason.
    /// Otherwise every item gets an empty slot.
    pub fn begin(batch_size: usize, max_batch_size: usize, counters: &mut Vec<Counter>) -> (r:
        Result<Self, ErrorResponse>)
        ensures
            r is Err <==> batch_size > max_batch_size,
            r matches Err(error) ==> error.error_type == ErrorType::Validation && error.error@
                == batch_size_message(batch_size as nat, max_batch_size as nat) && final(counters)@ == old(counters)@.push(Counter::Request(Method::Batch)).push(
                Counter::Failure(FailureLabel::Reason(ValidationReason::BatchSize)),
            ),
            r matches Ok(gather) ==> gather@ == empty_slots::<P>(batch_size as nat) && final(counters)@ == old(counters)@.push(Counter::Request(Method::Batch)),
            no_success(final(counters)@.skip(old(counters)@.len() as int)),
    {
        counters.push(Counter::Request(Method::Batch));
        if batch_size > max_batch_size {
            counters.push(Counter::Failure(FailureLabel::Reason(ValidationReason::BatchSize)));
            return Err(batch_size_error(batch_size, max_batch_size));
        }
        let mut slots: Vec<Slot<P>> = Vec::new();
        let mut i: usize = 0;
        while i < batch_size
            invariant
                0 <= i <= batch_size,
                slots@ == empty_slots::<P>(i as nat),
            decreases batch_size - i,
        {
            slots.push(None);
            i += 1;
            assert(slots@ =~= empty_slots::<P>(i as nat));
        }
        Ok(BatchGather { slots })
    }

    /// The number of items in the batch.
    pub fn len(&self) -> (count: usize)
        ensures
            count == self@.len(),
    {
        self.slots.len()
    }

    /// Records what the call of the item at `index` returned. Returns
    /// whether the slot was written: a report for an index outside the
    /// batch, or a second report for one item, is dropped.
    pub fn record(&mut self, index: usize, result: Result<CallOutcome<P>, ErrorResponse>) -> (written:
        bool)
        ensures
            final(self)@ == record_at(old(self)@, index as int, result),
            written <==> index < old(self)@.len() && old(self)@[index as int] is None,
    {
        if index < self.slots.len() {
            if self.slots[index].is_none() {
                self.slots.set(index, Some(result));
                return true;
            }
        }
        false
    }

    /// Whether every item has reported.
    pub fn is_complete(&self) -> (complete: bool)
        ensures
            complete == all_reported(self@),
    {
        let mut i: usize = 0;
        while i < self.slots.len()
            invariant
                0 <= i <= self.slots@.len(),
                forall|j: int| 0 <= j < i ==> (#[trigger] self.slots@[j]) is Some,
            decreases self.slots@.len() - i,
        {
            if self.slots[i].is_none() {
                return false;
            }
            i += 1;
        }
        true
    }

    /// Ends the batch once every item has reported.
    ///
    /// Where every call succeeded, the outcomes come back in input order
    /// and a success is counted. Where any call failed, the batch fails with
    /// the error of the first such item in input order, a failure is
    /// counted, and the outcomes of the other items are dropped.
    pub fn finish(self, counters: &mut Vec<Counter>) -> (r: Result<
        Vec<CallOutcome<P>>,
        ErrorResponse,
    >)
        requires
            all_reported(self@),
        ensures
            r matches Ok(outcomes) ==> collect_results(reported(self@)) == Ok::<
                Seq<CallOutcome<P>>,
                ErrorResponse,
            >(outcomes@) && final(counters)@ == old(counters)@.push(
                Counter::Success(Method::Batch),
            ),
            r matches Err(error) ==> collect_results(reported(self@)) == Err::<
                Seq<CallOutcome<P>>,
                ErrorResponse,
            >(error) && final(counters)@ == old(counters)@.push(
                Counter::Failure(FailureLabel::Method(Method::Batch)),
            ) && no_success(final(counters)@.skip(old(counters)@.len() as int)),
            r matches Ok(outcomes) ==> outcomes@.len() == self@.len() && forall|i: int|
                0 <= i < self@.len() ==> #[trigger] self@[i] == Some(
                    Ok::<CallOutcome<P>, ErrorResponse>(outcomes@[i]),
                ),
            r matches Err(error) ==> exists|k: int|
                0 <= k < self@.len() && #[trigger] self@[k] == Some(
                    Err::<CallOutcome<P>, ErrorResponse>(error),
                ) && forall|j: int| 0 <= j < k ==> (#[trigger] self@[j]) matches Some(Ok(_)),
    {
        let ghost given = reported(self@);
        let ghost before = self@;
        let mut slots = self.slots;
        let mut backwards: Vec<CallOutcome<P>> = Vec::new();
        let mut failure: Option<ErrorResponse> = None;
        // Walk the slots from the last to the first, so that the error kept
        // is the one at the lowest index.
        while slots.len() > 0
            invariant
                slots@.len() <= given.len(),
                forall|j: int| 0 <= j < slots@.len() ==> slots@[j] == Some(#[trigger] given[j]),
                failure matches Some(error) ==> exists|k: int|
                    slots@.len() <= k < given.len() && #[trigger] given[k] == Err::<
                        CallOutcome<P>,
                        ErrorResponse,
                    >(error) && forall|j: int|
                        slots@.len() <= j < k ==> (#[trigger] given[j]) is Ok,
                failure is None ==> backwards@.len() == given.len() - slots@.len() && forall|j: int|
                    slots@.len() <= j < given.len() ==> #[trigger] given[j] == Ok::<
                        CallOutcome<P>,
                        ErrorResponse,
                    >(backwards@[given.len() - 1 - j]),
            decreases slots@.len(),
        {
            let ghost at = slots@.len() - 1;
            let slot = slots.pop().unwrap();
            assert(slot == Some(given[at]));
            match slot {
                Some(Ok(outcome)) => {
                    if failure.is_none() {
                        backwards.push(outcome);
                    }
                },
                Some(Err(error)) => {
                    failure = Some(error);
                },
                None => {},
            }
        }
        proof {
            lemma_collect_all_or_nothing(given);
            assert forall|i: int| 0 <= i < before.len() implies #[trigger] before[i] == Some(
                given[i],
            ) by {}
        }
        match failure {
            Some(error) => {
                proof {
                    let k = choose|k: int|
                        0 <= k < given.len() && #[trigger] given[k] == Err::<
                            CallOutcome<P>,
                            ErrorResponse,
                        >(error) && forall|j: int| 0 <= j < k ==> (#[trigger] given[j]) is Ok;
                    assert(before[k] == Some(given[k]));
                    assert forall|j: int| 0 <= j < k implies (#[trigger] before[j]) matches Some(
                        Ok(_),
                    ) by {
                        assert(given[j] is Ok);
                    }
                }
                counters.push(Counter::Failure(FailureLabel::Method(Method::Batch)));
                Err(error)
            },
            None => {
                let outcomes = reversed(backwards);
                assert(collect_results(given)->Ok_0 =~= outcomes@) by {
                    let values = collect_results(given)->Ok_0;
                    assert forall|i: int| 0 <= i < given.len() implies values[i] == outcomes@[i] by {
                        assert(given[i] == Ok::<CallOutcome<P>, ErrorResponse>(values[i]));
                    }
                }
                assert forall|i: int| 0 <= i < before.len() implies #[trigger] before[i] == Some(
                    Ok::<CallOutcome<P>, ErrorResponse>(outcomes@[i]),
                ) by {
                    assert(given[i] == Ok::<CallOutcome<P>, ErrorResponse>(outcomes@[i]));
                }
                counters.push(Counter::Success(Method::Batch));
                Ok(outcomes)
            },
        }
    }
}

/// The reports of a batch whose item `i` returned `results[i]`, in the
/// order `order` in which the items completed.
pub open spec fn reports_in_order<P>(
    results: Seq<Result<CallOutcome<P>, ErrorResponse>>,
    order: Seq<int>,
) -> Seq<(int, Result<CallOutcome<P>, ErrorResponse>)> {
    Seq::new(order.len(), |k: int| (order[k], results[order[k]]))
}

/// The slots after a list of reports, each recorded in turn.
pub open spec fn record_all<P>(
    slots: Seq<Slot<P>>,
    reports: Seq<(int, Result<CallOutcome<P>, ErrorResponse>)>,
) -> Seq<Slot<P>>
    decreases reports.len(),
{
    if reports.len() == 0 {
        slots
    } else {
        record_at(record_all(slots, reports.drop_last()), reports.last().0, reports.last().1)
    }
}

/// `order` names every item of a batch of `count` exactly once.
pub open spec fn is_completion_order(order: Seq<int>, count: nat) -> bool {
    &&& order.len() == count
    &&& forall|k: int| 0 <= k < order.len() ==> 0 <= #[trigger] order[k] < count
    &&& forall|j: int, k: int| 0 <= j < k < order.len() ==> order[j] != order[k]
    &&& forall|i: int| 0 <= i < count ==> #[trigger] order.contains(i)
}

/// After the first `done` reports of a completion order, the slots of the
/// items that reported hold their results and the others are empty.
proof fn lemma_record_prefix<P>(
    results: Seq<Result<CallOutcome<P>, ErrorResponse>>,
    order: Seq<int>,
    done: int,
)
    requires
        is_completion_order(order, results.len()),
        0 <= done <= order.len(),
    ensures
        record_all(
            empty_slots::<P>(results.len()),
            reports_in_order(results, order).take(done),
        ).len() == results.len(),
        forall|i: int|
            0 <= i < results.len() ==> #[trigger] record_all(
                empty_slots::<P>(results.len()),
                reports_in_order(results, order).take(done),
            )[i] == if order.take(done).contains(i) {
                Some(results[i])
            } else {
                None
            },
    decreases done,
{
    let reports = reports_in_order(results, order);
    if done > 0 {
        lemma_record_prefix(results, order, done - 1);
        assert(reports.take(done).drop_last() =~= reports.take(done - 1));
        let before = record_all(empty_slots::<P>(results.len()), reports.take(done - 1));
        let after = record_all(empty_slots::<P>(results.len()), reports.take(done));
        let index = order[done - 1];
        let earlier = order.take(done - 1);
        let now = order.take(done);
        assert(reports.take(done).last() == (index, results[index]));
        assert(!earlier.contains(index)) by {
            if earlier.contains(index) {
                let k = choose|k: int| 0 <= k < earlier.len() && earlier[k] == index;
                assert(order[k] == order[done - 1]);
            }
        }
        assert(before[index] is None);
        assert(after == before.update(index, Some(results[index])));
        assert forall|i: int| 0 <= i < results.len() implies #[trigger] after[i] == if now.contains(
            i,
        ) {
            Some(results[i])
        } else {
            None
        } by {
            if i == index {
                assert(now[done - 1] == i);
            } else {
                if earlier.contains(i) {
                    let k = choose|k: int| 0 <= k < earlier.len() && earlier[k] == i;
                    assert(now[k] == i);
                }
                if now.contains(i) {
                    let k = choose|k: int| 0 <= k < now.len() && now[k] == i;
                    assert(k != done - 1);
                    assert(earlier[k] == i);
                }
            }
        }
    } else {
        assert(reports.take(0) =~= Seq::empty());
    }
}

/// A gather keeps input order. Whatever the order in which the items of a
/// batch complete, once all have reported the slot of item `i` holds the
/// result of item `i`, and the batch collects to what its results collect to
/// in input order.
pub proof fn lemma_gather_keeps_input_order<P>(
    results: Seq<Result<CallOutcome<P>, ErrorResponse>>,
    order: Seq<int>,
)
    requires
        is_completion_order(order, results.len()),
    ensures
        all_reported(record_all(empty_slots::<P>(results.len()), reports_in_order(results, order))),
        reported(record_all(empty_slots::<P>(results.len()), reports_in_order(results, order)))
            == results,
        collect_results(
            reported(
                record_all(empty_slots::<P>(results.len()), reports_in_order(results, order)),
            ),
        ) == collect_results(results),
{
    let reports = reports_in_order(results, order);
    lemma_record_prefix(results, order, order.len() as int);
    assert(reports.take(order.len() as int) =~= reports);
    assert(order.take(order.len() as int) =~= order);
    let slots = record_all(empty_slots::<P>(results.len()), reports);
    assert forall|i: int| 0 <= i < slots.len() implies #[trigger] slots[i] == Some(results[i]) by {
        assert(order.contains(i));
    }
    assert(reported(slots) =~= results);
}

/// Two completion orders of one batch gather to the same slots: the order
/// in which the items complete does not show in what is returned.
pub proof fn lemma_gather_ignores_completion_order<P>(
    results: Seq<Result<CallOutcome<P>, ErrorResponse>>,
    first: Seq<int>,
    second: Seq<int>,
)
    requires
        is_completion_order(first, results.len()),
        is_completion_order(second, results.len()),
    ensures
        reported(record_all(empty_slots::<P>(results.len()), reports_in_order(results, first)))
            == reported(
            record_all(empty_slots::<P>(results.len()), reports_in_order(results, second)),
        ),
{
    lemma_gather_keeps_input_order(results, first);
    lemma_gather_keeps_input_order(results, second);
}

} // verus!
