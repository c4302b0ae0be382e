//! Result streams as seen by one checked-out connection.
//!
//! A statement answers with a stream: items, failures, and at last the report
//! that nothing more will come. An operation pulls events one at a time and
//! decides after each whether to pull again or to conclude. How it concludes
//! says what becomes of the connection: it goes back to the pool only when the
//! stream has reported exhaustion, and is discarded when the operation stops
//! before that.

use vstd::prelude::*;
use crate::error::{DbError, Fault};

verus! {

/// What one pull of a result stream gave.
#[derive(Debug, PartialEq, Eq)]
pub enum StreamEvent<T> {
    /// The next item of the result.
    Item(T),
    /// The binding reported a fault in place of an item.
    Failed(Fault),
    /// The stream reported that it holds nothing more.
    Exhausted,
}

/// What becomes of the checked-out connection when an operation concludes.
#[derive(Clone, Copy, Debug, PartialEq, Eq, Structural)]
pub enum Disposition {
    /// The connection may be handed to another caller.
    Release,
    /// The operation abandons the stream with rows possibly unread: the
    /// connection must not be pooled again.
    Discard,
}

/// The conclusion of an operation: the caller's result, and the fate of the connection.
#[derive(Debug, PartialEq, Eq)]
pub struct Verdict<T> {
    pub disposition: Disposition,
    pub outcome: Result<T, DbError>,
}

/// The decision taken after one event.
#[derive(Debug, PartialEq, Eq)]
pub enum Advance<S, T> {
    /// Pull the next event and hand it to the state given here.
    Pull(S),
    /// Stop pulling. The operation is over.
    Done(Verdict<T>),
}

/// What a replay of a recorded stream consumed and concluded.
#[derive(Debug, PartialEq, Eq)]
pub struct Replay<T> {
    /// How many events were pulled.
    pub pulls: usize,
    /// The conclusion, or `None` where the recording ended before one was reached.
    pub verdict: Option<Verdict<T>>,
}

/// The view of a result: that of its value, or its failure as it is.
pub open spec fn outcome_view<T: View>(outcome: Result<T, DbError>) -> Result<T::V, DbError> {
    match outcome {
        Ok(value) => Ok(value@),
        Err(error) => Err(error),
    }
}

impl<T: View> View for Verdict<T> {
    type V = Verdict<T::V>;

    open spec fn view(&self) -> Verdict<T::V> {
        Verdict { disposition: self.disposition, outcome: outcome_view(self.outcome) }
    }
}

impl<S: View, T: View> View for Advance<S, T> {
    type V = Advance<S::V, T::V>;

    open spec fn view(&self) -> Advance<S::V, T::V> {
        match self {
            Advance::Pull(state) => Advance::Pull(state@),
            Advance::Done(verdict) => Advance::Done(verdict@),
        }
    }
}

/// The view of a conclusion that may be absent.
pub open spec fn verdict_view<T: View>(verdict: Option<Verdict<T>>) -> Option<Verdict<T::V>> {
    match verdict {
        Some(v) => Some(v@),
        None => None,
    }
}

/// The number of items at the head of `events`, before the first event that is no item.
pub open spec fn leading_items<T>(events: Seq<StreamEvent<T>>) -> nat
    decreases events.len(),
{
    if events.len() > 0 && events[0] is Item {
        1 + leading_items(events.drop_first())
    } else {
        0
    }
}

/// The first `count` events are all items.
pub open spec fn items_before<T>(events: Seq<StreamEvent<T>>, count: int) -> bool {
    &&& 0 <= count <= events.len()
    &&& forall|i: int| 0 <= i < count ==> (#[trigger] events[i]) is Item
}

/// The values carried by the first `count` events.
pub open spec fn payloads<T>(events: Seq<StreamEvent<T>>, count: int) -> Seq<T> {
    Seq::new(count as nat, |i: int| events[i]->Item_0)
}

/// How many events an operation that drains the stream pulls: every leading
/// item, and the event that ends them if the recording holds one.
pub open spec fn drain_pulls<T>(events: Seq<StreamEvent<T>>) -> nat {
    let items = leading_items(events);
    if items < events.len() {
        items + 1
    } else {
        items
    }
}

/// The conclusion of an operation that drains the stream, where `exhausted`
/// is what it returns once the stream has reported exhaustion.
///
/// It releases the connection exactly when the event that ends the leading
/// items is `Exhausted`. A fault ends the operation at once with the failure
/// that the fault stands for, and the connection is discarded. A recording
/// that holds items only reaches no conclusion.
pub open spec fn drained<T, R>(events: Seq<StreamEvent<T>>, exhausted: Result<R, DbError>)
    -> Option<Verdict<R>> {
    let items = leading_items(events) as int;
    if items < events.len() {
        match events[items] {
            StreamEvent::Exhausted => Some(
                Verdict { disposition: Disposition::Release, outcome: exhausted },
            ),
            StreamEvent::Failed(fault) => Some(
                Verdict { disposition: Disposition::Discard, outcome: Err(DbError::of_fault(fault)) },
            ),
            StreamEvent::Item(_) => None,
        }
    } else {
        None
    }
}

/// A complete stream: its last event reports exhaustion, and all before it are items.
pub open spec fn complete<T>(events: Seq<StreamEvent<T>>) -> bool {
    &&& events.len() > 0
    &&& events.last() is Exhausted
    &&& items_before(events, events.len() - 1)
}

/// None of the first `count` events reports exhaustion.
pub open spec fn unexhausted_before<T>(events: Seq<StreamEvent<T>>, count: int) -> bool {
    &&& 0 <= count <= events.len()
    &&& forall|i: int| 0 <= i < count ==> !((#[trigger] events[i]) is Exhausted)
}

/// The number of events before the first that reports exhaustion.
pub open spec fn until_exhausted<T>(events: Seq<StreamEvent<T>>) -> nat
    decreases events.len(),
{
    if events.len() > 0 && !(events[0] is Exhausted) {
        1 + until_exhausted(events.drop_first())
    } else {
        0
    }
}

/// The first fault among `events`, if they hold one.
pub open spec fn first_fault<T>(events: Seq<StreamEvent<T>>) -> Option<Fault>
    decreases events.len(),
{
    if events.len() == 0 {
        None
    } else {
        match first_fault(events.drop_last()) {
            Some(fault) => Some(fault),
            None => match events.last() {
                StreamEvent::Failed(fault) => Some(fault),
                _ => None,
            },
        }
    }
}

/// What an operation concludes on the answer of an engine that either
/// answers with a complete stream or refuses with a fault at once: it
/// releases the connection with the result, or discards it with the failure.
pub open spec fn settled<R>(outcome: Result<R, DbError>) -> Verdict<R> {
    Verdict {
        disposition: if outcome is Ok {
            Disposition::Release
        } else {
            Disposition::Discard
        },
        outcome,
    }
}

/// How many events that operation pulls: the whole stream where the engine
/// answered, the opening fault alone where it refused.
pub open spec fn settled_pulls<T, R>(events: Seq<StreamEvent<T>>, outcome: Result<R, DbError>)
    -> nat {
    if outcome is Ok {
        events.len()
    } else {
        1
    }
}

/// `leading_items` stays within the recording, counts items only, and stops
/// at the first event that is none.
pub proof fn lemma_leading_items<T>(events: Seq<StreamEvent<T>>)
    ensures
        items_before(events, leading_items(events) as int),
        leading_items(events) < events.len() ==> !(events[leading_items(events) as int] is Item),
    decreases events.len(),
{
    if events.len() > 0 && events[0] is Item {
        let rest = events.drop_first();
        lemma_leading_items(rest);
        let n = leading_items(rest) as int;
        assert forall|i: int| 0 <= i < n + 1 implies (#[trigger] events[i]) is Item by {
            if i > 0 {
                assert(events[i] == rest[i - 1]);
            }
        }
        if n + 1 < events.len() {
            assert(events[n + 1] == rest[n]);
        }
    }
}

/// The index at which the items end is `leading_items`: no other index has
/// items only before it and no item at it.
pub proof fn lemma_leading_items_unique<T>(events: Seq<StreamEvent<T>>, count: int)
    requires
        items_before(events, count),
        count < events.len() ==> !(events[count] is Item),
    ensures
        leading_items(events) == count,
    decreases events.len(),
{
    if count > 0 {
        let rest = events.drop_first();
        assert(events[0] is Item);
        assert forall|i: int| 0 <= i < count - 1 implies (#[trigger] rest[i]) is Item by {
            assert(rest[i] == events[i + 1]);
        }
        if count - 1 < rest.len() {
            assert(rest[count - 1] == events[count]);
        }
        lemma_leading_items_unique(rest, count - 1);
    }
}

/// `until_exhausted` stays within the recording, passes no report of
/// exhaustion, and stops at the first.
pub proof fn lemma_until_exhausted<T>(events: Seq<StreamEvent<T>>)
    ensures
        unexhausted_before(events, until_exhausted(events) as int),
        until_exhausted(events) < events.len() ==> events[until_exhausted(events) as int]
            is Exhausted,
    decreases events.len(),
{
    if events.len() > 0 && !(events[0] is Exhausted) {
        let rest = events.drop_first();
        lemma_until_exhausted(rest);
        let n = until_exhausted(rest) as int;
        assert forall|i: int| 0 <= i < n + 1 implies !((#[trigger] events[i]) is Exhausted) by {
            if i > 0 {
                assert(events[i] == rest[i - 1]);
            }
        }
        if n + 1 < events.len() {
            assert(events[n + 1] == rest[n]);
        }
    }
}

/// The index of the first report of exhaustion is `until_exhausted`.
pub proof fn lemma_until_exhausted_unique<T>(events: Seq<StreamEvent<T>>, count: int)
    requires
        unexhausted_before(events, count),
        count < events.len() ==> events[count] is Exhausted,
    ensures
        until_exhausted(events) == count,
    decreases events.len(),
{
    if count > 0 {
        let rest = events.drop_first();
        assert(!(events[0] is Exhausted));
        assert forall|i: int| 0 <= i < count - 1 implies !((#[trigger] rest[i]) is Exhausted) by {
            assert(rest[i] == events[i + 1]);
        }
        if count - 1 < rest.len() {
            assert(rest[count - 1] == events[count]);
        }
        lemma_until_exhausted_unique(rest, count - 1);
    }
}

/// Items alone hold no fault.
pub proof fn lemma_items_hold_no_fault<T>(events: Seq<StreamEvent<T>>)
    requires
        items_before(events, events.len() as int),
    ensures
        first_fault(events) == None::<Fault>,
    decreases events.len(),
{
    if events.len() > 0 {
        let earlier = events.drop_last();
        assert forall|i: int| 0 <= i < earlier.len() implies (#[trigger] earlier[i]) is Item by {
            assert(earlier[i] == events[i]);
        }
        lemma_items_hold_no_fault(earlier);
        assert(events[events.len() - 1] is Item);
    }
}

/// Drain before release. Whatever the stream holds, an operation that drains
/// it hands the connection back only after the stream itself has reported
/// exhaustion, having read every item that came before; it discards the
/// connection exactly when the stream failed; and it pulls nothing behind the
/// event on which it concluded.
pub proof fn lemma_release_confirms_exhaustion<T, R>(
    events: Seq<StreamEvent<T>>,
    exhausted: Result<R, DbError>,
)
    ensures
        match drained(events, exhausted) {
            Some(verdict) => {
                let last = drain_pulls(events) - 1;
                &&& 0 <= last < events.len()
                &&& items_before(events, last)
                &&& verdict.disposition == Disposition::Release <==> events[last] is Exhausted
                &&& verdict.disposition == Disposition::Discard <==> events[last] is Failed
                &&& events[last] is Exhausted ==> verdict.outcome == exhausted
                &&& events[last] is Failed ==> verdict.outcome == Err::<R, DbError>(
                    DbError::of_fault(events[last]->Failed_0),
                )
            },
            None => drain_pulls(events) == events.len() && items_before(
                events,
                events.len() as int,
            ),
        },
{
    lemma_leading_items(events);
}

/// On a complete stream a draining operation always concludes, by releasing
/// the connection with what it returns on exhaustion, after pulling every event.
pub proof fn lemma_complete_stream_is_drained<T, R>(
    events: Seq<StreamEvent<T>>,
    exhausted: Result<R, DbError>,
)
    requires
        complete(events),
    ensures
        leading_items(events) == events.len() - 1,
        drain_pulls(events) == events.len(),
        drained(events, exhausted) == Some(
            Verdict { disposition: Disposition::Release, outcome: exhausted },
        ),
{
    lemma_leading_items_unique(events, events.len() - 1);
}

} // verus!
