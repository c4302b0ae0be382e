//! The decisions of the data operations, one event at a time.
//!
//! Each operation is a small machine. Whoever holds the connection pulls an
//! event from the stream, hands it to `on_event`, and does what comes back:
//! pull again with the state returned, or stop and settle the connection as
//! the verdict says. `replay` runs a machine over a recorded stream, and its
//! contract states the whole run in one expression.
//!
//! `FullInsert`, `Select` and `SchemaInit` drain: they release the connection
//! only on `Exhausted`. `Insert` does not: it rests on a primitive that hands
//! over a single answer and promises that the statement is complete by then.
//! `admit_handle` decides, from how the schema script concluded, whether a
//! handle is handed out at all.

use vstd::prelude::*;
use crate::error::{DbError, Fault};
use crate::stream::{
    complete, drain_pulls, drained, first_fault, items_before, leading_items,
    lemma_items_hold_no_fault, lemma_leading_items_unique, lemma_until_exhausted,
    lemma_until_exhausted_unique, payloads, unexhausted_before, until_exhausted, verdict_view,
    Advance, Disposition, Replay, StreamEvent, Verdict,
};

verus! {

/// An insert through the streaming primitive: the first row carries the
/// generated id, and the stream is then read to its end before the connection
/// is released, whatever else it holds.
#[derive(Clone, Copy, Debug, PartialEq, Eq, Structural)]
pub enum FullInsert {
    /// No row has arrived yet.
    AwaitingFirst,
    /// The id has arrived; the rest of the stream is being drained.
    Draining(i64),
    /// A fault followed the first row; the rest of the stream is being
    /// drained, and the failure kept is that of the first fault.
    Failing(DbError),
}

/// How many events `FullInsert` pulls from a recorded stream: one where the
/// stream opens with a fault, else every event up to and with the first
/// report of exhaustion.
pub open spec fn full_insert_pulls(events: Seq<StreamEvent<i64>>) -> nat {
    if events.len() == 0 {
        0
    } else if events[0] is Failed {
        1
    } else {
        let end = until_exhausted(events);
        if end < events.len() {
            end + 1
        } else {
            end
        }
    }
}

/// What `FullInsert` concludes from a recorded stream.
///
/// Before the first row a fault ends the operation at once and the connection
/// is discarded, and exhaustion is `EmptyResult`. Once the first row has
/// arrived the stream is read until it reports exhaustion, over further rows
/// and over faults, and the connection is then released: with the id of the
/// first row, or with the failure of the first fault where one was met.
pub open spec fn full_insert_trace(events: Seq<StreamEvent<i64>>) -> Option<Verdict<i64>> {
    if events.len() == 0 {
        None
    } else {
        match events[0] {
            StreamEvent::Failed(fault) => Some(
                Verdict { disposition: Disposition::Discard, outcome: Err(DbError::of_fault(fault)) },
            ),
            StreamEvent::Exhausted => Some(
                Verdict { disposition: Disposition::Release, outcome: Err(DbError::EmptyResult) },
            ),
            StreamEvent::Item(id) => {
                let end = until_exhausted(events) as int;
                if end < events.len() {
                    Some(
                        Verdict {
                            disposition: Disposition::Release,
                            outcome: match first_fault(events.take(end)) {
                                Some(fault) => Err(DbError::of_fault(fault)),
                                None => Ok(id),
                            },
                        },
                    )
                } else {
                    None
                }
            },
        }
    }
}

impl FullInsert {
    /// The state of the drain after the first row `first`, where `fault` is
    /// the first fault that followed it, if any did.
    pub open spec fn draining(first: i64, fault: Option<Fault>) -> FullInsert {
        match fault {
            Some(fault) => FullInsert::Failing(DbError::of_fault(fault)),
            None => FullInsert::Draining(first),
        }
    }

    /// The decision after one event, as a function.
    pub open spec fn step(self, event: StreamEvent<i64>) -> Advance<FullInsert, i64> {
        match self {
            FullInsert::AwaitingFirst => match event {
                StreamEvent::Item(id) => Advance::Pull(FullInsert::Draining(id)),
                StreamEvent::Exhausted => Advance::Done(
                    Verdict {
                        disposition: Disposition::Release,
                        outcome: Err(DbError::EmptyResult),
                    },
                ),
                StreamEvent::Failed(fault) => Advance::Done(
                    Verdict {
                        disposition: Disposition::Discard,
                        outcome: Err(DbError::of_fault(fault)),
                    },
                ),
            },
            FullInsert::Draining(first) => match event {
                StreamEvent::Item(_) => Advance::Pull(FullInsert::Draining(first)),
                StreamEvent::Failed(fault) => Advance::Pull(
                    FullInsert::Failing(DbError::of_fault(fault)),
                ),
                StreamEvent::Exhausted => Advance::Done(
                    Verdict { disposition: Disposition::Release, outcome: Ok(first) },
                ),
            },
            FullInsert::Failing(error) => match event {
                StreamEvent::Exhausted => Advance::Done(
                    Verdict { disposition: Disposition::Release, outcome: Err(error) },
                ),
                _ => Advance::Pull(FullInsert::Failing(error)),
            },
        }
    }

    /// The state in which the statement has been issued and nothing pulled.
    pub fn start() -> (state: FullInsert)
        ensures
            state == FullInsert::AwaitingFirst,
    {
        FullInsert::AwaitingFirst
    }

    /// Decides what follows `event`.
    pub fn on_event(self, event: &StreamEvent<i64>) -> (next: Advance<FullInsert, i64>)
        ensures
            next == self.step(*event),
    {
        match self {
            FullInsert::AwaitingFirst => match event {
                StreamEvent::Item(id) => Advance::Pull(FullInsert::Draining(*id)),
                StreamEvent::Exhausted => Advance::Done(
                    Verdict {
                        disposition: Disposition::Release,
                        outcome: Err(DbError::EmptyResult),
                    },
                ),
                StreamEvent::Failed(fault) => Advance::Done(
                    Verdict {
                        disposition: Disposition::Discard,
                        outcome: Err(DbError::classify(*fault)),
                    },
                ),
            },
            FullInsert::Draining(first) => match event {
                StreamEvent::Item(_) => Advance::Pull(FullInsert::Draining(first)),
                StreamEvent::Failed(fault) => Advance::Pull(
                    FullInsert::Failing(DbError::classify(*fault)),
                ),
                StreamEvent::Exhausted => Advance::Done(
                    Verdict { disposition: Disposition::Release, outcome: Ok(first) },
                ),
            },
            FullInsert::Failing(error) => match event {
                StreamEvent::Exhausted => Advance::Done(
                    Verdict { disposition: Disposition::Release, outcome: Err(error) },
                ),
                _ => Advance::Pull(FullInsert::Failing(error)),
            },
        }
    }

    /// Runs the machine from `start` over a recorded stream.
    pub fn replay(events: &Vec<StreamEvent<i64>>) -> (run: Replay<i64>)
        ensures
            run.pulls == full_insert_pulls(events@),
            run.verdict == full_insert_trace(events@),
    {
        let mut state = FullInsert::start();
        let mut i: usize = 0;
        while i < events.len()
            invariant
                unexhausted_before(events@, i as int),
                i == 0 ==> state == FullInsert::AwaitingFirst,
                i > 0 ==> events@[0] is Item && state == FullInsert::draining(
                    events@[0]->Item_0,
                    first_fault(events@.take(i as int)),
                ),
            decreases events.len() - i,
        {
            match state.on_event(&events[i]) {
                Advance::Pull(next) => {
                    proof {
                        assert(events@.take(i + 1).drop_last() =~= events@.take(i as int));
                        if i == 0 {
                            assert(events@.take(0).len() == 0);
                        }
                    }
                    state = next;
                    i = i + 1;
                },
                Advance::Done(verdict) => {
                    proof {
                        if events@[i as int] is Exhausted {
                            lemma_until_exhausted_unique(events@, i as int);
                        }
                    }
                    return Replay { pulls: i + 1, verdict: Some(verdict) };
                },
            }
        }
        proof {
            lemma_until_exhausted_unique(events@, i as int);
        }
        Replay { pulls: i, verdict: None }
    }
}

/// Drain before release, for the streamed insert. Whatever the stream holds,
/// the connection is released only on the stream's own report of exhaustion,
/// with every event before it pulled, rows and faults alike; it is discarded
/// only where the stream opens with a fault; and nothing is pulled behind the
/// event on which the operation concluded. A fault that follows the first row
/// does not end the drain, and it is the failure returned.
pub proof fn lemma_full_insert_drains(events: Seq<StreamEvent<i64>>)
    ensures
        match full_insert_trace(events) {
            Some(verdict) => {
                let last = full_insert_pulls(events) - 1;
                &&& 0 <= last < events.len()
                &&& unexhausted_before(events, last)
                &&& verdict.disposition == Disposition::Release <==> events[last] is Exhausted
                &&& verdict.disposition == Disposition::Discard <==> last == 0 && events[0]
                    is Failed
                &&& events[0] is Item ==> verdict.outcome == match first_fault(events.take(last)) {
                    Some(fault) => Err::<i64, DbError>(DbError::of_fault(fault)),
                    None => Ok(events[0]->Item_0),
                }
            },
            None => full_insert_pulls(events) == events.len() && unexhausted_before(
                events,
                events.len() as int,
            ),
        },
{
    lemma_until_exhausted(events);
}

/// A select: every row's id is collected in arrival order until the stream is
/// exhausted.
#[derive(Debug, PartialEq, Eq)]
pub struct Select {
    ids: Vec<i64>,
}

impl View for Select {
    type V = Seq<i64>;

    /// The ids collected so far, in arrival order.
    closed spec fn view(&self) -> Seq<i64> {
        self.ids@
    }
}

/// What `Select` concludes from a recorded stream: the ids of all rows, in
/// arrival order, once the stream is exhausted. A stream without rows gives
/// the empty sequence, which is a result and no failure.
pub open spec fn select_trace(events: Seq<StreamEvent<i64>>) -> Option<Verdict<Seq<i64>>> {
    drained(events, Ok(payloads(events, leading_items(events) as int)))
}

impl Select {
    /// The decision after one event, as a function of the ids collected so far.
    pub open spec fn step(collected: Seq<i64>, event: StreamEvent<i64>) -> Advance<
        Seq<i64>,
        Seq<i64>,
    > {
        match event {
            StreamEvent::Item(id) => Advance::Pull(collected.push(id)),
            StreamEvent::Exhausted => Advance::Done(
                Verdict { disposition: Disposition::Release, outcome: Ok(collected) },
            ),
            StreamEvent::Failed(fault) => Advance::Done(
                Verdict { disposition: Disposition::Discard, outcome: Err(DbError::of_fault(fault)) },
            ),
        }
    }

    /// The state in which the statement has been issued and nothing pulled.
    pub fn start() -> (state: Select)
        ensures
            state@ == Seq::<i64>::empty(),
    {
        Select { ids: Vec::new() }
    }

    /// Decides what follows `event`.
    pub fn on_event(self, event: &StreamEvent<i64>) -> (next: Advance<Select, Vec<i64>>)
        ensures
            next@ == Select::step(self@, *event),
    {
        match event {
            StreamEvent::Item(id) => {
                let mut ids = self.ids;
                ids.push(*id);
                Advance::Pull(Select { ids })
            },
            StreamEvent::Exhausted => Advance::Done(
                Verdict { disposition: Disposition::Release, outcome: Ok(self.ids) },
            ),
            StreamEvent::Failed(fault) => Advance::Done(
                Verdict { disposition: Disposition::Discard, outcome: Err(DbError::classify(*fault)) },
            ),
        }
    }

    /// Runs the machine from `start` over a recorded stream.
    pub fn replay(events: &Vec<StreamEvent<i64>>) -> (run: Replay<Vec<i64>>)
        ensures
            run.pulls == drain_pulls(events@),
            verdict_view(run.verdict) == select_trace(events@),
    {
        let mut state = Select::start();
        let mut i: usize = 0;
        while i < events.len()
            invariant
                items_before(events@, i as int),
                state@ == payloads(events@, i as int),
            decreases events.len() - i,
        {
            match state.on_event(&events[i]) {
                Advance::Pull(next) => {
                    assert(next@ == payloads(events@, i + 1));
                    state = next;
                    i = i + 1;
                },
                Advance::Done(verdict) => {
                    proof {
                        lemma_leading_items_unique(events@, i as int);
                    }
                    return Replay { pulls: i + 1, verdict: Some(verdict) };
                },
            }
        }
        proof {
            lemma_leading_items_unique(events@, i as int);
        }
        Replay { pulls: i, verdict: None }
    }
}

/// The schema script: one result arrives for each statement, and the script
/// counts as run only when the stream of results is exhausted.
#[derive(Clone, Copy, Debug, PartialEq, Eq, Structural)]
pub struct SchemaInit;

/// What `SchemaInit` concludes from a recorded stream of statement results.
pub open spec fn schema_trace(events: Seq<StreamEvent<()>>) -> Option<Verdict<()>> {
    drained(events, Ok(()))
}

impl SchemaInit {
    /// The decision after one event, as a function.
    pub open spec fn step(self, event: StreamEvent<()>) -> Advance<SchemaInit, ()> {
        match event {
            StreamEvent::Item(_) => Advance::Pull(SchemaInit),
            StreamEvent::Exhausted => Advance::Done(
                Verdict { disposition: Disposition::Release, outcome: Ok(()) },
            ),
            StreamEvent::Failed(fault) => Advance::Done(
                Verdict { disposition: Disposition::Discard, outcome: Err(DbError::of_fault(fault)) },
            ),
        }
    }

    /// The state in which the script has been issued and nothing pulled.
    pub fn start() -> (state: SchemaInit)
        ensures
            state == SchemaInit,
    {
        SchemaInit
    }

    /// Decides what follows `event`.
    pub fn on_event(self, event: &StreamEvent<()>) -> (next: Advance<SchemaInit, ()>)
        ensures
            next == self.step(*event),
    {
        match event {
            StreamEvent::Item(_) => Advance::Pull(SchemaInit),
            StreamEvent::Exhausted => Advance::Done(
                Verdict { disposition: Disposition::Release, outcome: Ok(()) },
            ),
            StreamEvent::Failed(fault) => Advance::Done(
                Verdict { disposition: Disposition::Discard, outcome: Err(DbError::classify(*fault)) },
            ),
        }
    }

    /// Runs the machine from `start` over a recorded stream.
    pub fn replay(events: &Vec<StreamEvent<()>>) -> (run: Replay<()>)
        ensures
            run.pulls == drain_pulls(events@),
            run.verdict == schema_trace(events@),
    {
        let mut state = SchemaInit::start();
        let mut i: usize = 0;
        while i < events.len()
            invariant
                items_before(events@, i as int),
            decreases events.len() - i,
        {
            match state.on_event(&events[i]) {
                Advance::Pull(next) => {
                    state = next;
                    i = i + 1;
                },
                Advance::Done(verdict) => {
                    proof {
                        lemma_leading_items_unique(events@, i as int);
                    }
                    return Replay { pulls: i + 1, verdict: Some(verdict) };
                },
            }
        }
        proof {
            lemma_leading_items_unique(events@, i as int);
        }
        Replay { pulls: i, verdict: None }
    }
}

/// An insert through the single-row primitive, which answers once: with the
/// row, with the report that there is none, or with a failure.
#[derive(Clone, Copy, Debug, PartialEq, Eq, Structural)]
pub struct Insert;

impl Insert {
    /// The conclusion drawn from the primitive's answer.
    ///
    /// After a row the connection is released without a further pull: that the
    /// statement is complete by then is the primitive's promise, not something
    /// this operation has seen.
    pub open spec fn verdict_of(answer: StreamEvent<i64>) -> Verdict<i64> {
        match answer {
            StreamEvent::Item(id) => Verdict { disposition: Disposition::Release, outcome: Ok(id) },
            StreamEvent::Exhausted => Verdict {
                disposition: Disposition::Release,
                outcome: Err(DbError::EmptyResult),
            },
            StreamEvent::Failed(fault) => Verdict {
                disposition: Disposition::Discard,
                outcome: Err(DbError::of_fault(fault)),
            },
        }
    }

    /// Concludes the operation from the primitive's answer.
    pub fn conclude(answer: &StreamEvent<i64>) -> (verdict: Verdict<i64>)
        ensures
            verdict == Insert::verdict_of(*answer),
    {
        match answer {
            StreamEvent::Item(id) => Verdict { disposition: Disposition::Release, outcome: Ok(*id) },
            StreamEvent::Exhausted => Verdict {
                disposition: Disposition::Release,
                outcome: Err(DbError::EmptyResult),
            },
            StreamEvent::Failed(fault) => Verdict {
                disposition: Disposition::Discard,
                outcome: Err(DbError::classify(*fault)),
            },
        }
    }
}

/// Where the stream of an insert is complete, the two variants return the
/// same outcome and both release the connection. They differ in what they
/// have seen by then: `FullInsert` has pulled every event, `Insert` only the
/// first.
pub proof fn lemma_insert_variants_agree(events: Seq<StreamEvent<i64>>)
    requires
        complete(events),
    ensures
        full_insert_trace(events) == Some(Insert::verdict_of(events[0])),
        full_insert_pulls(events) == events.len(),
{
    let end = events.len() - 1;
    assert(unexhausted_before(events, end)) by {
        assert forall|i: int| 0 <= i < end implies !((#[trigger] events[i]) is Exhausted) by {
            assert(events[i] is Item);
        }
    }
    lemma_until_exhausted_unique(events, end);
    assert(items_before(events.take(end), end)) by {
        assert forall|i: int| 0 <= i < end implies (#[trigger] events.take(end)[i]) is Item by {
            assert(events.take(end)[i] == events[i]);
        }
    }
    lemma_items_hold_no_fault(events.take(end));
}

/// What opening a handle returns once the schema script has concluded: the
/// handle where the script ran to its end, and the script's failure, with no
/// handle, where it did not.
pub open spec fn handle_after_schema<H>(handle: H, schema: Result<(), DbError>) -> Result<
    H,
    DbError,
> {
    match schema {
        Ok(_) => Ok(handle),
        Err(error) => Err(error),
    }
}

/// Decides whether what was opened is handed out: only over a schema that is
/// in place. On a failed script the handle is dropped here and the failure is
/// returned.
pub fn admit_handle<H>(handle: H, schema: Result<(), DbError>) -> (result: Result<H, DbError>)
    ensures
        result == handle_after_schema(handle, schema),
{
    match schema {
        Ok(_) => Ok(handle),
        Err(error) => Err(error),
    }
}

} // verus!
