//! The table kept in memory, with the data operations run over it by the
//! machines of `protocol`.

use vstd::prelude::*;
use vstd::pervasive::unreached;
use crate::error::{DbError, Fault};
use crate::protocol::{
    admit_handle, lemma_insert_variants_agree, FullInsert, Insert, SchemaInit, Select,
};
use crate::schema::SCHEMA_STATEMENTS;
use crate::stream::{
    lemma_complete_stream_is_drained, lemma_leading_items_unique, settled, settled_pulls,
    verdict_view, Replay, StreamEvent,
};
use crate::table::{
    id_items, id_stream, ids_in, lemma_id_items_push, lemma_id_stream, lemma_ids_in_push,
    refusal, Row, TableState,
};

verus! {

/// The table, kept in memory.
#[derive(Debug)]
pub struct MemoryStore {
    ready: bool,
    rows: Vec<Row>,
}

impl View for MemoryStore {
    type V = TableState;

    closed spec fn view(&self) -> TableState {
        TableState { ready: self.ready, rows: self.rows@ }
    }
}

impl MemoryStore {
    /// A file that was just created.
    pub fn blank() -> (store: MemoryStore)
        ensures
            store@ == TableState::blank(),
            store@.wf(),
    {
        MemoryStore { ready: false, rows: Vec::new() }
    }

    /// Whether the schema exists.
    pub fn is_ready(&self) -> (ready: bool)
        ensures
            ready == self@.ready,
    {
        self.ready
    }

    /// The rows, in the order in which they were inserted.
    pub fn rows(&self) -> (rows: &Vec<Row>)
        ensures
            rows@ == self@.rows,
    {
        &self.rows
    }

    /// The engine runs the schema script: table and index are created where
    /// they are absent, and one result is reported for each statement.
    pub fn run_schema(&mut self) -> (events: Vec<StreamEvent<()>>)
        requires
            old(self)@.wf(),
        ensures
            final(self)@ == old(self)@.with_schema(),
            final(self)@.wf(),
            events@ == TableState::schema_stream(),
    {
        self.ready = true;
        let mut events: Vec<StreamEvent<()>> = Vec::new();
        let mut done: usize = 0;
        while done < SCHEMA_STATEMENTS
            invariant
                done <= SCHEMA_STATEMENTS,
                events@ == Seq::new(done as nat, |i: int| StreamEvent::Item(())),
            decreases SCHEMA_STATEMENTS - done,
        {
            events.push(StreamEvent::Item(()));
            done = done + 1;
            assert(events@ =~= Seq::new(done as nat, |i: int| StreamEvent::Item(())));
        }
        events.push(StreamEvent::Exhausted);
        assert(events@ =~= TableState::schema_stream());
        events
    }

    /// The engine runs an insert: the row gets the next id, which the stream
    /// returns as its only row.
    pub fn run_insert(&mut self, batch_id: i64) -> (events: Vec<StreamEvent<i64>>)
        requires
            old(self)@.wf(),
        ensures
            final(self)@ == old(self)@.after_insert(batch_id),
            final(self)@.wf(),
            events@ == old(self)@.insert_stream(batch_id),
    {
        let mut events: Vec<StreamEvent<i64>> = Vec::new();
        let count: usize = self.rows.len();
        if !self.ready || (count > 0 && self.rows[count - 1].id == i64::MAX) {
            events.push(StreamEvent::Failed(Fault::Engine { code: None }));
            events.push(StreamEvent::Exhausted);
            assert(events@ =~= refusal::<i64>());
            return events;
        }
        let id: i64 = if count == 0 {
            1
        } else {
            self.rows[count - 1].id + 1
        };
        self.rows.push(Row { id, batch_id });
        events.push(StreamEvent::Item(id));
        events.push(StreamEvent::Exhausted);
        assert(events@ =~= id_stream(seq![id]));
        events
    }

    /// The engine runs a select: the ids of the partition, ascending.
    pub fn run_select(&self, batch_id: i64) -> (events: Vec<StreamEvent<i64>>)
        ensures
            events@ == self@.select_stream(batch_id),
    {
        let mut events: Vec<StreamEvent<i64>> = Vec::new();
        if !self.ready {
            events.push(StreamEvent::Failed(Fault::Engine { code: None }));
            events.push(StreamEvent::Exhausted);
            assert(events@ =~= refusal::<i64>());
            return events;
        }
        let mut i: usize = 0;
        while i < self.rows.len()
            invariant
                i <= self.rows.len(),
                events@ == id_items(ids_in(self.rows@.take(i as int), batch_id)),
            decreases self.rows.len() - i,
        {
            let row = self.rows[i];
            proof {
                let seen = self.rows@.take(i as int);
                assert(self.rows@.take(i + 1) =~= seen.push(row));
                lemma_ids_in_push(seen, row, batch_id);
                lemma_id_items_push(ids_in(seen, batch_id), row.id);
            }
            if row.batch_id == batch_id {
                events.push(StreamEvent::Item(row.id));
            }
            i = i + 1;
        }
        assert(self.rows@.take(i as int) =~= self.rows@);
        events.push(StreamEvent::Exhausted);
        events
    }

    /// Ensures the schema: runs the script and reads its results to the end,
    /// one for each statement and then the report of exhaustion. Table and
    /// index are created where they are absent; what exists stays.
    pub fn init_db(&mut self) -> (run: Replay<()>)
        requires
            old(self)@.wf(),
        ensures
            final(self)@ == old(self)@.with_schema(),
            final(self)@.wf(),
            run.pulls == TableState::schema_stream().len(),
            run.verdict == Some(settled(Ok::<(), DbError>(()))),
    {
        let events = self.run_schema();
        let run = SchemaInit::replay(&events);
        proof {
            lemma_complete_stream_is_drained(events@, Ok::<(), DbError>(()));
        }
        run
    }

    /// Opens `file`, creating it where there is none, and ensures the schema
    /// before the store is handed out.
    pub fn connect(file: Option<MemoryStore>) -> (result: Result<MemoryStore, DbError>)
        requires
            file matches Some(existing) ==> existing@.wf(),
        ensures
            result matches Ok(store) && store@.wf() && store@ == (match file {
                Some(existing) => existing@.with_schema(),
                None => TableState::blank().with_schema(),
            }),
    {
        let mut store = match file {
            Some(existing) => existing,
            None => MemoryStore::blank(),
        };
        match store.init_db().verdict {
            Some(verdict) => admit_handle(store, verdict.outcome),
            None => unreached(),
        }
    }

    /// Inserts a row through the single-row primitive, which hands over the
    /// first answer of the stream and no more.
    pub fn insert(&mut self, batch_id: i64) -> (run: Replay<i64>)
        requires
            old(self)@.wf(),
        ensures
            final(self)@ == old(self)@.after_insert(batch_id),
            final(self)@.wf(),
            run.pulls == 1,
            run.verdict == Some(settled(old(self)@.insert_outcome(batch_id))),
    {
        let events = self.run_insert(batch_id);
        let verdict = Insert::conclude(&events[0]);
        Replay { pulls: 1, verdict: Some(verdict) }
    }

    /// Inserts a row through the streaming primitive and reads the stream to
    /// its end: where the engine answers, every event of the answer is pulled
    /// before the connection is released.
    pub fn full_insert(&mut self, batch_id: i64) -> (run: Replay<i64>)
        requires
            old(self)@.wf(),
        ensures
            final(self)@ == old(self)@.after_insert(batch_id),
            final(self)@.wf(),
            run.pulls == settled_pulls(
                old(self)@.insert_stream(batch_id),
                old(self)@.insert_outcome(batch_id),
            ),
            run.verdict == Some(settled(old(self)@.insert_outcome(batch_id))),
    {
        let ghost before = self@;
        let events = self.run_insert(batch_id);
        let run = FullInsert::replay(&events);
        proof {
            match before.insert_outcome(batch_id) {
                Ok(id) => {
                    lemma_id_stream(seq![id]);
                    lemma_insert_variants_agree(events@);
                },
                Err(_) => {},
            }
        }
        run
    }

    /// Reads the ids of the rows of `batch_id`, ascending, to the end of the
    /// stream. A partition without rows gives the empty sequence.
    pub fn select(&self, batch_id: i64) -> (run: Replay<Vec<i64>>)
        requires
            self@.wf(),
        ensures
            run.pulls == settled_pulls(
                self@.select_stream(batch_id),
                self@.select_outcome(batch_id),
            ),
            verdict_view(run.verdict) == Some(settled(self@.select_outcome(batch_id))),
    {
        let events = self.run_select(batch_id);
        let run = Select::replay(&events);
        proof {
            if self@.ready {
                let ids = ids_in(self@.rows, batch_id);
                lemma_id_stream(ids);
                lemma_complete_stream_is_drained(events@, Ok::<Seq<i64>, DbError>(ids));
            } else {
                lemma_leading_items_unique(events@, 0);
            }
        }
        run
    }
}

} // verus!
