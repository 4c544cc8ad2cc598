//! The append-only log of runs.

use crate::error::{AppError, ErrorKind};
use crate::json::JsonValue;
use crate::order::{newest_first, newest_first_order, positions};
use crate::outside::{clock_micros, rfc3339, rfc3339_text};
use crate::text::text_eq;
use vstd::prelude::*;
use vstd::string::*;

verus! {

/// How a run ended.
#[derive(Clone, Copy, Debug, PartialEq, Eq, Structural)]
pub enum RunStatus {
    /// The program exited successfully and wrote its artifact.
    Success,
    /// Anything else.
    Failed,
}

/// One recorded run. A record is made once, when the run has ended, and
/// never changed.
#[derive(Debug)]
pub struct RunRecord {
    pub id: String,
    /// Microseconds since the start of 1970.
    pub created_at: i64,
    pub sport: String,
    pub project: String,
    pub status: RunStatus,
    /// The frozen configuration of the invocation.
    pub config: JsonValue,
    pub result_path: Option<String>,
    pub stdout_path: Option<String>,
    pub stderr_path: Option<String>,
    pub duration_ms: Option<i64>,
    /// The sweep that owns the run, if any.
    pub sweep_id: Option<String>,
}

/// What a listing shows of a run.
#[derive(Debug)]
pub struct RunSummary {
    pub id: String,
    pub created_at: i64,
    pub sport: String,
    pub project: String,
    pub status: RunStatus,
    pub duration_ms: Option<i64>,
    pub sweep_id: Option<String>,
}

/// The runs recorded so far, in the order in which they were recorded.
pub struct RunStore {
    runs: Vec<RunRecord>,
}

/// The word under which a status is stored and shown.
pub open spec fn status_word(status: RunStatus) -> Seq<char> {
    match status {
        RunStatus::Success => "success"@,
        RunStatus::Failed => "failed"@,
    }
}

/// The status of a run whose program did or did not succeed.
pub open spec fn status_of_outcome(succeeded: bool) -> RunStatus {
    if succeeded {
        RunStatus::Success
    } else {
        RunStatus::Failed
    }
}

/// The position of the record with this id, if there is one.
pub open spec fn run_position(runs: Seq<RunRecord>, id: Seq<char>) -> Option<int>
    decreases runs.len(),
{
    if runs.len() == 0 {
        None
    } else if runs.last().id@ == id {
        Some(runs.len() - 1)
    } else {
        run_position(runs.drop_last(), id)
    }
}

/// Whether no two records share an id.
pub open spec fn distinct_run_ids(runs: Seq<RunRecord>) -> bool {
    forall|i: int, j: int| 0 <= i < j < runs.len() ==> runs[i].id@ != runs[j].id@
}

/// The creation times of the records, in their order.
pub open spec fn run_times(runs: Seq<RunRecord>) -> Seq<i64> {
    Seq::new(runs.len(), |i: int| runs[i].created_at)
}

/// What a listing shows of a record.
pub open spec fn summary_of(run: RunRecord) -> RunSummary {
    RunSummary {
        id: run.id,
        created_at: run.created_at,
        sport: run.sport,
        project: run.project,
        status: run.status,
        duration_ms: run.duration_ms,
        sweep_id: run.sweep_id,
    }
}

/// The listing of the records: their summaries by creation time, most
/// recent first.
pub open spec fn run_listing(runs: Seq<RunRecord>) -> Seq<RunSummary> {
    Seq::new(
        runs.len(),
        |i: int| summary_of(runs[newest_first(run_times(runs), runs.len())[i]]),
    )
}

/// The position found for an id holds a record with that id, and where
/// none is found no record has it.
pub proof fn lemma_run_position(runs: Seq<RunRecord>, id: Seq<char>)
    ensures
        match run_position(runs, id) {
            Some(i) => 0 <= i < runs.len() && runs[i].id@ == id,
            None => forall|i: int| 0 <= i < runs.len() ==> runs[i].id@ != id,
        },
    decreases runs.len(),
{
    if runs.len() > 0 && runs.last().id@ != id {
        lemma_run_position(runs.drop_last(), id);
        if run_position(runs, id) is None {
            assert forall|i: int| 0 <= i < runs.len() implies runs[i].id@ != id by {
                if i < runs.len() - 1 {
                    assert(runs.drop_last()[i] == runs[i]);
                }
            }
        }
    }
}

/// A creation time as it is shown: as RFC 3339 text, in UTC.
pub fn time_text(created_at: i64) -> (r: String)
    ensures
        r@ == rfc3339_text(created_at),
{
    rfc3339(created_at)
}

/// A copy of an optional text.
pub fn copy_text(text: &Option<String>) -> (r: Option<String>)
    ensures
        r == *text,
{
    match text {
        Some(t) => Some(t.clone()),
        None => None,
    }
}

impl RunStatus {
    /// The status of a run whose program did or did not succeed.
    pub fn from_outcome(succeeded: bool) -> (r: RunStatus)
        ensures
            r == status_of_outcome(succeeded),
    {
        if succeeded {
            RunStatus::Success
        } else {
            RunStatus::Failed
        }
    }

    /// The word under which the status is stored and shown.
    pub fn as_str(&self) -> (r: &'static str)
        ensures
            r@ == status_word(*self),
    {
        match self {
            RunStatus::Success => "success",
            RunStatus::Failed => "failed",
        }
    }
}

impl RunStore {
    /// The records, in the order in which they were recorded.
    pub closed spec fn view(&self) -> Seq<RunRecord> {
        self.runs@
    }

    /// No two records share an id.
    pub open spec fn wf(&self) -> bool {
        distinct_run_ids(self@)
    }

    /// A store without records.
    pub fn new() -> (r: RunStore)
        ensures
            r@ == Seq::<RunRecord>::empty(),
            r.wf(),
    {
        RunStore { runs: Vec::new() }
    }

    /// The number of records.
    pub fn len(&self) -> (n: usize)
        ensures
            n == self@.len(),
    {
        self.runs.len()
    }

    /// The position of the record with this id.
    fn find(&self, id: &str) -> (r: Option<usize>)
        ensures
            match r {
                Some(i) => run_position(self@, id@) == Some(i as int) && i < self@.len(),
                None => run_position(self@, id@) is None,
            },
    {
        let mut i: usize = self.runs.len();
        assert(self@.subrange(0, i as int) =~= self@);
        while i > 0
            invariant
                i <= self.runs.len(),
                self@ == self.runs@,
                run_position(self@, id@) == run_position(self@.subrange(0, i as int), id@),
            decreases i,
        {
            i -= 1;
            assert(self@.subrange(0, i as int + 1).drop_last() =~= self@.subrange(0, i as int));
            if text_eq(self.runs[i].id.as_str(), id) {
                return Some(i);
            }
        }
        None
    }

    /// Whether a record has this id.
    pub fn contains(&self, id: &str) -> (r: bool)
        ensures
            r == run_position(self@, id@) is Some,
    {
        self.find(id).is_some()
    }

    /// Adds a record as it stands. The id is the key of the log: a record
    /// whose id is already there is refused, and the log stays as it was.
    pub fn insert(&mut self, record: RunRecord) -> (r: Result<(), AppError>)
        requires
            old(self).wf(),
        ensures
            final(self).wf(),
            run_position(old(self)@, record.id@) is Some ==> r is Err && r->Err_0.kind
                == ErrorKind::Internal && r->Err_0.message@ == "Failed to persist run"@ && final(self)@ == old(self)@,
            run_position(old(self)@, record.id@) is None ==> r is Ok && final(self)@ == old(self)@.push(record),
    {
        if self.contains(record.id.as_str()) {
            return Err(AppError::internal("Failed to persist run"));
        }
        proof {
            lemma_run_position(self@, record.id@);
        }
        self.runs.push(record);
        Ok(())
    }

    /// Records a run that has ended, under the id that was drawn for it
    /// before it started, and stamps it with the time of the call.
    ///
    /// The record holds what was handed in; only its creation time comes
    /// from the clock. An id that is already in the log is refused.
    pub fn create(
        &mut self,
        id: String,
        sport: String,
        project: String,
        status: RunStatus,
        config: JsonValue,
        result_path: Option<String>,
        stdout_path: Option<String>,
        stderr_path: Option<String>,
        duration_ms: i64,
        sweep_id: Option<String>,
    ) -> (r: Result<String, AppError>)
        requires
            old(self).wf(),
        ensures
            final(self).wf(),
            run_position(old(self)@, id@) is Some ==> r is Err && r->Err_0.kind
                == ErrorKind::Internal && r->Err_0.message@ == "Failed to persist run"@ && final(self)@ == old(self)@,
            run_position(old(self)@, id@) is None ==> r is Ok && r->Ok_0 == id && final(self)@
                == old(self)@.push(
                    RunRecord {
                        id,
                        created_at: final(self)@.last().created_at,
                        sport,
                        project,
                        status,
                        config,
                        result_path,
                        stdout_path,
                        stderr_path,
                        duration_ms: Some(duration_ms),
                        sweep_id,
                    },
                ),
    {
        let created_at: i64 = clock_micros();
        let key: String = id.clone();
        let record = RunRecord {
            id,
            created_at,
            sport,
            project,
            status,
            config,
            result_path,
            stdout_path,
            stderr_path,
            duration_ms: Some(duration_ms),
            sweep_id,
        };
        match self.insert(record) {
            Ok(()) => Ok(key),
            Err(e) => Err(e),
        }
    }

    /// The record with this id; an id that no record has is not found.
    pub fn get(&self, id: &str) -> (r: Result<&RunRecord, AppError>)
        ensures
            match run_position(self@, id@) {
                Some(i) => r is Ok && 0 <= i < self@.len() && *r->Ok_0 == self@[i],
                None => r is Err && r->Err_0.kind == ErrorKind::NotFound && r->Err_0.message@
                    == "Run not found"@,
            },
    {
        match self.find(id) {
            Some(i) => Ok(&self.runs[i]),
            None => Err(AppError::not_found("Run not found")),
        }
    }

    /// The summaries of all records by creation time, most recent first.
    pub fn list(&self) -> (r: Vec<RunSummary>)
        ensures
            r@ == run_listing(self@),
    {
        let mut times: Vec<i64> = Vec::new();
        let mut i: usize = 0;
        while i < self.runs.len()
            invariant
                i <= self.runs.len(),
                self@ == self.runs@,
                times@.len() == i,
                forall|j: int| 0 <= j < i ==> times@[j] == self@[j].created_at,
            decreases self.runs.len() - i,
        {
            times.push(self.runs[i].created_at);
            i += 1;
        }
        assert(times@ =~= run_times(self@));
        let order: Vec<usize> = newest_first_order(&times);
        proof {
            crate::order::lemma_newest_first(times@, times@.len());
        }
        let mut out: Vec<RunSummary> = Vec::new();
        let mut k: usize = 0;
        while k < order.len()
            invariant
                k <= order.len(),
                self@ == self.runs@,
                order@.len() == self@.len(),
                positions(order@) == newest_first(run_times(self@), self@.len()),
                crate::order::names_each_once(positions(order@), self@.len()),
                out@.len() == k,
                forall|j: int| 0 <= j < k ==> out@[j] == run_listing(self@)[j],
            decreases order.len() - k,
        {
            assert(positions(order@)[k as int] == order@[k as int] as int);
            let run: &RunRecord = &self.runs[order[k]];
            out.push(
                RunSummary {
                    id: run.id.clone(),
                    created_at: run.created_at,
                    sport: run.sport.clone(),
                    project: run.project.clone(),
                    status: run.status,
                    duration_ms: run.duration_ms,
                    sweep_id: copy_text(&run.sweep_id),
                },
            );
            k += 1;
        }
        assert(out@ =~= run_listing(self@));
        out
    }
}

/// What a lookup answers for an id: the record that has it, or nothing.
pub open spec fn run_found(runs: Seq<RunRecord>, id: Seq<char>) -> Option<RunRecord> {
    match run_position(runs, id) {
        Some(i) => Some(runs[i]),
        None => None,
    }
}

/// A lookup is a read: what it answers depends on the log and the id
/// alone, so two lookups of one id with no write between them answer the
/// same. The record that is found has the id asked for, and it is the only
/// record of the log with that id.
pub proof fn lemma_get_idempotent(
    runs: Seq<RunRecord>,
    id: Seq<char>,
    first: Option<RunRecord>,
    second: Option<RunRecord>,
)
    requires
        distinct_run_ids(runs),
        first == run_found(runs, id),
        second == run_found(runs, id),
    ensures
        first == second,
        first matches Some(run) ==> run.id@ == id && forall|i: int|
            0 <= i < runs.len() && runs[i].id@ == id ==> runs[i] == run,
        first is None ==> forall|i: int| 0 <= i < runs.len() ==> runs[i].id@ != id,
{
    lemma_run_position(runs, id);
}

/// The log only grows: a record that is added under another id leaves
/// what a lookup answers as it was.
pub proof fn lemma_append_only(runs: Seq<RunRecord>, record: RunRecord, id: Seq<char>)
    requires
        record.id@ != id,
    ensures
        run_found(runs.push(record), id) == run_found(runs, id),
{
    assert(runs.push(record).drop_last() =~= runs);
    lemma_run_position(runs, id);
}

/// A listing is ordered by creation time, most recent first, and shows
/// every record exactly once.
pub proof fn lemma_listing_ordered(runs: Seq<RunRecord>)
    ensures
        run_listing(runs).len() == runs.len(),
        forall|i: int, j: int|
            0 <= i < j < runs.len() ==> run_listing(runs)[i].created_at >= run_listing(
                runs,
            )[j].created_at,
        forall|k: int|
            0 <= k < runs.len() ==> exists|i: int|
                0 <= i < runs.len() && run_listing(runs)[i] == summary_of(#[trigger] runs[k]),
{
    let times = run_times(runs);
    let order = newest_first(times, runs.len());
    crate::order::lemma_newest_first(times, runs.len());
    assert forall|i: int, j: int| 0 <= i < j < runs.len() implies run_listing(runs)[i].created_at
        >= run_listing(runs)[j].created_at by {
        assert(times[order[i]] >= times[order[j]]);
    }
    assert forall|k: int| 0 <= k < runs.len() implies exists|i: int|
        0 <= i < runs.len() && run_listing(runs)[i] == summary_of(#[trigger] runs[k]) by {
        assert(order.contains(k));
        let i = choose|i: int| 0 <= i < order.len() && order[i] == k;
        assert(run_listing(runs)[i] == summary_of(runs[k]));
    }
}

} // verus!
