//! The records of sweeps and the links from a sweep to its runs.

use crate::error::{AppError, ErrorKind};
use crate::json::JsonValue;
use crate::order::{newest_first, newest_first_order, positions};
use crate::outside::clock_micros;
use crate::text::text_eq;
use vstd::prelude::*;
use vstd::string::*;

verus! {

/// Where a sweep stands.
#[derive(Clone, Copy, Debug, PartialEq, Eq, Structural)]
pub enum SweepStatus {
    /// Recorded, with runs still to come.
    Running,
    /// Every run succeeded.
    Success,
    /// At least one run failed.
    Partial,
}

/// One recorded sweep. Its status is `Running` from its creation and is
/// set once more, when its last run has ended.
#[derive(Debug)]
pub struct SweepRecord {
    pub id: String,
    /// Microseconds since the start of 1970.
    pub created_at: i64,
    pub sport: String,
    pub project: String,
    /// The name of the parameter that varies.
    pub param: String,
    /// The values that it takes, in the order in which they were handed in.
    pub values: Vec<JsonValue>,
    /// The frozen configuration that all runs share.
    pub base_config: JsonValue,
    pub status: SweepStatus,
}

/// The link from a sweep to one of its runs, with the value that the run
/// was given, as text.
#[derive(Debug)]
pub struct SweepRunLink {
    pub sweep_id: String,
    pub run_id: String,
    pub param_value: String,
}

/// The sweeps recorded so far and the links to their runs, each in the
/// order in which they were recorded.
pub struct SweepStore {
    sweeps: Vec<SweepRecord>,
    links: Vec<SweepRunLink>,
}

/// The word under which a status is stored and shown.
pub open spec fn sweep_status_word(status: SweepStatus) -> Seq<char> {
    match status {
        SweepStatus::Running => "running"@,
        SweepStatus::Success => "success"@,
        SweepStatus::Partial => "partial"@,
    }
}

/// The status of a sweep whose runs have all ended: `Partial` where at
/// least one of them failed, else `Success`.
pub open spec fn final_status(any_failed: bool) -> SweepStatus {
    if any_failed {
        SweepStatus::Partial
    } else {
        SweepStatus::Success
    }
}

/// The position of the sweep with this id, if there is one.
pub open spec fn sweep_position(sweeps: Seq<SweepRecord>, id: Seq<char>) -> Option<int>
    decreases sweeps.len(),
{
    if sweeps.len() == 0 {
        None
    } else if sweeps.last().id@ == id {
        Some(sweeps.len() - 1)
    } else {
        sweep_position(sweeps.drop_last(), id)
    }
}

/// The position of the link from this sweep to this run, if there is one.
pub open spec fn link_position(links: Seq<SweepRunLink>, sweep_id: Seq<char>, run_id: Seq<char>) -> Option<
    int,
>
    decreases links.len(),
{
    if links.len() == 0 {
        None
    } else if links.last().sweep_id@ == sweep_id && links.last().run_id@ == run_id {
        Some(links.len() - 1)
    } else {
        link_position(links.drop_last(), sweep_id, run_id)
    }
}

/// The links of one sweep, in the order in which they were recorded.
pub open spec fn links_of_sweep(links: Seq<SweepRunLink>, sweep_id: Seq<char>) -> Seq<SweepRunLink>
    decreases links.len(),
{
    if links.len() == 0 {
        Seq::empty()
    } else if links.last().sweep_id@ == sweep_id {
        links_of_sweep(links.drop_last(), sweep_id).push(links.last())
    } else {
        links_of_sweep(links.drop_last(), sweep_id)
    }
}

/// Whether no two sweeps share an id.
pub open spec fn distinct_sweep_ids(sweeps: Seq<SweepRecord>) -> bool {
    forall|i: int, j: int| 0 <= i < j < sweeps.len() ==> sweeps[i].id@ != sweeps[j].id@
}

/// Whether no two links join the same sweep to the same run.
pub open spec fn distinct_link_keys(links: Seq<SweepRunLink>) -> bool {
    forall|i: int, j: int|
        0 <= i < j < links.len() ==> !(links[i].sweep_id@ == links[j].sweep_id@ && links[i].run_id@
            == links[j].run_id@)
}

/// Whether every link belongs to a recorded sweep.
pub open spec fn links_have_sweeps(sweeps: Seq<SweepRecord>, links: Seq<SweepRunLink>) -> bool {
    forall|i: int| 0 <= i < links.len() ==> sweep_position(sweeps, (#[trigger] links[i]).sweep_id@) is Some
}

/// The creation times of the sweeps, in their order.
pub open spec fn sweep_times(sweeps: Seq<SweepRecord>) -> Seq<i64> {
    Seq::new(sweeps.len(), |i: int| sweeps[i].created_at)
}

/// The listing of the sweeps: by creation time, most recent first.
pub open spec fn sweep_listing(sweeps: Seq<SweepRecord>) -> Seq<SweepRecord> {
    Seq::new(sweeps.len(), |i: int| sweeps[newest_first(sweep_times(sweeps), sweeps.len())[i]])
}

/// The sweeps after the sweep `id` has been given its final status, or
/// `None` where that cannot be done: the sweep is unknown, or its status
/// has been set before.
pub open spec fn finalized(sweeps: Seq<SweepRecord>, id: Seq<char>, any_failed: bool) -> Option<
    Seq<SweepRecord>,
> {
    match sweep_position(sweeps, id) {
        Some(i) => if sweeps[i].status == SweepStatus::Running {
            Some(sweeps.update(i, SweepRecord { status: final_status(any_failed), ..sweeps[i] }))
        } else {
            None
        },
        None => None,
    }
}

/// The position found for an id holds a sweep with that id, and where none
/// is found no sweep has it.
pub proof fn lemma_sweep_position(sweeps: Seq<SweepRecord>, id: Seq<char>)
    ensures
        match sweep_position(sweeps, id) {
            Some(i) => 0 <= i < sweeps.len() && sweeps[i].id@ == id,
            None => forall|i: int| 0 <= i < sweeps.len() ==> sweeps[i].id@ != id,
        },
    decreases sweeps.len(),
{
    if sweeps.len() > 0 && sweeps.last().id@ != id {
        lemma_sweep_position(sweeps.drop_last(), id);
        if sweep_position(sweeps, id) is None {
            assert forall|i: int| 0 <= i < sweeps.len() implies sweeps[i].id@ != id by {
                if i < sweeps.len() - 1 {
                    assert(sweeps.drop_last()[i] == sweeps[i]);
                }
            }
        }
    }
}

/// Whether a sweep is found depends on the ids alone.
pub proof fn lemma_sweep_position_by_ids(a: Seq<SweepRecord>, b: Seq<SweepRecord>, id: Seq<char>)
    requires
        a.len() == b.len(),
        forall|i: int| 0 <= i < a.len() ==> a[i].id == b[i].id,
    ensures
        sweep_position(a, id) == sweep_position(b, id),
    decreases a.len(),
{
    if a.len() > 0 {
        assert(a.last().id == b.last().id);
        assert forall|i: int| 0 <= i < a.drop_last().len() implies a.drop_last()[i].id
            == b.drop_last()[i].id by {
            assert(a.drop_last()[i] == a[i]);
            assert(b.drop_last()[i] == b[i]);
        }
        lemma_sweep_position_by_ids(a.drop_last(), b.drop_last(), id);
    }
}

/// A sweep that is found among some sweeps is found when more are added.
pub proof fn lemma_sweep_position_push(sweeps: Seq<SweepRecord>, more: SweepRecord, id: Seq<char>)
    requires
        sweep_position(sweeps, id) is Some,
    ensures
        sweep_position(sweeps.push(more), id) is Some,
{
    assert(sweeps.push(more).drop_last() =~= sweeps);
}

/// The position found for a key holds a link with that key, and where none
/// is found no link has it.
pub proof fn lemma_link_position(links: Seq<SweepRunLink>, sweep_id: Seq<char>, run_id: Seq<char>)
    ensures
        match link_position(links, sweep_id, run_id) {
            Some(i) => 0 <= i < links.len() && links[i].sweep_id@ == sweep_id && links[i].run_id@
                == run_id,
            None => forall|i: int|
                0 <= i < links.len() ==> !(links[i].sweep_id@ == sweep_id && links[i].run_id@
                    == run_id),
        },
    decreases links.len(),
{
    if links.len() > 0 && !(links.last().sweep_id@ == sweep_id && links.last().run_id@ == run_id) {
        lemma_link_position(links.drop_last(), sweep_id, run_id);
        if link_position(links, sweep_id, run_id) is None {
            assert forall|i: int| 0 <= i < links.len() implies !(links[i].sweep_id@ == sweep_id
                && links[i].run_id@ == run_id) by {
                if i < links.len() - 1 {
                    assert(links.drop_last()[i] == links[i]);
                }
            }
        }
    }
}

/// A sweep that no link belongs to has no links.
pub proof fn lemma_no_links(links: Seq<SweepRunLink>, sweep_id: Seq<char>)
    requires
        forall|i: int| 0 <= i < links.len() ==> links[i].sweep_id@ != sweep_id,
    ensures
        links_of_sweep(links, sweep_id).len() == 0,
    decreases links.len(),
{
    if links.len() > 0 {
        assert forall|i: int| 0 <= i < links.drop_last().len() implies links.drop_last()[i].sweep_id@
            != sweep_id by {
            assert(links.drop_last()[i] == links[i]);
        }
        lemma_no_links(links.drop_last(), sweep_id);
    }
}

impl SweepStatus {
    /// The word under which the status is stored and shown.
    pub fn as_str(&self) -> (r: &'static str)
        ensures
            r@ == sweep_status_word(*self),
    {
        match self {
            SweepStatus::Running => "running",
            SweepStatus::Success => "success",
            SweepStatus::Partial => "partial",
        }
    }
}

impl SweepStore {
    /// The sweeps, in the order in which they were recorded.
    pub closed spec fn sweeps(&self) -> Seq<SweepRecord> {
        self.sweeps@
    }

    /// The links, in the order in which they were recorded.
    pub closed spec fn links(&self) -> Seq<SweepRunLink> {
        self.links@
    }

    /// No two sweeps share an id, no two links share a key, and every link
    /// belongs to a recorded sweep.
    pub open spec fn wf(&self) -> bool {
        &&& distinct_sweep_ids(self.sweeps())
        &&& distinct_link_keys(self.links())
        &&& links_have_sweeps(self.sweeps(), self.links())
    }

    /// A store without sweeps.
    pub fn new() -> (r: SweepStore)
        ensures
            r.sweeps() == Seq::<SweepRecord>::empty(),
            r.links() == Seq::<SweepRunLink>::empty(),
            r.wf(),
    {
        SweepStore { sweeps: Vec::new(), links: Vec::new() }
    }

    /// The position of the sweep with this id.
    fn find(&self, id: &str) -> (r: Option<usize>)
        ensures
            match r {
                Some(i) => sweep_position(self.sweeps(), id@) == Some(i as int) && i
                    < self.sweeps().len(),
                None => sweep_position(self.sweeps(), id@) is None,
            },
    {
        let ghost all = self.sweeps();
        let mut i: usize = self.sweeps.len();
        assert(all.subrange(0, i as int) =~= all);
        while i > 0
            invariant
                i <= self.sweeps.len(),
                all == self.sweeps@,
                sweep_position(all, id@) == sweep_position(all.subrange(0, i as int), id@),
            decreases i,
        {
            i -= 1;
            assert(all.subrange(0, i as int + 1).drop_last() =~= all.subrange(0, i as int));
            if text_eq(self.sweeps[i].id.as_str(), id) {
                return Some(i);
            }
        }
        None
    }

    /// Whether the sweep is linked to the run.
    fn find_link(&self, sweep_id: &str, run_id: &str) -> (r: bool)
        ensures
            r == link_position(self.links(), sweep_id@, run_id@) is Some,
    {
        let ghost all = self.links();
        let mut i: usize = self.links.len();
        assert(all.subrange(0, i as int) =~= all);
        while i > 0
            invariant
                i <= self.links.len(),
                all == self.links@,
                link_position(all, sweep_id@, run_id@) == link_position(
                    all.subrange(0, i as int),
                    sweep_id@,
                    run_id@,
                ),
            decreases i,
        {
            i -= 1;
            assert(all.subrange(0, i as int + 1).drop_last() =~= all.subrange(0, i as int));
            if text_eq(self.links[i].sweep_id.as_str(), sweep_id) && text_eq(
                self.links[i].run_id.as_str(),
                run_id,
            ) {
                return true;
            }
        }
        false
    }

    /// Whether a sweep has this id.
    pub fn contains(&self, id: &str) -> (r: bool)
        ensures
            r == sweep_position(self.sweeps(), id@) is Some,
    {
        self.find(id).is_some()
    }

    /// Adds a sweep as it stands. A sweep whose id is already there is
    /// refused, and the store stays as it was.
    pub fn insert(&mut self, record: SweepRecord) -> (r: Result<(), AppError>)
        requires
            old(self).wf(),
        ensures
            final(self).wf(),
            final(self).links() == old(self).links(),
            sweep_position(old(self).sweeps(), record.id@) is Some ==> r is Err && r->Err_0.kind
                == ErrorKind::Internal && r->Err_0.message@ == "Failed to create sweep"@
                && final(self).sweeps() == old(self).sweeps(),
            sweep_position(old(self).sweeps(), record.id@) is None ==> r is Ok && final(
                self).sweeps() == old(self).sweeps().push(record),
    {
        if self.contains(record.id.as_str()) {
            return Err(AppError::internal("Failed to create sweep"));
        }
        proof {
            lemma_sweep_position(self.sweeps(), record.id@);
            assert forall|i: int| 0 <= i < self.links().len() implies sweep_position(
                self.sweeps().push(record),
                (#[trigger] self.links()[i]).sweep_id@,
            ) is Some by {
                lemma_sweep_position_push(self.sweeps(), record, self.links()[i].sweep_id@);
            }
        }
        self.sweeps.push(record);
        Ok(())
    }

    /// Records a sweep that is about to start, with status `Running`, and
    /// stamps it with the time of the call. An id that is already in the
    /// store is refused.
    pub fn create(
        &mut self,
        id: String,
        sport: String,
        project: String,
        param: String,
        values: Vec<JsonValue>,
        base_config: JsonValue,
    ) -> (r: Result<String, AppError>)
        requires
            old(self).wf(),
        ensures
            final(self).wf(),
            final(self).links() == old(self).links(),
            sweep_position(old(self).sweeps(), id@) is Some ==> r is Err && r->Err_0.kind
                == ErrorKind::Internal && r->Err_0.message@ == "Failed to create sweep"@
                && final(self).sweeps() == old(self).sweeps(),
            sweep_position(old(self).sweeps(), id@) is None ==> r is Ok && r->Ok_0 == id
                && final(self).sweeps() == old(self).sweeps().push(
                    SweepRecord {
                        id,
                        created_at: final(self).sweeps().last().created_at,
                        sport,
                        project,
                        param,
                        values,
                        base_config,
                        status: SweepStatus::Running,
                    },
                ),
    {
        let created_at: i64 = clock_micros();
        let key: String = id.clone();
        let record = SweepRecord {
            id,
            created_at,
            sport,
            project,
            param,
            values,
            base_config,
            status: SweepStatus::Running,
        };
        match self.insert(record) {
            Ok(()) => Ok(key),
            Err(e) => Err(e),
        }
    }

    /// Gives a running sweep its final status: `Partial` where a run
    /// failed, else `Success`. This is the only change that a sweep ever
    /// undergoes, and it is made once: a sweep that is unknown, or whose
    /// status has been set before, is refused and the store stays as it was.
    pub fn finalize(&mut self, id: &str, any_failed: bool) -> (r: Result<SweepStatus, AppError>)
        requires
            old(self).wf(),
        ensures
            final(self).wf(),
            final(self).links() == old(self).links(),
            match finalized(old(self).sweeps(), id@, any_failed) {
                Some(after) => r is Ok && r->Ok_0 == final_status(any_failed) && final(
                    self).sweeps() == after,
                None => r is Err && r->Err_0.kind == ErrorKind::Internal && r->Err_0.message@
                    == "Failed to finalize sweep"@ && final(self).sweeps() == old(self).sweeps(),
            },
    {
        let status: SweepStatus = if any_failed {
            SweepStatus::Partial
        } else {
            SweepStatus::Success
        };
        match self.find(id) {
            Some(i) => {
                if self.sweeps[i].status == SweepStatus::Running {
                    let ghost before = self.sweeps();
                    let record: SweepRecord = self.sweeps.remove(i);
                    let updated = SweepRecord { status, ..record };
                    self.sweeps.insert(i, updated);
                    proof {
                        let after = self.sweeps();
                        assert(after =~= before.update(i as int, updated));
                        assert forall|a: int, b: int| 0 <= a < b < after.len() implies after[a].id@
                            != after[b].id@ by {
                            assert(after[a].id == before[a].id);
                            assert(after[b].id == before[b].id);
                        }
                        assert forall|k: int| 0 <= k < self.links().len() implies sweep_position(
                            after,
                            (#[trigger] self.links()[k]).sweep_id@,
                        ) is Some by {
                            lemma_sweep_position_by_ids(before, after, self.links()[k].sweep_id@);
                        }
                    }
                    Ok(status)
                } else {
                    Err(AppError::internal("Failed to finalize sweep"))
                }
            },
            None => Err(AppError::internal("Failed to finalize sweep")),
        }
    }

    /// Links a sweep to one of its runs. A link is made once and never
    /// changed: a second link between the same two is refused, and so is a
    /// link from a sweep that is not recorded.
    pub fn add_link(&mut self, sweep_id: String, run_id: String, param_value: String) -> (r: Result<
        (),
        AppError,
    >)
        requires
            old(self).wf(),
        ensures
            final(self).wf(),
            final(self).sweeps() == old(self).sweeps(),
            sweep_position(old(self).sweeps(), sweep_id@) is Some && link_position(
                old(self).links(),
                sweep_id@,
                run_id@,
            ) is None ==> r is Ok && final(self).links() == old(self).links().push(
                SweepRunLink { sweep_id, run_id, param_value },
            ),
            !(sweep_position(old(self).sweeps(), sweep_id@) is Some && link_position(
                old(self).links(),
                sweep_id@,
                run_id@,
            ) is None) ==> r is Err && r->Err_0.kind == ErrorKind::Internal && r->Err_0.message@
                == "Failed to persist sweep run"@ && final(self).links() == old(self).links(),
    {
        if !self.contains(sweep_id.as_str()) || self.find_link(sweep_id.as_str(), run_id.as_str()) {
            return Err(AppError::internal("Failed to persist sweep run"));
        }
        proof {
            lemma_link_position(self.links(), sweep_id@, run_id@);
        }
        self.links.push(SweepRunLink { sweep_id, run_id, param_value });
        Ok(())
    }

    /// The sweep with this id; an id that no sweep has is not found.
    pub fn get(&self, id: &str) -> (r: Result<&SweepRecord, AppError>)
        ensures
            match sweep_position(self.sweeps(), id@) {
                Some(i) => r is Ok && 0 <= i < self.sweeps().len() && *r->Ok_0 == self.sweeps()[i],
                None => r is Err && r->Err_0.kind == ErrorKind::NotFound && r->Err_0.message@
                    == "Sweep not found"@,
            },
    {
        match self.find(id) {
            Some(i) => Ok(&self.sweeps[i]),
            None => Err(AppError::not_found("Sweep not found")),
        }
    }

    /// All sweeps by creation time, most recent first.
    pub fn list(&self) -> (r: Vec<&SweepRecord>)
        ensures
            r@.len() == self.sweeps().len(),
            forall|i: int| 0 <= i < r@.len() ==> *r@[i] == sweep_listing(self.sweeps())[i],
    {
        let ghost all = self.sweeps();
        let mut times: Vec<i64> = Vec::new();
        let mut i: usize = 0;
        while i < self.sweeps.len()
            invariant
                i <= self.sweeps.len(),
                all == self.sweeps@,
                times@.len() == i,
                forall|j: int| 0 <= j < i ==> times@[j] == all[j].created_at,
            decreases self.sweeps.len() - i,
        {
            times.push(self.sweeps[i].created_at);
            i += 1;
        }
        assert(times@ =~= sweep_times(all));
        let order: Vec<usize> = newest_first_order(&times);
        proof {
            crate::order::lemma_newest_first(times@, times@.len());
        }
        let mut out: Vec<&SweepRecord> = Vec::new();
        let mut k: usize = 0;
        while k < order.len()
            invariant
                k <= order.len(),
                all == self.sweeps@,
                order@.len() == all.len(),
                positions(order@) == newest_first(sweep_times(all), all.len()),
                crate::order::names_each_once(positions(order@), all.len()),
                out@.len() == k,
                forall|j: int| 0 <= j < k ==> *out@[j] == sweep_listing(all)[j],
            decreases order.len() - k,
        {
            assert(positions(order@)[k as int] == order@[k as int] as int);
            out.push(&self.sweeps[order[k]]);
            k += 1;
        }
        out
    }

    /// The links of one sweep, in the order in which they were recorded.
    pub fn links_of(&self, sweep_id: &str) -> (r: Vec<&SweepRunLink>)
        ensures
            r@.len() == links_of_sweep(self.links(), sweep_id@).len(),
            forall|i: int| 0 <= i < r@.len() ==> *r@[i] == links_of_sweep(self.links(), sweep_id@)[i],
    {
        let ghost all = self.links();
        let mut out: Vec<&SweepRunLink> = Vec::new();
        let mut i: usize = 0;
        assert(all.subrange(0, 0) =~= Seq::<SweepRunLink>::empty());
        while i < self.links.len()
            invariant
                i <= self.links.len(),
                all == self.links@,
                out@.len() == links_of_sweep(all.subrange(0, i as int), sweep_id@).len(),
                forall|j: int|
                    0 <= j < out@.len() ==> *out@[j] == links_of_sweep(
                        all.subrange(0, i as int),
                        sweep_id@,
                    )[j],
            decreases self.links.len() - i,
        {
            assert(all.subrange(0, i as int + 1).drop_last() =~= all.subrange(0, i as int));
            assert(all.subrange(0, i as int + 1).last() == all[i as int]);
            if text_eq(self.links[i].sweep_id.as_str(), sweep_id) {
                out.push(&self.links[i]);
            }
            i += 1;
        }
        assert(all.subrange(0, i as int) =~= all);
        out
    }
}

/// A listing of sweeps is ordered by creation time, most recent first, and
/// shows every sweep exactly once.
pub proof fn lemma_sweep_listing_ordered(sweeps: Seq<SweepRecord>)
    ensures
        sweep_listing(sweeps).len() == sweeps.len(),
        forall|i: int, j: int|
            0 <= i < j < sweeps.len() ==> sweep_listing(sweeps)[i].created_at >= sweep_listing(
                sweeps,
            )[j].created_at,
        forall|k: int|
            0 <= k < sweeps.len() ==> exists|i: int|
                0 <= i < sweeps.len() && sweep_listing(sweeps)[i] == #[trigger] sweeps[k],
{
    let times = sweep_times(sweeps);
    let order = newest_first(times, sweeps.len());
    crate::order::lemma_newest_first(times, sweeps.len());
    assert forall|i: int, j: int| 0 <= i < j < sweeps.len() implies sweep_listing(
        sweeps,
    )[i].created_at >= sweep_listing(sweeps)[j].created_at by {
        assert(times[order[i]] >= times[order[j]]);
    }
    assert forall|k: int| 0 <= k < sweeps.len() implies exists|i: int|
        0 <= i < sweeps.len() && sweep_listing(sweeps)[i] == #[trigger] sweeps[k] by {
        assert(order.contains(k));
        let i = choose|i: int| 0 <= i < order.len() && order[i] == k;
        assert(sweep_listing(sweeps)[i] == sweeps[k]);
    }
}

/// The final status of a sweep is set once: after it has been set, a
/// second attempt is refused.
pub proof fn lemma_finalized_once(
    sweeps: Seq<SweepRecord>,
    id: Seq<char>,
    first: bool,
    second: bool,
)
    requires
        finalized(sweeps, id, first) is Some,
    ensures
        finalized(finalized(sweeps, id, first)->0, id, second) is None,
        sweep_position(sweeps, id) matches Some(i) && finalized(sweeps, id, first)->0[i].status
            == final_status(first) && finalized(sweeps, id, first)->0[i].status
            != SweepStatus::Running,
{
    lemma_sweep_position(sweeps, id);
    let after = finalized(sweeps, id, first)->0;
    lemma_sweep_position_by_ids(sweeps, after, id);
}

} // verus!
