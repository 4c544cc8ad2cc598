//! A sweep: many runs that differ in one parameter, run one after the
//! other, with one aggregate status.
//!
//! The coordinator decides; the caller runs each planned child and reports
//! how it ended. A child that fails does not stop those that follow.

use crate::error::{AppError, ErrorKind};
use crate::json::{fields_view, items_view, lookup, Json, JsonValue};
use crate::outside::random_id;
use crate::project::ProjectInfo;
use crate::run::{
    copy_fields, lays_out, object, param_text, param_text_of, plan_with, record_of, record_run,
    well_formed_id, RunPlan,
};
use crate::store::{lemma_run_position, run_position, status_of_outcome, RunRecord, RunStore};
use crate::sweep_store::{
    final_status, finalized, lemma_sweep_position, link_position, links_of_sweep, sweep_position,
    SweepRecord, SweepRunLink, SweepStatus, SweepStore,
};
use crate::text::text_eq;
use vstd::prelude::*;
use vstd::string::*;

verus! {

/// A request for a sweep.
#[derive(Debug)]
pub struct SweepRequest {
    pub sport: String,
    pub project: String,
    /// The parameters that all runs share.
    pub base_params: Vec<(String, JsonValue)>,
    /// The name of the parameter that varies.
    pub param: String,
    /// The values that it takes, in order.
    pub values: Vec<JsonValue>,
}

/// What is answered to a request for a sweep: the sweep and its runs, in
/// the order of the values.
#[derive(Debug)]
pub struct SweepResponse {
    pub sweep_id: String,
    pub run_ids: Vec<String>,
}

/// A sweep under way: the request, and for each child that has ended its
/// run's id and whether it succeeded.
#[derive(Debug)]
pub struct SweepCoordinator {
    pub sweep_id: String,
    pub request: SweepRequest,
    pub run_ids: Vec<String>,
    pub outcomes: Vec<bool>,
}

/// The frozen configuration that the runs of a sweep share.
pub open spec fn base_config_of(request: SweepRequest) -> Json {
    Json::Object(
        seq![
            ("sport"@, Json::Text(request.sport@)),
            ("project"@, Json::Text(request.project@)),
            ("params"@, Json::Object(fields_view(request.base_params@))),
        ],
    )
}

/// The parameters of the child for the value at position `i`: the shared
/// ones with the value under the varied name, which overrides a shared
/// parameter of that name.
pub open spec fn child_params(request: SweepRequest, i: int) -> Seq<(Seq<char>, Json)> {
    fields_view(request.base_params@).push((request.param@, request.values@[i]@))
}

/// The frozen configuration of the child for the value at position `i`.
pub open spec fn child_config_of(request: SweepRequest, sweep_id: Seq<char>, i: int) -> Json {
    Json::Object(
        seq![
            ("sport"@, Json::Text(request.sport@)),
            ("project"@, Json::Text(request.project@)),
            ("params"@, Json::Object(child_params(request, i))),
            ("sweep_id"@, Json::Text(sweep_id)),
        ],
    )
}

/// Whether a record is that of the sweep of a request as it starts.
pub open spec fn opens_sweep(
    record: SweepRecord,
    sweep_id: Seq<char>,
    project: ProjectInfo,
    request: SweepRequest,
) -> bool {
    &&& record.id@ == sweep_id
    &&& record.sport == project.sport
    &&& record.project == project.name
    &&& record.param == request.param
    &&& items_view(record.values@) == items_view(request.values@)
    &&& record.base_config@ == base_config_of(request)
    &&& record.status == SweepStatus::Running
}

impl SweepCoordinator {
    /// As many children have ended as outcomes are known, and no more than
    /// there are values.
    pub open spec fn wf(&self) -> bool {
        self.run_ids@.len() == self.outcomes@.len() && self.outcomes@.len()
            <= self.request.values@.len()
    }

    /// The number of children that have ended.
    pub open spec fn done(&self) -> int {
        self.outcomes@.len() as int
    }

    /// Whether a child failed.
    pub open spec fn any_failed(&self) -> bool {
        self.outcomes@.contains(false)
    }

    /// Whether the store holds the sweep as running.
    pub open spec fn running_in(&self, sweeps: SweepStore) -> bool {
        sweep_position(sweeps.sweeps(), self.sweep_id@) matches Some(i)
            && sweeps.sweeps()[i].status == SweepStatus::Running
    }

    /// Whether the links of the sweep are those of the children that have
    /// ended: one each, in the order of the values, each with its run and
    /// the text of its value.
    pub open spec fn links_in_step(&self, sweeps: SweepStore) -> bool {
        let links = links_of_sweep(sweeps.links(), self.sweep_id@);
        &&& links.len() == self.run_ids@.len()
        &&& forall|k: int|
            0 <= k < links.len() ==> (#[trigger] links[k]).run_id@ == self.run_ids@[k]@
                && links[k].param_value@ == param_text_of(self.request.values@[k]@)
    }

    /// Whether the store holds this sweep as the coordinator left it: the
    /// sweep is running, and its links are those of the children that have
    /// ended.
    pub open spec fn in_step_with(&self, sweeps: SweepStore) -> bool {
        self.running_in(sweeps) && self.links_in_step(sweeps)
    }

    /// Whether the log holds the run of every child that has ended: under
    /// the child's run id a record that is tagged with the sweep and whose
    /// status is that of the child's outcome.
    pub open spec fn children_recorded(&self, runs: Seq<RunRecord>) -> bool {
        forall|k: int|
            0 <= k < self.run_ids@.len() ==> {
                &&& run_position(runs, (#[trigger] self.run_ids@[k])@) is Some
                &&& runs[run_position(runs, self.run_ids@[k]@)->0].status == status_of_outcome(
                    self.outcomes@[k],
                )
                &&& runs[run_position(runs, self.run_ids@[k]@)->0].sweep_id == Some(self.sweep_id)
            }
    }

    /// Whether the coordinator is sound and the store holds its sweep as it
    /// left it.
    pub fn is_in_step(&self, sweeps: &SweepStore) -> (r: bool)
        ensures
            r == (self.wf() && self.in_step_with(*sweeps)),
    {
        if self.run_ids.len() != self.outcomes.len() || self.outcomes.len()
            > self.request.values.len() {
            return false;
        }
        match sweeps.get(self.sweep_id.as_str()) {
            Ok(record) => {
                if record.status != SweepStatus::Running {
                    return false;
                }
            },
            Err(_) => {
                return false;
            },
        }
        let links: Vec<&SweepRunLink> = sweeps.links_of(self.sweep_id.as_str());
        let ghost mine = links_of_sweep(sweeps.links(), self.sweep_id@);
        if links.len() != self.run_ids.len() {
            return false;
        }
        let mut k: usize = 0;
        while k < links.len()
            invariant
                k <= links.len(),
                self.wf(),
                mine == links_of_sweep(sweeps.links(), self.sweep_id@),
                sweep_position(sweeps.sweeps(), self.sweep_id@) matches Some(i)
                    && sweeps.sweeps()[i].status == SweepStatus::Running,
                links@.len() == mine.len(),
                mine.len() == self.run_ids@.len(),
                forall|j: int| 0 <= j < links@.len() ==> *links@[j] == mine[j],
                forall|j: int|
                    0 <= j < k ==> (#[trigger] mine[j]).run_id@ == self.run_ids@[j]@
                        && mine[j].param_value@ == param_text_of(self.request.values@[j]@),
            decreases links.len() - k,
        {
            let link: &SweepRunLink = links[k];
            let value_text: String = param_text(&self.request.values[k]);
            if !text_eq(link.run_id.as_str(), self.run_ids[k].as_str()) || !text_eq(
                link.param_value.as_str(),
                value_text.as_str(),
            ) {
                assert(!(mine[k as int].run_id@ == self.run_ids@[k as int]@
                    && mine[k as int].param_value@ == param_text_of(
                    self.request.values@[k as int]@,
                )));
                return false;
            }
            k += 1;
        }
        true
    }

    /// Starts the sweep `sweep_id`: records it as running, before any of
    /// its children runs. An id that is already in the store is refused.
    pub fn begin_with(
        sweep_id: String,
        sweeps: &mut SweepStore,
        project: &ProjectInfo,
        request: SweepRequest,
    ) -> (r: Result<SweepCoordinator, AppError>)
        requires
            old(sweeps).wf(),
        ensures
            final(sweeps).wf(),
            final(sweeps).links() == old(sweeps).links(),
            sweep_position(old(sweeps).sweeps(), sweep_id@) is Some ==> r is Err && r->Err_0.kind
                == ErrorKind::Internal && r->Err_0.message@ == "Failed to create sweep"@
                && final(sweeps).sweeps() == old(sweeps).sweeps(),
            sweep_position(old(sweeps).sweeps(), sweep_id@) is None ==> r is Ok && r->Ok_0.sweep_id
                == sweep_id && r->Ok_0.request == request && r->Ok_0.done() == 0 && r->Ok_0.wf()
                && r->Ok_0.in_step_with(*final(sweeps)) && final(sweeps).sweeps().len() == old(
                sweeps).sweeps().len() + 1 && final(sweeps).sweeps().drop_last() == old(
                sweeps).sweeps() && opens_sweep(
                final(sweeps).sweeps().last(),
                sweep_id@,
                *project,
                request,
            ),
    {
        let mut base: Vec<(String, JsonValue)> = Vec::new();
        base.push(("sport".to_string(), JsonValue::Text(request.sport.clone())));
        base.push(("project".to_string(), JsonValue::Text(request.project.clone())));
        base.push(("params".to_string(), object(copy_fields(&request.base_params))));
        let base_config: JsonValue = object(base);
        assert(base_config@->Object_0 =~= base_config_of(request)->Object_0);
        let mut values: Vec<JsonValue> = Vec::new();
        let mut i: usize = 0;
        while i < request.values.len()
            invariant
                i <= request.values.len(),
                values@.len() == i,
                forall|j: int| 0 <= j < i ==> values@[j]@ == request.values@[j]@,
            decreases request.values.len() - i,
        {
            values.push(request.values[i].duplicate());
            i += 1;
        }
        assert(items_view(values@) =~= items_view(request.values@));
        let ghost before = *sweeps;
        match sweeps.create(
            sweep_id.clone(),
            project.sport.clone(),
            project.name.clone(),
            request.param.clone(),
            values,
            base_config,
        ) {
            Ok(_) => {
                let coordinator = SweepCoordinator {
                    sweep_id,
                    request,
                    run_ids: Vec::new(),
                    outcomes: Vec::new(),
                };
                proof {
                    let all = sweeps.sweeps();
                    assert(all.drop_last() =~= before.sweeps());
                    lemma_sweep_position(before.sweeps(), sweep_id@);
                    assert forall|k: int| 0 <= k < sweeps.links().len() implies sweeps.links()[k].sweep_id@
                        != sweep_id@ by {
                        let owner = sweeps.links()[k].sweep_id@;
                        assert(sweep_position(before.sweeps(), owner) is Some);
                    }
                    crate::sweep_store::lemma_no_links(sweeps.links(), sweep_id@);
                    assert(sweep_position(all, sweep_id@) == Some(all.len() - 1));
                }
                Ok(coordinator)
            },
            Err(e) => Err(e),
        }
    }

    /// Starts a sweep under a newly drawn id: records it as running, before
    /// any of its children runs.
    ///
    /// The sweep is started wherever the drawn id is not taken; it is so
    /// whatever is drawn where the store holds no sweep under an id of the
    /// form in which ids are drawn.
    pub fn begin(sweeps: &mut SweepStore, project: &ProjectInfo, request: SweepRequest) -> (r:
        Result<SweepCoordinator, AppError>)
        requires
            old(sweeps).wf(),
        ensures
            final(sweeps).wf(),
            final(sweeps).links() == old(sweeps).links(),
            (forall|id: Seq<char>| #[trigger]
                well_formed_id(id) ==> sweep_position(old(sweeps).sweeps(), id) is None) ==> r
                is Ok,
            r is Err ==> r->Err_0.kind == ErrorKind::Internal && r->Err_0.message@
                == "Failed to create sweep"@ && final(sweeps).sweeps() == old(sweeps).sweeps(),
            r is Ok ==> well_formed_id(r->Ok_0.sweep_id@) && sweep_position(
                old(sweeps).sweeps(),
                r->Ok_0.sweep_id@,
            ) is None && r->Ok_0.request == request && r->Ok_0.done() == 0 && r->Ok_0.wf()
                && r->Ok_0.in_step_with(*final(sweeps)) && final(sweeps).sweeps().len() == old(
                sweeps).sweeps().len() + 1 && final(sweeps).sweeps().drop_last() == old(
                sweeps).sweeps() && opens_sweep(
                final(sweeps).sweeps().last(),
                r->Ok_0.sweep_id@,
                *project,
                request,
            ),
    {
        let sweep_id: String = random_id();
        assert(well_formed_id(sweep_id@));
        SweepCoordinator::begin_with(sweep_id, sweeps, project, request)
    }

    /// The number of children that have not ended yet.
    pub fn remaining(&self) -> (n: usize)
        ensures
            n == if self.done() < self.request.values@.len() {
                self.request.values@.len() - self.done()
            } else {
                0
            },
    {
        if self.outcomes.len() < self.request.values.len() {
            self.request.values.len() - self.outcomes.len()
        } else {
            0
        }
    }

    /// Plans the next child under the run id `run_id`, if a child is left:
    /// the child for the first value that has no outcome yet.
    pub fn next_run_with(&self, run_id: String, data_dir: &str) -> (r: Option<RunPlan>)
        ensures
            self.done() >= self.request.values@.len() ==> r is None,
            self.done() < self.request.values@.len() ==> r is Some && r->0.run_id == run_id
                && lays_out(r->0, data_dir@) && r->0.config@ == child_config_of(
                self.request,
                self.sweep_id@,
                self.done(),
            ),
    {
        let i: usize = self.outcomes.len();
        if i >= self.request.values.len() {
            return None;
        }
        let mut params: Vec<(String, JsonValue)> = copy_fields(&self.request.base_params);
        params.push((self.request.param.clone(), self.request.values[i].duplicate()));
        assert(fields_view(params@) =~= child_params(self.request, i as int));
        let mut fields: Vec<(String, JsonValue)> = Vec::new();
        fields.push(("sport".to_string(), JsonValue::Text(self.request.sport.clone())));
        fields.push(("project".to_string(), JsonValue::Text(self.request.project.clone())));
        fields.push(("params".to_string(), object(params)));
        fields.push(("sweep_id".to_string(), JsonValue::Text(self.sweep_id.clone())));
        let config: JsonValue = object(fields);
        assert(config@->Object_0 =~= child_config_of(
            self.request,
            self.sweep_id@,
            i as int,
        )->Object_0);
        Some(plan_with(run_id, data_dir, config))
    }

    /// Plans the next child under a newly drawn run id, if a child is left.
    pub fn next_run(&self, data_dir: &str) -> (r: Option<RunPlan>)
        ensures
            self.done() >= self.request.values@.len() ==> r is None,
            self.done() < self.request.values@.len() ==> r is Some && well_formed_id(
                r->0.run_id@,
            ) && lays_out(r->0, data_dir@) && r->0.config@ == child_config_of(
                self.request,
                self.sweep_id@,
                self.done(),
            ),
    {
        let run_id: String = random_id();
        self.next_run_with(run_id, data_dir)
    }

    /// Records the child that was planned last: its run, tagged with the
    /// sweep, and the link from the sweep to the run, with the text of the
    /// child's value. Whether the child succeeded is noted and nothing
    /// else follows from it: the children after it are still to run.
    ///
    /// Refused, with nothing changed, where the store does not hold the
    /// sweep as the coordinator left it, where no child is left, or where
    /// the run's id is already recorded. Where only the link is refused,
    /// the run stays recorded and the coordinator stays as it was.
    pub fn record_child(
        &mut self,
        runs: &mut RunStore,
        sweeps: &mut SweepStore,
        plan: RunPlan,
        project: &ProjectInfo,
        succeeded: bool,
        duration_ms: i64,
    ) -> (r: Result<(), AppError>)
        requires
            old(runs).wf(),
            old(sweeps).wf(),
        ensures
            final(runs).wf(),
            final(sweeps).wf(),
            final(self).sweep_id == old(self).sweep_id,
            final(self).request == old(self).request,
            final(sweeps).sweeps() == old(sweeps).sweeps(),
            r is Ok ==> final(self).wf() && final(self).in_step_with(*final(sweeps)),
            r is Err ==> *final(self) == *old(self) && final(sweeps).links() == old(
                sweeps).links(),
            old(self).children_recorded(old(runs)@) ==> final(self).children_recorded(
                final(runs)@,
            ),
            match child_outcome(*old(self), *old(sweeps), old(runs)@, plan.run_id@) {
                ChildOutcome::OutOfStep | ChildOutcome::NoneLeft | ChildOutcome::LinkTaken => r
                    is Err && r->Err_0.kind == ErrorKind::Internal && r->Err_0.message@
                    == "Failed to persist sweep run"@,
                ChildOutcome::RunTaken => r is Err && r->Err_0.kind == ErrorKind::Internal
                    && r->Err_0.message@ == "Failed to persist run"@,
                ChildOutcome::Recorded => r is Ok,
            },
            match child_outcome(*old(self), *old(sweeps), old(runs)@, plan.run_id@) {
                ChildOutcome::LinkTaken | ChildOutcome::Recorded => final(runs)@ == old(
                    runs)@.push(
                    record_of(
                        plan,
                        *project,
                        succeeded,
                        duration_ms,
                        Some(old(self).sweep_id),
                        final(runs)@.last().created_at,
                    ),
                ),
                _ => final(runs)@ == old(runs)@,
            },
            r is Ok ==> final(self).run_ids@ == old(self).run_ids@.push(plan.run_id) && final(
                self).outcomes@ == old(self).outcomes@.push(succeeded) && final(
                sweeps).links().len() == old(sweeps).links().len() + 1 && final(
                sweeps).links().drop_last() == old(sweeps).links() && final(
                sweeps).links().last().sweep_id == old(self).sweep_id && final(
                sweeps).links().last().run_id == plan.run_id && final(
                sweeps).links().last().param_value@ == param_text_of(
                old(self).request.values@[old(self).done()]@,
            ),
    {
        if !self.is_in_step(sweeps) {
            return Err(AppError::internal("Failed to persist sweep run"));
        }
        let i: usize = self.outcomes.len();
        if i >= self.request.values.len() {
            return Err(AppError::internal("Failed to persist sweep run"));
        }
        let run_id: String = plan.run_id.clone();
        let value_text: String = param_text(&self.request.values[i]);
        let ghost runs_before = runs@;
        match record_run(runs, plan, project, succeeded, duration_ms, Some(self.sweep_id.clone())) {
            Ok(_) => {},
            Err(e) => {
                return Err(e);
            },
        }
        proof {
            if self.children_recorded(runs_before) {
                lemma_recorded_after_push(*self, runs_before, runs@.last());
            }
        }
        let ghost links_before = sweeps.links();
        let ghost mine_before = links_of_sweep(links_before, self.sweep_id@);
        match sweeps.add_link(self.sweep_id.clone(), run_id.clone(), value_text) {
            Ok(()) => {},
            Err(e) => {
                return Err(e);
            },
        }
        let ghost before = *self;
        self.run_ids.push(run_id);
        self.outcomes.push(succeeded);
        proof {
            if before.children_recorded(runs_before) {
                lemma_run_position(runs@, self.run_ids@.last()@);
                assert(runs@.drop_last() =~= runs_before);
                assert forall|k: int| 0 <= k < self.run_ids@.len() implies {
                    &&& run_position(runs@, (#[trigger] self.run_ids@[k])@) is Some
                    &&& runs@[run_position(runs@, self.run_ids@[k]@)->0].status
                        == status_of_outcome(self.outcomes@[k])
                    &&& runs@[run_position(runs@, self.run_ids@[k]@)->0].sweep_id == Some(
                        self.sweep_id,
                    )
                } by {
                    if k < before.run_ids@.len() {
                        assert(self.run_ids@[k] == before.run_ids@[k]);
                        assert(self.outcomes@[k] == before.outcomes@[k]);
                    } else {
                        assert(run_position(runs@, self.run_ids@[k]@) == Some(runs@.len() - 1));
                    }
                }
            }
            let links = sweeps.links();
            assert(links.drop_last() =~= links_before);
            let mine = links_of_sweep(links, self.sweep_id@);
            assert(mine == mine_before.push(links.last()));
            assert forall|k: int| 0 <= k < mine.len() implies (#[trigger] mine[k]).run_id@
                == self.run_ids@[k]@ && mine[k].param_value@ == param_text_of(
                self.request.values@[k]@,
            ) by {
                if k < mine_before.len() {
                    assert(mine[k] == mine_before[k]);
                }
            }
        }
        Ok(())
    }

    /// Ends the sweep once every child has ended: sets its status to
    /// `Partial` where a child failed, else to `Success`, and answers with
    /// the ids of its runs in the order of the values.
    ///
    /// Refused, with nothing changed, while a child is left or where the
    /// store does not hold the sweep as the coordinator left it.
    pub fn finish(self, sweeps: &mut SweepStore) -> (r: Result<SweepResponse, AppError>)
        requires
            old(sweeps).wf(),
        ensures
            final(sweeps).wf(),
            final(sweeps).links() == old(sweeps).links(),
            !(self.wf() && self.in_step_with(*old(sweeps)) && self.done()
                == self.request.values@.len()) ==> r is Err && r->Err_0.kind
                == ErrorKind::Internal && r->Err_0.message@ == "Failed to finalize sweep"@
                && final(sweeps).sweeps() == old(sweeps).sweeps(),
            self.wf() && self.in_step_with(*old(sweeps)) && self.done()
                == self.request.values@.len() ==> r is Ok && r->Ok_0.sweep_id == self.sweep_id
                && r->Ok_0.run_ids == self.run_ids && r->Ok_0.run_ids@.len()
                == self.request.values@.len() && finalized(
                old(sweeps).sweeps(),
                self.sweep_id@,
                self.any_failed(),
            ) == Some(final(sweeps).sweeps()),
    {
        if !self.is_in_step(sweeps) || self.outcomes.len() < self.request.values.len() {
            return Err(AppError::internal("Failed to finalize sweep"));
        }
        let failed: bool = contains_false(&self.outcomes);
        match sweeps.finalize(self.sweep_id.as_str(), failed) {
            Ok(_) => Ok(SweepResponse { sweep_id: self.sweep_id, run_ids: self.run_ids }),
            Err(e) => Err(e),
        }
    }
}

/// A record that is added under an id of its own leaves every child that
/// has ended recorded as it was.
pub proof fn lemma_recorded_after_push(
    coordinator: SweepCoordinator,
    runs: Seq<RunRecord>,
    record: RunRecord,
)
    requires
        coordinator.children_recorded(runs),
        run_position(runs, record.id@) is None,
    ensures
        coordinator.children_recorded(runs.push(record)),
{
    let after = runs.push(record);
    assert(after.drop_last() =~= runs);
    lemma_run_position(runs, record.id@);
    assert forall|k: int| 0 <= k < coordinator.run_ids@.len() implies {
        &&& run_position(after, (#[trigger] coordinator.run_ids@[k])@) is Some
        &&& after[run_position(after, coordinator.run_ids@[k]@)->0].status == status_of_outcome(
            coordinator.outcomes@[k],
        )
        &&& after[run_position(after, coordinator.run_ids@[k]@)->0].sweep_id == Some(
            coordinator.sweep_id,
        )
    } by {
        let id = coordinator.run_ids@[k]@;
        lemma_run_position(runs, id);
        let i = run_position(runs, id)->0;
        assert(runs[i].id@ == id);
        assert(record.id@ != id);
        assert(run_position(after, id) == run_position(runs, id));
        assert(after[i] == runs[i]);
    }
}

/// How the recording of a child ends.
pub enum ChildOutcome {
    /// The store does not hold the sweep as the coordinator left it.
    OutOfStep,
    /// Every child has ended already.
    NoneLeft,
    /// A run with this id is recorded already.
    RunTaken,
    /// The run is recorded, and a link from the sweep to it is there already.
    LinkTaken,
    /// The run and its link are recorded.
    Recorded,
}

/// How the recording of a child under the run id `run_id` ends.
pub open spec fn child_outcome(
    coordinator: SweepCoordinator,
    sweeps: SweepStore,
    runs: Seq<crate::store::RunRecord>,
    run_id: Seq<char>,
) -> ChildOutcome {
    if !(coordinator.wf() && coordinator.in_step_with(sweeps)) {
        ChildOutcome::OutOfStep
    } else if coordinator.done() >= coordinator.request.values@.len() {
        ChildOutcome::NoneLeft
    } else if run_position(runs, run_id) is Some {
        ChildOutcome::RunTaken
    } else if link_position(sweeps.links(), coordinator.sweep_id@, run_id) is Some {
        ChildOutcome::LinkTaken
    } else {
        ChildOutcome::Recorded
    }
}

/// The value of a child stands under the varied name in the child's
/// parameters, whatever the shared parameters hold under that name, and
/// every other name holds what the shared parameters hold under it.
pub proof fn lemma_swept_value_overrides(request: SweepRequest, i: int, other: Seq<char>)
    ensures
        lookup(child_params(request, i), request.param@) == Some(request.values@[i]@),
        other != request.param@ ==> lookup(child_params(request, i), other) == lookup(
            fields_view(request.base_params@),
            other,
        ),
{
    let shared = fields_view(request.base_params@);
    assert(shared.push((request.param@, request.values@[i]@)).drop_last() =~= shared);
}

/// Whether a list of outcomes holds a failure.
pub fn contains_false(outcomes: &Vec<bool>) -> (r: bool)
    ensures
        r == outcomes@.contains(false),
{
    let mut i: usize = 0;
    while i < outcomes.len()
        invariant
            i <= outcomes.len(),
            forall|j: int| 0 <= j < i ==> outcomes@[j],
        decreases outcomes.len() - i,
    {
        if !outcomes[i] {
            assert(outcomes@[i as int] == false);
            return true;
        }
        i += 1;
    }
    false
}

/// The status in which a sweep ends is `Success` exactly where every child
/// succeeded, and `Partial` exactly where at least one failed, whatever
/// the order in which the children ended.
pub proof fn lemma_sweep_status(outcomes: Seq<bool>)
    ensures
        final_status(outcomes.contains(false)) == SweepStatus::Success <==> forall|i: int|
            0 <= i < outcomes.len() ==> outcomes[i],
        final_status(outcomes.contains(false)) == SweepStatus::Partial <==> exists|i: int|
            0 <= i < outcomes.len() && !outcomes[i],
{
    if outcomes.contains(false) {
        let i = choose|i: int| 0 <= i < outcomes.len() && outcomes[i] == false;
        assert(!outcomes[i]);
    } else {
        assert forall|i: int| 0 <= i < outcomes.len() implies outcomes[i] by {
            if !outcomes[i] {
                assert(outcomes.contains(false));
            }
        }
    }
}

} // verus!
