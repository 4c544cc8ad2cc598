//! What is shown of a run after it has ended: its artifact and its captured
//! output, the numbers from which its score is taken, and the children of
//! a sweep in the order of the sweep's values.

use crate::error::{AppError, ErrorKind};
use crate::json::{lemma_array_view, items_view, member, Json, JsonValue};
use crate::outside::{parsed_json, read_json};
use crate::path::{join_path, join_spec, relative_to, to_relative};
use crate::store::{copy_text, run_position, RunRecord, RunStatus, RunStore};
use crate::sweep::SweepCoordinator;
use crate::sweep_store::{links_of_sweep, SweepRunLink, SweepStore};
use vstd::prelude::*;
use vstd::string::*;

verus! {

/// What reading a file gave.
#[derive(Debug)]
pub enum FileRead {
    /// No such file. An artifact may be missing for good reason: a failed
    /// run writes none.
    Missing,
    /// The file is there and could not be read.
    Unreadable,
    /// What the file holds.
    Content(String),
}

/// The score of one child of a sweep, by the numbers it is the mean of.
#[derive(Debug)]
pub struct SweepSummaryPoint {
    /// The value that the child was given, as text.
    pub param_value: String,
    /// The numbers whose mean is the child's score, each by its JSON text;
    /// `None` where the child has no score.
    pub preds: Option<Vec<String>>,
}

/// One child of a sweep: its run, and the value it was given, as text.
#[derive(Debug)]
pub struct SweepChild<'a> {
    pub run: &'a RunRecord,
    pub param_value: &'a String,
}

/// What is shown of one run.
#[derive(Debug)]
pub struct RunDetail {
    pub id: String,
    pub created_at: i64,
    pub sport: String,
    pub project: String,
    pub status: RunStatus,
    pub duration_ms: Option<i64>,
    pub sweep_id: Option<String>,
    pub config: JsonValue,
    pub result: Option<JsonValue>,
    pub stdout: Option<String>,
    pub stderr: Option<String>,
    /// Where the artifact lies below the repository, if it lies there.
    pub result_path: Option<String>,
}

/// The numbers under `pred` in the rows that hold one, each by its JSON
/// text, in the order of the rows. A row without a number there is passed
/// over.
pub open spec fn pred_texts(rows: Seq<Json>) -> Seq<Seq<char>>
    decreases rows.len(),
{
    if rows.len() == 0 {
        Seq::empty()
    } else {
        match member(rows.last(), "pred"@) {
            Some(Json::Number(t)) => pred_texts(rows.drop_last()).push(t),
            _ => pred_texts(rows.drop_last()),
        }
    }
}

/// The numbers whose mean is the score of a result: those under `pred` in
/// the rows of its list `rows`. There is no score where the result has no
/// such list or no row holds a number.
pub open spec fn score_terms(result: Json) -> Option<Seq<Seq<char>>> {
    match member(result, "rows"@) {
        Some(Json::Array(rows)) => if pred_texts(rows).len() == 0 {
            None
        } else {
            Some(pred_texts(rows))
        },
        _ => None,
    }
}

/// What a read of a captured output comes to: the text, nothing where the
/// file is missing, and an error only where it could not be read.
pub open spec fn text_outcome(read: FileRead) -> Result<Option<Seq<char>>, Seq<char>> {
    match read {
        FileRead::Missing => Ok(None),
        FileRead::Unreadable => Err("Failed to read log"@),
        FileRead::Content(text) => Ok(Some(text@)),
    }
}

/// What a read of an artifact comes to: the document that the file holds,
/// nothing where the file is missing, and an error where it could not be
/// read or holds no JSON document.
pub open spec fn json_outcome(read: FileRead) -> Result<Option<Json>, Seq<char>> {
    match read {
        FileRead::Missing => Ok(None),
        FileRead::Unreadable => Err("Failed to read result"@),
        FileRead::Content(text) => match parsed_json(text@) {
            Some(doc) => Ok(Some(doc)),
            None => Err("Invalid JSON"@),
        },
    }
}

/// The children of a sweep: for each of its links, in their order, the run
/// that the link names, where that run is recorded.
pub open spec fn children_of(links: Seq<SweepRunLink>, runs: Seq<RunRecord>) -> Seq<
    (RunRecord, String),
>
    decreases links.len(),
{
    if links.len() == 0 {
        Seq::empty()
    } else {
        match run_position(runs, links.last().run_id@) {
            Some(i) => children_of(links.drop_last(), runs).push(
                (runs[i], links.last().param_value),
            ),
            None => children_of(links.drop_last(), runs),
        }
    }
}

/// Where a stored path lies: as it stands if it is absolute, else below
/// the repository.
pub fn stored_path(repo_root: &str, path: &str) -> (r: String)
    ensures
        r@ == join_spec(repo_root@, path@),
{
    join_path(repo_root, path)
}

/// What a read of a captured output comes to.
pub fn read_text_path(read: FileRead) -> (r: Result<Option<String>, AppError>)
    ensures
        match text_outcome(read) {
            Ok(Some(text)) => r is Ok && r->Ok_0 is Some && r->Ok_0->0@ == text,
            Ok(None) => r is Ok && r->Ok_0 is None,
            Err(message) => r is Err && r->Err_0.kind == ErrorKind::Internal && r->Err_0.message@
                == message,
        },
{
    match read {
        FileRead::Missing => Ok(None),
        FileRead::Unreadable => Err(AppError::internal("Failed to read log")),
        FileRead::Content(text) => Ok(Some(text)),
    }
}

/// What a read of an artifact comes to.
pub fn read_json_path(read: FileRead) -> (r: Result<Option<JsonValue>, AppError>)
    ensures
        match json_outcome(read) {
            Ok(Some(doc)) => r is Ok && r->Ok_0 is Some && r->Ok_0->0@ == doc,
            Ok(None) => r is Ok && r->Ok_0 is None,
            Err(message) => r is Err && r->Err_0.kind == ErrorKind::Internal && r->Err_0.message@
                == message,
        },
{
    match read {
        FileRead::Missing => Ok(None),
        FileRead::Unreadable => Err(AppError::internal("Failed to read result")),
        FileRead::Content(text) => match read_json(text.as_str()) {
            Some(doc) => Ok(Some(doc)),
            None => Err(AppError::internal("Invalid JSON")),
        },
    }
}

/// The numbers whose mean is the score of a result, each by its JSON text;
/// `None` where the result has no score.
pub fn pred_values(result: &JsonValue) -> (r: Option<Vec<String>>)
    ensures
        match score_terms(result@) {
            Some(terms) => r is Some && crate::json::texts(r->0@) == terms,
            None => r is None,
        },
{
    match result.get("rows") {
        Some(JsonValue::Array(rows)) => {
            proof {
                lemma_array_view(*rows);
            }
            let ghost all = items_view(rows@);
            let mut out: Vec<String> = Vec::new();
            let mut i: usize = 0;
            assert(all.subrange(0, 0) =~= Seq::<Json>::empty());
            assert(crate::json::texts(out@) =~= pred_texts(all.subrange(0, 0)));
            while i < rows.len()
                invariant
                    i <= rows.len(),
                    all == items_view(rows@),
                    crate::json::texts(out@) == pred_texts(all.subrange(0, i as int)),
                decreases rows.len() - i,
            {
                assert(all.subrange(0, i as int + 1).drop_last() =~= all.subrange(0, i as int));
                assert(all.subrange(0, i as int + 1).last() == rows@[i as int]@);
                let ghost before = crate::json::texts(out@);
                match rows[i].get("pred") {
                    Some(JsonValue::Number(t)) => {
                        out.push(t.clone());
                        assert(crate::json::texts(out@) =~= before.push(t@));
                    },
                    _ => {},
                }
                i += 1;
            }
            assert(all.subrange(0, i as int) =~= all);
            if out.len() == 0 {
                None
            } else {
                Some(out)
            }
        },
        _ => None,
    }
}

/// The score of one child of a sweep, from the child's artifact if it has
/// one.
pub fn summary_point(param_value: &str, result: &Option<JsonValue>) -> (r: SweepSummaryPoint)
    ensures
        r.param_value@ == param_value@,
        match result {
            Some(doc) => match score_terms(doc@) {
                Some(terms) => r.preds is Some && crate::json::texts(r.preds->0@) == terms,
                None => r.preds is None,
            },
            None => r.preds is None,
        },
{
    let preds: Option<Vec<String>> = match result {
        Some(doc) => pred_values(doc),
        None => None,
    };
    SweepSummaryPoint { param_value: param_value.to_string(), preds }
}

/// The children of a sweep in the order in which its links were recorded,
/// which is the order of the sweep's values.
pub fn sweep_children<'a>(sweeps: &'a SweepStore, runs: &'a RunStore, sweep_id: &str) -> (r: Vec<
    SweepChild<'a>,
>)
    ensures
        r@.len() == children_of(links_of_sweep(sweeps.links(), sweep_id@), runs@).len(),
        forall|i: int|
            0 <= i < r@.len() ==> *r@[i].run == children_of(
                links_of_sweep(sweeps.links(), sweep_id@),
                runs@,
            )[i].0 && *r@[i].param_value == children_of(
                links_of_sweep(sweeps.links(), sweep_id@),
                runs@,
            )[i].1,
{
    let links: Vec<&SweepRunLink> = sweeps.links_of(sweep_id);
    let ghost mine = links_of_sweep(sweeps.links(), sweep_id@);
    let mut out: Vec<SweepChild<'a>> = Vec::new();
    let mut i: usize = 0;
    assert(mine.subrange(0, 0) =~= Seq::<SweepRunLink>::empty());
    while i < links.len()
        invariant
            i <= links.len(),
            links@.len() == mine.len(),
            forall|j: int| 0 <= j < links@.len() ==> *links@[j] == mine[j],
            out@.len() == children_of(mine.subrange(0, i as int), runs@).len(),
            forall|j: int|
                0 <= j < out@.len() ==> *out@[j].run == children_of(
                    mine.subrange(0, i as int),
                    runs@,
                )[j].0 && *out@[j].param_value == children_of(mine.subrange(0, i as int), runs@)[j].1,
        decreases links.len() - i,
    {
        assert(mine.subrange(0, i as int + 1).drop_last() =~= mine.subrange(0, i as int));
        assert(mine.subrange(0, i as int + 1).last() == mine[i as int]);
        let link: &SweepRunLink = links[i];
        match runs.get(link.run_id.as_str()) {
            Ok(run) => {
                out.push(SweepChild { run, param_value: &link.param_value });
            },
            Err(_) => {},
        }
        i += 1;
    }
    assert(mine.subrange(0, i as int) =~= mine);
    out
}

/// What is shown of one run: its record, what was read of its artifact and
/// of its captured output, and the artifact's place below the repository.
pub fn run_detail(
    run: &RunRecord,
    repo_root: &str,
    result: Option<JsonValue>,
    stdout: Option<String>,
    stderr: Option<String>,
) -> (r: RunDetail)
    ensures
        r.id == run.id,
        r.created_at == run.created_at,
        r.sport == run.sport,
        r.project == run.project,
        r.status == run.status,
        r.duration_ms == run.duration_ms,
        r.sweep_id == run.sweep_id,
        r.config@ == run.config@,
        r.result == result,
        r.stdout == stdout,
        r.stderr == stderr,
        match run.result_path {
            Some(path) => match relative_to(repo_root@, path@) {
                Some(rest) => r.result_path is Some && r.result_path->0@ == rest,
                None => r.result_path is None,
            },
            None => r.result_path is None,
        },
{
    let result_path: Option<String> = match &run.result_path {
        Some(path) => to_relative(repo_root, path.as_str()),
        None => None,
    };
    RunDetail {
        id: run.id.clone(),
        created_at: run.created_at,
        sport: run.sport.clone(),
        project: run.project.clone(),
        status: run.status,
        duration_ms: run.duration_ms,
        sweep_id: copy_text(&run.sweep_id),
        config: run.config.duplicate(),
        result,
        stdout,
        stderr,
        result_path,
    }
}

/// Where every link names a recorded run, the children are as many as the
/// links, and each child is the run that its link names, with the link's
/// text.
pub proof fn lemma_children_of_links(links: Seq<SweepRunLink>, runs: Seq<RunRecord>)
    requires
        forall|k: int| 0 <= k < links.len() ==> run_position(runs, (#[trigger] links[k]).run_id@) is Some,
    ensures
        children_of(links, runs).len() == links.len(),
        forall|k: int|
            0 <= k < links.len() ==> (#[trigger] children_of(links, runs)[k]) == (
                runs[run_position(runs, links[k].run_id@)->0],
                links[k].param_value,
            ),
    decreases links.len(),
{
    if links.len() > 0 {
        let front = links.drop_last();
        assert forall|k: int| 0 <= k < front.len() implies run_position(
            runs,
            (#[trigger] front[k]).run_id@,
        ) is Some by {
            assert(front[k] == links[k]);
        }
        lemma_children_of_links(front, runs);
        assert(links.last() == links[links.len() - 1]);
        assert forall|k: int| 0 <= k < links.len() implies (#[trigger] children_of(links, runs)[k])
            == (runs[run_position(runs, links[k].run_id@)->0], links[k].param_value) by {
            if k < front.len() {
                assert(children_of(links, runs)[k] == children_of(front, runs)[k]);
                assert(front[k] == links[k]);
            }
        }
    }
}

/// A sweep whose children are recorded shows one child for each child that
/// has ended, in the order of the values: each with the run that was
/// recorded for it, with the status of its outcome, and with the text of
/// its value. The order is that of the values, whatever the times at which
/// the runs were recorded.
pub proof fn lemma_sweep_children(
    coordinator: SweepCoordinator,
    sweeps: SweepStore,
    runs: Seq<RunRecord>,
)
    requires
        coordinator.wf(),
        coordinator.links_in_step(sweeps),
        coordinator.children_recorded(runs),
    ensures
        children_of(links_of_sweep(sweeps.links(), coordinator.sweep_id@), runs).len()
            == coordinator.done(),
        forall|k: int|
            0 <= k < coordinator.done() ==> {
                let child = #[trigger] children_of(
                    links_of_sweep(sweeps.links(), coordinator.sweep_id@),
                    runs,
                )[k];
                &&& child.0.id@ == coordinator.run_ids@[k]@
                &&& child.0.status == crate::store::status_of_outcome(coordinator.outcomes@[k])
                &&& child.0.sweep_id == Some(coordinator.sweep_id)
                &&& child.1@ == crate::run::param_text_of(coordinator.request.values@[k]@)
            },
{
    let links = links_of_sweep(sweeps.links(), coordinator.sweep_id@);
    assert forall|k: int| 0 <= k < links.len() implies run_position(
        runs,
        (#[trigger] links[k]).run_id@,
    ) is Some by {
        assert(links[k].run_id@ == coordinator.run_ids@[k]@);
    }
    lemma_children_of_links(links, runs);
    assert forall|k: int| 0 <= k < coordinator.done() implies {
        let child = #[trigger] children_of(links, runs)[k];
        &&& child.0.id@ == coordinator.run_ids@[k]@
        &&& child.0.status == crate::store::status_of_outcome(coordinator.outcomes@[k])
        &&& child.0.sweep_id == Some(coordinator.sweep_id)
        &&& child.1@ == crate::run::param_text_of(coordinator.request.values@[k]@)
    } by {
        assert(links[k].run_id@ == coordinator.run_ids@[k]@);
        crate::store::lemma_run_position(runs, coordinator.run_ids@[k]@);
    }
}

/// What a sweep has come to once it has ended, however many values it has
/// and whichever of its children failed: it has one run for each value;
/// the stored sweep is `Partial` where a child failed and `Success` where
/// none did; and its children are shown in the order of the values, the
/// failed ones among them.
pub proof fn lemma_sweep_outcome(
    coordinator: SweepCoordinator,
    before: SweepStore,
    after: SweepStore,
    runs: Seq<RunRecord>,
)
    requires
        coordinator.wf(),
        coordinator.in_step_with(before),
        coordinator.children_recorded(runs),
        coordinator.done() == coordinator.request.values@.len(),
        crate::sweep_store::finalized(
            before.sweeps(),
            coordinator.sweep_id@,
            coordinator.any_failed(),
        ) == Some(after.sweeps()),
        after.links() == before.links(),
    ensures
        coordinator.run_ids@.len() == coordinator.request.values@.len(),
        crate::sweep_store::sweep_position(after.sweeps(), coordinator.sweep_id@) is Some,
        after.sweeps()[crate::sweep_store::sweep_position(
            after.sweeps(),
            coordinator.sweep_id@,
        )->0].status == if exists|k: int|
            0 <= k < coordinator.outcomes@.len() && !coordinator.outcomes@[k] {
            crate::sweep_store::SweepStatus::Partial
        } else {
            crate::sweep_store::SweepStatus::Success
        },
        children_of(links_of_sweep(after.links(), coordinator.sweep_id@), runs).len()
            == coordinator.request.values@.len(),
        forall|k: int|
            0 <= k < coordinator.request.values@.len() ==> {
                let child = #[trigger] children_of(
                    links_of_sweep(after.links(), coordinator.sweep_id@),
                    runs,
                )[k];
                &&& child.0.id@ == coordinator.run_ids@[k]@
                &&& child.0.status == crate::store::status_of_outcome(coordinator.outcomes@[k])
                &&& child.1@ == crate::run::param_text_of(coordinator.request.values@[k]@)
            },
{
    let id = coordinator.sweep_id@;
    crate::sweep_store::lemma_sweep_position(before.sweeps(), id);
    crate::sweep_store::lemma_sweep_position_by_ids(before.sweeps(), after.sweeps(), id);
    crate::sweep::lemma_sweep_status(coordinator.outcomes@);
    lemma_sweep_children(coordinator, after, runs);
}

} // verus!
