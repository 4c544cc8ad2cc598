//! One run from request to record: the plan of its files and its frozen
//! configuration, the invocation of the program, what counts as success,
//! and the record that is kept.

use crate::command::{build_command, command_args, command_error, CommandSpec};
use crate::error::{validation_message, AppError, ErrorKind};
use crate::json::{
    fields_view, find_field, lemma_object_view, lookup, member, texts, Json, JsonValue,
};
use crate::outside::{compact_json, is_id_char, random_id, render_json};
use crate::path::{join_path, join_spec};
use crate::project::ProjectInfo;
use crate::store::{
    run_position, status_of_outcome, status_word, RunRecord, RunStatus, RunStore,
};
use vstd::prelude::*;
use vstd::string::*;

verus! {

/// A request for one run.
#[derive(Debug)]
pub struct RunRequest {
    pub sport: String,
    pub project: String,
    pub params: Vec<(String, JsonValue)>,
    /// Used as the parameter `cache_dir` where the map has none.
    pub cache_dir: Option<String>,
    pub tags: Option<Vec<String>>,
}

/// Where a run keeps its files, and the configuration that it is frozen
/// with. The directory is named by the run's id.
#[derive(Debug)]
pub struct RunPlan {
    pub run_id: String,
    pub run_dir: String,
    pub config: JsonValue,
    pub config_path: String,
    pub output_path: String,
    pub stdout_path: String,
    pub stderr_path: String,
}

/// What is answered to a request for a run.
#[derive(Debug)]
pub struct RunResponse {
    pub run_id: String,
    pub status: String,
}

/// How the attempt to run the program ended.
#[derive(Clone, Copy, Debug, PartialEq, Eq, Structural)]
pub enum ProcessOutcome {
    /// The file that captures the standard output could not be made.
    StdoutUnavailable,
    /// The file that captures the standard error could not be made.
    StderrUnavailable,
    /// The program could not be started.
    LaunchFailed,
    /// The program ran and exited.
    Exited { success: bool, artifact_exists: bool },
}

/// The tags of a request as a document: the list of them, or `null`.
pub open spec fn tags_json(tags: Option<Vec<String>>) -> Json {
    match tags {
        Some(list) => Json::Array(Seq::new(list@.len(), |i: int| Json::Text(list@[i]@))),
        None => Json::Null,
    }
}

/// The parameters of a run: those of the request, with the request's cache
/// directory under `cache_dir` where the map has no such key.
pub open spec fn effective_params(params: Seq<(Seq<char>, Json)>, cache_dir: Option<String>) -> Seq<
    (Seq<char>, Json),
> {
    match cache_dir {
        Some(dir) => if lookup(params, "cache_dir"@) is None {
            params.push(("cache_dir"@, Json::Text(dir@)))
        } else {
            params
        },
        None => params,
    }
}

/// The frozen configuration of a run that belongs to no sweep.
pub open spec fn run_config_of(request: RunRequest) -> Json {
    Json::Object(
        seq![
            ("sport"@, Json::Text(request.sport@)),
            ("project"@, Json::Text(request.project@)),
            (
                "params"@,
                Json::Object(effective_params(fields_view(request.params@), request.cache_dir)),
            ),
            ("tags"@, tags_json(request.tags)),
        ],
    )
}

/// The directory of the run `run_id` below the data directory.
pub open spec fn run_dir_of(data_dir: Seq<char>, run_id: Seq<char>) -> Seq<char> {
    join_spec(join_spec(data_dir, "runs"@), run_id)
}

/// Whether a plan lays out the files of its run below the data directory:
/// the directory named by the run's id, and in it the configuration, the
/// artifact and the two captures.
pub open spec fn lays_out(plan: RunPlan, data_dir: Seq<char>) -> bool {
    &&& plan.run_dir@ == run_dir_of(data_dir, plan.run_id@)
    &&& plan.config_path@ == join_spec(plan.run_dir@, "config.json"@)
    &&& plan.output_path@ == join_spec(plan.run_dir@, "result.json"@)
    &&& plan.stdout_path@ == join_spec(plan.run_dir@, "stdout.log"@)
    &&& plan.stderr_path@ == join_spec(plan.run_dir@, "stderr.log"@)
}

/// Whether an identifier has the form in which they are drawn.
pub open spec fn well_formed_id(id: Seq<char>) -> bool {
    id.len() == 36 && forall|i: int| 0 <= i < id.len() ==> is_id_char(#[trigger] id[i])
}

/// What the invocation of a project's program comes to, from the frozen
/// configuration and from whether the program's file exists.
///
/// The request is judged first: a configuration without a map of
/// parameters is a bad request, and so is a map that the schema rejects,
/// with the rejection as its message. Only for a valid request does the
/// program's file count: where it is missing, that is an internal failure.
pub open spec fn invocation(
    project: ProjectInfo,
    config: Json,
    output_path: Seq<char>,
    script_exists: bool,
) -> Result<Seq<Seq<char>>, (ErrorKind, Seq<char>)> {
    match member(config, "params"@) {
        Some(Json::Object(params)) => match command_error(project.kind, params) {
            Some(e) => Err((ErrorKind::BadRequest, validation_message(e))),
            None => if !script_exists {
                Err((ErrorKind::Internal, "run_prediction.py not found"@))
            } else {
                Ok(command_args(project.kind, params, project.python_dir@, output_path))
            },
        },
        _ => Err((ErrorKind::BadRequest, "Params missing"@)),
    }
}

/// Whether a run succeeded: the program exited successfully and its
/// artifact exists afterwards. A program that could not be started has
/// failed. Only a capture file that could not be made is an error.
pub open spec fn outcome_of(outcome: ProcessOutcome) -> Result<bool, Seq<char>> {
    match outcome {
        ProcessOutcome::StdoutUnavailable => Err("Failed to open stdout"@),
        ProcessOutcome::StderrUnavailable => Err("Failed to open stderr"@),
        ProcessOutcome::LaunchFailed => Ok(false),
        ProcessOutcome::Exited { success, artifact_exists } => Ok(success && artifact_exists),
    }
}

/// The record of a run that has ended, but for its creation time.
pub open spec fn record_of(
    plan: RunPlan,
    project: ProjectInfo,
    succeeded: bool,
    duration_ms: i64,
    sweep_id: Option<String>,
    created_at: i64,
) -> RunRecord {
    RunRecord {
        id: plan.run_id,
        created_at,
        sport: project.sport,
        project: project.name,
        status: status_of_outcome(succeeded),
        config: plan.config,
        result_path: Some(plan.output_path),
        stdout_path: Some(plan.stdout_path),
        stderr_path: Some(plan.stderr_path),
        duration_ms: Some(duration_ms),
        sweep_id,
    }
}

/// A deep copy of a list of fields.
pub fn copy_fields(fields: &Vec<(String, JsonValue)>) -> (r: Vec<(String, JsonValue)>)
    ensures
        fields_view(r@) == fields_view(fields@),
{
    let mut out: Vec<(String, JsonValue)> = Vec::new();
    let mut i: usize = 0;
    while i < fields.len()
        invariant
            i <= fields.len(),
            out@.len() == i,
            forall|j: int| 0 <= j < i ==> out@[j].0@ == fields@[j].0@ && out@[j].1@ == fields@[j].1@,
        decreases fields.len() - i,
    {
        out.push((fields[i].0.clone(), fields[i].1.duplicate()));
        i += 1;
    }
    assert(fields_view(out@) =~= fields_view(fields@));
    out
}

/// The tags of a request as a document.
pub fn tags_document(tags: &Option<Vec<String>>) -> (r: JsonValue)
    ensures
        r@ == tags_json(*tags),
{
    match tags {
        Some(list) => {
            let mut items: Vec<JsonValue> = Vec::new();
            let mut i: usize = 0;
            while i < list.len()
                invariant
                    i <= list.len(),
                    items@.len() == i,
                    forall|j: int| 0 <= j < i ==> items@[j]@ == Json::Text(list@[j]@),
                decreases list.len() - i,
            {
                items.push(JsonValue::Text(list[i].clone()));
                i += 1;
            }
            let r = JsonValue::Array(items);
            assert(r@->Array_0 =~= tags_json(*tags)->Array_0);
            r
        },
        None => JsonValue::Null,
    }
}

/// An object of the given fields.
pub fn object(fields: Vec<(String, JsonValue)>) -> (r: JsonValue)
    ensures
        r@ == Json::Object(fields_view(fields@)),
{
    proof {
        lemma_object_view(fields);
    }
    JsonValue::Object(fields)
}

/// The frozen configuration of a run that belongs to no sweep.
pub fn run_config(request: &RunRequest) -> (r: JsonValue)
    ensures
        r@ == run_config_of(*request),
{
    let mut params: Vec<(String, JsonValue)> = copy_fields(&request.params);
    match &request.cache_dir {
        Some(dir) => {
            if find_field(&params, "cache_dir").is_none() {
                let ghost before = fields_view(params@);
                params.push(("cache_dir".to_string(), JsonValue::Text(dir.clone())));
                assert(fields_view(params@) =~= before.push(("cache_dir"@, Json::Text(dir@))));
            }
        },
        None => {},
    }
    let mut fields: Vec<(String, JsonValue)> = Vec::new();
    fields.push(("sport".to_string(), JsonValue::Text(request.sport.clone())));
    fields.push(("project".to_string(), JsonValue::Text(request.project.clone())));
    fields.push(("params".to_string(), object(params)));
    fields.push(("tags".to_string(), tags_document(&request.tags)));
    let r = object(fields);
    assert(r@->Object_0 =~= run_config_of(*request)->Object_0);
    r
}

/// Lays out the files of the run `run_id` below the data directory, with
/// `config` as its frozen configuration.
pub fn plan_with(run_id: String, data_dir: &str, config: JsonValue) -> (plan: RunPlan)
    ensures
        plan.run_id == run_id,
        plan.config == config,
        lays_out(plan, data_dir@),
{
    let runs: String = join_path(data_dir, "runs");
    let run_dir: String = join_path(runs.as_str(), run_id.as_str());
    let config_path: String = join_path(run_dir.as_str(), "config.json");
    let output_path: String = join_path(run_dir.as_str(), "result.json");
    let stdout_path: String = join_path(run_dir.as_str(), "stdout.log");
    let stderr_path: String = join_path(run_dir.as_str(), "stderr.log");
    RunPlan { run_id, run_dir, config, config_path, output_path, stdout_path, stderr_path }
}

/// Plans a run for a request: draws the run's id, lays out its files below
/// the data directory, and freezes its configuration.
pub fn plan_run(data_dir: &str, request: &RunRequest) -> (plan: RunPlan)
    ensures
        well_formed_id(plan.run_id@),
        lays_out(plan, data_dir@),
        plan.config@ == run_config_of(*request),
{
    let run_id: String = random_id();
    plan_with(run_id, data_dir, run_config(request))
}

/// The path of a project's program, whose existence is to be probed
/// before the program is invoked.
pub fn script_of(project: &ProjectInfo) -> (r: String)
    ensures
        r@ == crate::command::script_path(project.python_dir@),
{
    join_path(project.python_dir.as_str(), "run_prediction.py")
}

/// Builds the invocation of a project's program from the frozen
/// configuration of a run.
pub fn prepare_python_run(
    project: &ProjectInfo,
    config: &JsonValue,
    output_path: &str,
    script_exists: bool,
) -> (r: Result<CommandSpec, AppError>)
    ensures
        match invocation(*project, config@, output_path@, script_exists) {
            Ok(args) => r is Ok && r->Ok_0.program@ == "python"@ && texts(r->Ok_0.args@) == args,
            Err((kind, message)) => r is Err && r->Err_0.kind == kind && r->Err_0.message@
                == message,
        },
{
    match config.get("params") {
        Some(JsonValue::Object(params)) => {
            proof {
                lemma_object_view(*params);
            }
            match build_command(project, params, output_path) {
                Ok(command) => {
                    if script_exists {
                        Ok(command)
                    } else {
                        Err(AppError::internal("run_prediction.py not found"))
                    }
                },
                Err(e) => Err(AppError::from_validation(e)),
            }
        },
        _ => Err(AppError::bad_request("Params missing")),
    }
}

/// Whether a run succeeded, from how its process ended.
pub fn run_succeeded(outcome: ProcessOutcome) -> (r: Result<bool, AppError>)
    ensures
        match outcome_of(outcome) {
            Ok(succeeded) => r is Ok && r->Ok_0 == succeeded,
            Err(message) => r is Err && r->Err_0.kind == ErrorKind::Internal && r->Err_0.message@
                == message,
        },
{
    match outcome {
        ProcessOutcome::StdoutUnavailable => Err(AppError::internal("Failed to open stdout")),
        ProcessOutcome::StderrUnavailable => Err(AppError::internal("Failed to open stderr")),
        ProcessOutcome::LaunchFailed => Ok(false),
        ProcessOutcome::Exited { success, artifact_exists } => Ok(success && artifact_exists),
    }
}

/// Records a run that has ended. The run is recorded whether or not it
/// succeeded: a failed run is an outcome, not an error. The answer names
/// the run and its status.
pub fn record_run(
    store: &mut RunStore,
    plan: RunPlan,
    project: &ProjectInfo,
    succeeded: bool,
    duration_ms: i64,
    sweep_id: Option<String>,
) -> (r: Result<RunResponse, AppError>)
    requires
        old(store).wf(),
    ensures
        final(store).wf(),
        run_position(old(store)@, plan.run_id@) is Some ==> r is Err && r->Err_0.kind
            == ErrorKind::Internal && r->Err_0.message@ == "Failed to persist run"@ && final(
            store)@ == old(store)@,
        run_position(old(store)@, plan.run_id@) is None ==> r is Ok && r->Ok_0.run_id
            == plan.run_id && r->Ok_0.status@ == status_word(status_of_outcome(succeeded))
            && final(store)@ == old(store)@.push(
                record_of(
                    plan,
                    *project,
                    succeeded,
                    duration_ms,
                    sweep_id,
                    final(store)@.last().created_at,
                ),
            ),
{
    let status: RunStatus = RunStatus::from_outcome(succeeded);
    match store.create(
        plan.run_id,
        project.sport.clone(),
        project.name.clone(),
        status,
        plan.config,
        Some(plan.output_path),
        Some(plan.stdout_path),
        Some(plan.stderr_path),
        duration_ms,
        sweep_id,
    ) {
        Ok(run_id) => Ok(RunResponse { run_id, status: status.as_str().to_string() }),
        Err(e) => Err(e),
    }
}

/// The text under which the value of a swept parameter is kept: a text as
/// it stands, a number or a boolean in its JSON form, and any other
/// document as compact JSON.
pub open spec fn param_text_of(value: Json) -> Seq<char> {
    match value {
        Json::Text(t) => t,
        Json::Number(t) => t,
        Json::Bool(b) => if b {
            "true"@
        } else {
            "false"@
        },
        _ => compact_json(value),
    }
}

/// The text under which the value of a swept parameter is kept.
pub fn param_text(value: &JsonValue) -> (r: String)
    ensures
        r@ == param_text_of(value@),
{
    match value {
        JsonValue::Text(t) => t.clone(),
        JsonValue::Number(t) => t.clone(),
        JsonValue::Bool(b) => if *b {
            "true".to_string()
        } else {
            "false".to_string()
        },
        _ => render_json(value),
    }
}

} // verus!
