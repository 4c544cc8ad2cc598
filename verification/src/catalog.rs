//! What the registry of projects decides: which directories hold projects,
//! what kind a project is, which parameters its form offers, and which
//! project a request names.

use crate::command::ParamDefault;
use crate::error::{AppError, ErrorKind};
use crate::outside::{lowercase, lowercased};
use crate::path::{join_path, join_spec};
use crate::project::{kind_of, ProjectInfo, ProjectKind};
use crate::text::{spaced, text_eq, trim, trimmed, underscores_to_spaces};
use vstd::prelude::*;
use vstd::string::*;

verus! {

/// A name as it is compared: in lower case, underscores as spaces, without
/// white space at either end.
pub open spec fn normalized(input: Seq<char>) -> Seq<char> {
    trimmed(spaced(lowercased(input)))
}

/// Brings a name to the form in which names are compared.
pub fn normalize(input: &str) -> (r: String)
    ensures
        r@ == normalized(input@),
{
    let lower: String = lowercase(input);
    let spaces: String = underscores_to_spaces(lower.as_str());
    trim(spaces.as_str()).to_string()
}

/// Whether a project answers to the names of a request.
pub open spec fn answers_to(project: ProjectInfo, sport: Seq<char>, name: Seq<char>) -> bool {
    normalized(project.sport@) == normalized(sport) && normalized(project.name@) == normalized(name)
}

/// The position of the first project that answers to the names of a
/// request, or the number of projects where none does.
pub open spec fn first_answering(projects: Seq<ProjectInfo>, sport: Seq<char>, name: Seq<char>) -> int
    decreases projects.len(),
{
    if projects.len() == 0 {
        0
    } else if answers_to(projects[0], sport, name) {
        0
    } else {
        1 + first_answering(projects.drop_first(), sport, name)
    }
}

/// The first project of the catalog that answers to the names of a
/// request; a request that no project answers to is not found.
pub fn resolve_project<'a>(projects: &'a Vec<ProjectInfo>, sport: &str, project: &str) -> (r:
    Result<&'a ProjectInfo, AppError>)
    ensures
        0 <= first_answering(projects@, sport@, project@) <= projects@.len(),
        first_answering(projects@, sport@, project@) < projects@.len() ==> r is Ok && *r->Ok_0
            == projects@[first_answering(projects@, sport@, project@)],
        first_answering(projects@, sport@, project@) == projects@.len() ==> r is Err
            && r->Err_0.kind == ErrorKind::NotFound && r->Err_0.message@ == "Project not found"@,
{
    let wanted_sport: String = normalize(sport);
    let wanted_name: String = normalize(project);
    let mut i: usize = 0;
    assert(projects@.skip(0) =~= projects@);
    while i < projects.len()
        invariant
            i <= projects.len(),
            wanted_sport@ == normalized(sport@),
            wanted_name@ == normalized(project@),
            first_answering(projects@, sport@, project@) == i + first_answering(
                projects@.skip(i as int),
                sport@,
                project@,
            ),
        decreases projects.len() - i,
    {
        let candidate: &ProjectInfo = &projects[i];
        assert(projects@.skip(i as int)[0] == *candidate);
        assert(projects@.skip(i as int).drop_first() =~= projects@.skip(i as int + 1));
        let same_sport: bool = text_eq(
            normalize(candidate.sport.as_str()).as_str(),
            wanted_sport.as_str(),
        );
        if same_sport && text_eq(
            normalize(candidate.name.as_str()).as_str(),
            wanted_name.as_str(),
        ) {
            return Ok(candidate);
        }
        i += 1;
    }
    Err(AppError::not_found("Project not found"))
}

/// The kind of the project `project` of the sport `sport`.
pub fn project_kind(sport: &str, project: &str) -> (kind: ProjectKind)
    ensures
        kind == kind_of(sport@, project@),
{
    if text_eq(sport, "F1") && text_eq(project, "Rising Qualification Prediction") {
        ProjectKind::F1
    } else if text_eq(sport, "Football") && text_eq(project, "Match Result Prediction") {
        ProjectKind::Football
    } else {
        ProjectKind::Unknown
    }
}

/// The description of the project in the directory `project_path`, which
/// holds its program under `Python` and, if `notebook_exists`, its notebook
/// under `Jupyter`.
pub fn describe_project(sport: &str, name: &str, project_path: &str, notebook_exists: bool) -> (r:
    ProjectInfo)
    ensures
        r.sport@ == sport@,
        r.name@ == name@,
        r.python_dir@ == join_spec(project_path@, "Python"@),
        r.kind == kind_of(sport@, name@),
        r.notebook is Some == notebook_exists,
        notebook_exists ==> r.notebook->0@ == join_spec(
            join_spec(project_path@, "Jupyter"@),
            "model-research.ipynb"@,
        ),
{
    let notebook: Option<String> = if notebook_exists {
        let dir: String = join_path(project_path, "Jupyter");
        Some(join_path(dir.as_str(), "model-research.ipynb"))
    } else {
        None
    };
    ProjectInfo {
        sport: sport.to_string(),
        name: name.to_string(),
        python_dir: join_path(project_path, "Python"),
        notebook,
        kind: project_kind(sport, name),
    }
}

/// What a scan saw of one entry of a directory.
#[derive(Debug)]
pub struct DirEntryInfo {
    pub name: String,
    pub is_dir: bool,
    /// Whether the entry holds something named `Python`.
    pub has_python: bool,
    /// Whether the entry holds something named `Jupyter`.
    pub has_jupyter: bool,
}

/// Whether a name begins with a dot.
pub open spec fn hidden(name: Seq<char>) -> bool {
    name.len() > 0 && name[0] == '.'
}

/// Whether a directory of this name is never a sport's directory.
pub open spec fn reserved(name: Seq<char>) -> bool {
    name == "Research"@ || name == "research"@ || name == "platform"@ || name == "papers"@ || name
        == "projects"@ || name == ".git"@
}

/// Whether an entry looks like a project: a visible directory that holds a
/// program or a notebook.
pub open spec fn looks_like_project(entry: DirEntryInfo) -> bool {
    entry.is_dir && !hidden(entry.name@) && (entry.has_python || entry.has_jupyter)
}

/// Whether a directory is a sport's directory: visible, not reserved, and
/// with at least one entry that looks like a project.
pub open spec fn sport_dir(is_dir: bool, name: Seq<char>, children: Seq<DirEntryInfo>) -> bool {
    is_dir && !hidden(name) && !reserved(name) && exists|i: int|
        0 <= i < children.len() && looks_like_project(#[trigger] children[i])
}

/// Whether a name begins with a dot.
pub fn is_hidden(name: &str) -> (r: bool)
    ensures
        r == hidden(name@),
{
    name.unicode_len() > 0 && name.get_char(0) == '.'
}

/// Whether a directory is a sport's directory.
pub fn is_sport_dir(is_dir: bool, name: &str, children: &Vec<DirEntryInfo>) -> (r: bool)
    ensures
        r == sport_dir(is_dir, name@, children@),
{
    if !is_dir || is_hidden(name) {
        return false;
    }
    if text_eq(name, "Research") || text_eq(name, "research") || text_eq(name, "platform")
        || text_eq(name, "papers") || text_eq(name, "projects") || text_eq(name, ".git") {
        return false;
    }
    let mut i: usize = 0;
    while i < children.len()
        invariant
            i <= children.len(),
            is_dir && !hidden(name@) && !reserved(name@),
            forall|j: int| 0 <= j < i ==> !looks_like_project(#[trigger] children@[j]),
        decreases children.len() - i,
    {
        let child: &DirEntryInfo = &children[i];
        if child.is_dir && !is_hidden(child.name.as_str()) && (child.has_python
            || child.has_jupyter) {
            assert(looks_like_project(children@[i as int]));
            return true;
        }
        i += 1;
    }
    false
}

/// Whether the walk for notebooks passes over a directory of this name.
pub open spec fn skipped(is_file: bool, name: Seq<char>) -> bool {
    !is_file && (name == ".git"@ || name == "node_modules"@ || name == ".next"@ || name
        == "target"@ || name == "data"@ || name == ".turbo"@ || name == "platform"@ || name
        == "papers"@)
}

/// Whether the walk for notebooks passes over an entry: never over a file,
/// and over a directory only by its name.
pub fn should_skip(is_file: bool, name: &str) -> (r: bool)
    ensures
        r == skipped(is_file, name@),
{
    if is_file {
        return false;
    }
    text_eq(name, ".git") || text_eq(name, "node_modules") || text_eq(name, ".next") || text_eq(
        name,
        "target",
    ) || text_eq(name, "data") || text_eq(name, ".turbo") || text_eq(name, "platform") || text_eq(
        name,
        "papers",
    )
}


/// One parameter as the form of a project offers it.
#[derive(Debug)]
pub struct ParamDef {
    pub name: &'static str,
    pub label: &'static str,
    /// How the value is entered: `select`, `int`, `string` or `bool`.
    pub kind: &'static str,
    pub required: bool,
    pub default: ParamDefault,
    /// The choices of a `select`.
    pub options: Option<Vec<&'static str>>,
}

/// One parameter of a form as a mathematical value.
pub struct ParamForm {
    pub name: &'static str,
    pub label: &'static str,
    pub kind: &'static str,
    pub required: bool,
    pub default: ParamDefault,
    pub options: Option<Seq<&'static str>>,
}

/// A parameter of a form as a mathematical value.
pub open spec fn form_of(def: ParamDef) -> ParamForm {
    ParamForm {
        name: def.name,
        label: def.label,
        kind: def.kind,
        required: def.required,
        default: def.default,
        options: match def.options {
            Some(list) => Some(list@),
            None => None,
        },
    }
}

/// The parameters of a form as mathematical values, in their order.
pub open spec fn forms(defs: Seq<ParamDef>) -> Seq<ParamForm> {
    Seq::new(defs.len(), |i: int| form_of(defs[i]))
}

/// A required choice between two values.
pub open spec fn choice_form(
    name: &'static str,
    label: &'static str,
    default: &'static str,
    other: &'static str,
) -> ParamForm {
    ParamForm {
        name,
        label,
        kind: "select",
        required: true,
        default: ParamDefault::Text(default),
        options: Some(seq![default, other]),
    }
}

/// A parameter that is entered freely.
pub open spec fn entry_form(
    name: &'static str,
    label: &'static str,
    kind: &'static str,
    required: bool,
    default: ParamDefault,
) -> ParamForm {
    ParamForm { name, label, kind, required, default, options: None }
}

/// The parameters that the form of a kind of project offers, in order. A
/// kind without a schema offers none.
///
/// The defaults here are what the form fills in for its user. They are not
/// the defaults of the command's schema: a request that leaves out `mode`
/// is rejected, whatever the form would have offered.
pub open spec fn param_forms(kind: ProjectKind) -> Seq<ParamForm> {
    match kind {
        ProjectKind::F1 => seq![
            choice_form("mode", "Mode", "qualifying", "race"),
            choice_form("source", "Source", "fastf1", "openf1"),
            entry_form("year", "Year", "int", true, ParamDefault::Integer(2026)),
            entry_form("round_number", "Round", "int", true, ParamDefault::Integer(1)),
            entry_form("train_seasons", "Train Seasons", "string", false, ParamDefault::Text("auto")),
            entry_form(
                "include_standings",
                "Include Standings",
                "bool",
                false,
                ParamDefault::Flag(false),
            ),
            entry_form("cache_dir", "Cache Dir", "string", false, ParamDefault::Text(".cache/fastf1")),
            entry_form("meeting_name", "Meeting Name", "string", false, ParamDefault::Absent),
            entry_form("country_name", "Country Name", "string", false, ParamDefault::Absent),
        ],
        ProjectKind::Football => seq![
            choice_form("mode", "Mode", "match_result", "scoreline"),
            entry_form("league", "League", "string", true, ParamDefault::Text("epl")),
            entry_form("season", "Season", "int", true, ParamDefault::Integer(2026)),
            entry_form("round_number", "Round", "int", true, ParamDefault::Integer(1)),
            entry_form("data_source", "Data Source", "string", false, ParamDefault::Text("placeholder")),
            entry_form("train_seasons", "Train Seasons", "string", false, ParamDefault::Text("auto")),
            entry_form("cache_dir", "Cache Dir", "string", false, ParamDefault::Absent),
        ],
        ProjectKind::Unknown => Seq::empty(),
    }
}

/// A required choice between two values, the first being the default.
fn choice(name: &'static str, label: &'static str, default: &'static str, other: &'static str) -> (r:
    ParamDef)
    ensures
        form_of(r) == choice_form(name, label, default, other),
{
    let mut options: Vec<&'static str> = Vec::new();
    options.push(default);
    options.push(other);
    assert(options@ =~= seq![default, other]);
    ParamDef {
        name,
        label,
        kind: "select",
        required: true,
        default: ParamDefault::Text(default),
        options: Some(options),
    }
}

/// A parameter that is entered freely.
fn entry(
    name: &'static str,
    label: &'static str,
    kind: &'static str,
    required: bool,
    default: ParamDefault,
) -> (r: ParamDef)
    ensures
        form_of(r) == entry_form(name, label, kind, required, default),
{
    ParamDef { name, label, kind, required, default, options: None }
}

/// The parameters that the form of a kind of project offers, in order.
pub fn params_for_project(kind: ProjectKind) -> (r: Vec<ParamDef>)
    ensures
        forms(r@) == param_forms(kind),
{
    let mut out: Vec<ParamDef> = Vec::new();
    match kind {
        ProjectKind::F1 => {
            out.push(choice("mode", "Mode", "qualifying", "race"));
            out.push(choice("source", "Source", "fastf1", "openf1"));
            out.push(entry("year", "Year", "int", true, ParamDefault::Integer(2026)));
            out.push(entry("round_number", "Round", "int", true, ParamDefault::Integer(1)));
            out.push(
                entry("train_seasons", "Train Seasons", "string", false, ParamDefault::Text("auto")),
            );
            out.push(
                entry(
                    "include_standings",
                    "Include Standings",
                    "bool",
                    false,
                    ParamDefault::Flag(false),
                ),
            );
            out.push(
                entry("cache_dir", "Cache Dir", "string", false, ParamDefault::Text(".cache/fastf1")),
            );
            out.push(entry("meeting_name", "Meeting Name", "string", false, ParamDefault::Absent));
            out.push(entry("country_name", "Country Name", "string", false, ParamDefault::Absent));
        },
        ProjectKind::Football => {
            out.push(choice("mode", "Mode", "match_result", "scoreline"));
            out.push(entry("league", "League", "string", true, ParamDefault::Text("epl")));
            out.push(entry("season", "Season", "int", true, ParamDefault::Integer(2026)));
            out.push(entry("round_number", "Round", "int", true, ParamDefault::Integer(1)));
            out.push(
                entry(
                    "data_source",
                    "Data Source",
                    "string",
                    false,
                    ParamDefault::Text("placeholder"),
                ),
            );
            out.push(
                entry("train_seasons", "Train Seasons", "string", false, ParamDefault::Text("auto")),
            );
            out.push(entry("cache_dir", "Cache Dir", "string", false, ParamDefault::Absent));
        },
        ProjectKind::Unknown => {},
    }
    assert(forms(out@) =~= param_forms(kind));
    out
}

/// One project as the catalog shows it.
#[derive(Debug)]
pub struct CatalogProject {
    pub sport: String,
    pub name: String,
    /// The working directory, relative to the repository where it lies
    /// below it.
    pub python_dir: String,
    /// The notebook, relative to the repository; `None` where the project
    /// has none or it lies elsewhere.
    pub notebook: Option<String>,
    pub params: Vec<ParamDef>,
}

/// How a project is shown in the catalog.
pub fn catalog_project(repo_root: &str, project: &ProjectInfo) -> (r: CatalogProject)
    ensures
        r.sport == project.sport,
        r.name == project.name,
        r.python_dir@ == crate::documents::shown_path(repo_root@, project.python_dir@),
        match project.notebook {
            Some(path) => match crate::path::relative_to(repo_root@, path@) {
                Some(rest) => r.notebook is Some && r.notebook->0@ == rest,
                None => r.notebook is None,
            },
            None => r.notebook is None,
        },
        forms(r.params@) == param_forms(project.kind),
{
    let notebook: Option<String> = match &project.notebook {
        Some(path) => crate::path::to_relative(repo_root, path.as_str()),
        None => None,
    };
    CatalogProject {
        sport: project.sport.clone(),
        name: project.name.clone(),
        python_dir: crate::documents::show_path(repo_root, project.python_dir.as_str()),
        notebook,
        params: params_for_project(project.kind),
    }
}

} // verus!
