//! Runnable projects and the kinds that select a parameter schema.

use vstd::prelude::*;

verus! {

/// Which parameter schema applies to a project.
#[derive(Clone, Copy, Debug, PartialEq, Eq, Structural)]
pub enum ProjectKind {
    F1,
    Football,
    Unknown,
}

/// A runnable project as the registry describes it.
#[derive(Debug)]
pub struct ProjectInfo {
    pub sport: String,
    pub name: String,
    /// The working directory of the project's program.
    pub python_dir: String,
    pub notebook: Option<String>,
    pub kind: ProjectKind,
}

/// The kind of the project `project` of the sport `sport`.
pub open spec fn kind_of(sport: Seq<char>, project: Seq<char>) -> ProjectKind {
    if sport == "F1"@ && project == "Rising Qualification Prediction"@ {
        ProjectKind::F1
    } else if sport == "Football"@ && project == "Match Result Prediction"@ {
        ProjectKind::Football
    } else {
        ProjectKind::Unknown
    }
}

} // verus!
