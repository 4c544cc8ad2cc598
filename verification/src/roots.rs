//! Where things lie below the repository: the root itself, the directories
//! of projects and of papers, and data files in one of several formats.
//! Each decision is made from what a probe of the filesystem found.

use crate::path::{join_path, join_spec, trim_tail, trim_trailing};
use crate::text::{append, find_last, last_index, lemma_last_index};
use vstd::prelude::*;
use vstd::string::*;

verus! {

/// The directory that holds a path: the path without its last component.
/// What counts for nothing at the end of the path, and then at the end of
/// what is left, is dropped. The filesystem root and the empty path have
/// none; a single relative component lies in the empty path.
pub open spec fn parent(path: Seq<char>) -> Option<Seq<char>> {
    let whole = trim_tail(path);
    let k = last_index(whole, '/');
    if whole.len() == 0 {
        None
    } else if k < 0 {
        Some(Seq::empty())
    } else if whole.len() == 1 {
        None
    } else {
        Some(trim_tail(whole.subrange(0, k + 1)))
    }
}

/// What is dropped at the end of a path makes it no longer, and what is
/// left ends in no separator unless it is a single one.
pub proof fn lemma_trim_tail(path: Seq<char>)
    ensures
        trim_tail(path).len() <= path.len(),
        trim_tail(path).len() > 1 ==> trim_tail(path).last() != '/',
        path.len() > 0 ==> trim_tail(path).len() > 0,
    decreases path.len(),
{
    if path.len() > 1 && (path.last() == '/' || (path.last() == '.' && path[path.len() - 2]
        == '/')) {
        lemma_trim_tail(path.drop_last());
    }
}

/// The directory that holds a path is written shorter than the path.
pub proof fn lemma_parent_shorter(path: Seq<char>)
    ensures
        parent(path) matches Some(up) ==> up.len() < path.len(),
{
    let whole = trim_tail(path);
    lemma_trim_tail(path);
    lemma_last_index(whole, '/');
    let k = last_index(whole, '/');
    if whole.len() > 1 && k >= 0 {
        lemma_trim_tail(whole.subrange(0, k + 1));
    }
}

/// A path followed by the directories that hold it, innermost first.
pub open spec fn ancestors_of(path: Seq<char>) -> Seq<Seq<char>>
    decreases path.len(),
{
    match parent(path) {
        Some(up) => if up.len() < path.len() {
            seq![path] + ancestors_of(up)
        } else {
            seq![path]
        },
        None => seq![path],
    }
}

/// The first position at which a probe found something, or the number of
/// probes where none did.
pub open spec fn first_found(found: Seq<bool>) -> int
    decreases found.len(),
{
    if found.len() == 0 {
        0
    } else if found[0] {
        0
    } else {
        1 + first_found(found.drop_first())
    }
}

/// The root of the repository: the innermost ancestor of `start` that a
/// probe marked, or `start` itself where none was marked.
pub open spec fn repo_root_of(start: Seq<char>, marked: Seq<bool>) -> Seq<char> {
    let i = first_found(marked);
    if i < marked.len() && i < ancestors_of(start).len() {
        ancestors_of(start)[i]
    } else {
        start
    }
}

/// The first hit is a hit, and nothing before it is.
pub proof fn lemma_first_found(found: Seq<bool>)
    ensures
        0 <= first_found(found) <= found.len(),
        first_found(found) < found.len() ==> found[first_found(found)],
        forall|i: int| 0 <= i < first_found(found) ==> !found[i],
    decreases found.len(),
{
    if found.len() > 0 && !found[0] {
        let rest = found.drop_first();
        lemma_first_found(rest);
        assert forall|i: int| 0 <= i < first_found(found) implies !found[i] by {
            if i > 0 {
                assert(found[i] == rest[i - 1]);
            }
        }
        if first_found(found) < found.len() {
            assert(found[first_found(found)] == rest[first_found(rest)]);
        }
    }
}

/// The position of the first probe that found something.
pub fn first_hit(found: &Vec<bool>) -> (r: usize)
    ensures
        r == first_found(found@),
{
    let mut i: usize = 0;
    assert(found@.skip(0) =~= found@);
    while i < found.len() && !found[i]
        invariant
            i <= found.len(),
            first_found(found@) == i + first_found(found@.skip(i as int)),
        decreases found.len() - i,
    {
        assert(found@.skip(i as int)[0] == found@[i as int]);
        assert(found@.skip(i as int).drop_first() =~= found@.skip(i as int + 1));
        i += 1;
    }
    proof {
        if i < found.len() {
            assert(found@.skip(i as int)[0] == found@[i as int]);
        }
    }
    i
}

/// The directory that holds a path.
pub fn parent_of(path: &str) -> (r: Option<String>)
    ensures
        match parent(path@) {
            Some(up) => r is Some && r->0@ == up,
            None => r is None,
        },
{
    let whole: &str = trim_trailing(path);
    let n: usize = whole.unicode_len();
    if n == 0 {
        return None;
    }
    match find_last(whole, '/') {
        None => Some(String::new()),
        Some(k) => {
            if n == 1 {
                None
            } else {
                Some(trim_trailing(whole.substring_char(0, k + 1)).to_string())
            }
        },
    }
}

/// A path followed by the directories that hold it, innermost first.
pub fn ancestors(path: &str) -> (r: Vec<String>)
    ensures
        crate::json::texts(r@) == ancestors_of(path@),
{
    let mut out: Vec<String> = Vec::new();
    let mut current: String = path.to_string();
    let ghost mut done: Seq<Seq<char>> = Seq::empty();
    loop
        invariant
            crate::json::texts(out@) == done,
            ancestors_of(path@) == done + ancestors_of(current@),
        decreases current@.len(),
    {
        let up: Option<String> = parent_of(current.as_str());
        let ghost here = current@;
        proof {
            lemma_parent_shorter(here);
        }
        out.push(current);
        proof {
            done = done.push(here);
            assert(crate::json::texts(out@) =~= done);
        }
        match up {
            Some(next) => {
                assert(next@.len() < here.len());
                assert(done + ancestors_of(next@) =~= done.drop_last() + ancestors_of(here));
                current = next;
            },
            None => {
                assert(done =~= done.drop_last() + ancestors_of(here));
                return out;
            },
        }
    }
}

/// What a probe looks for beside a directory to tell the root of the
/// repository: `research`, `Research` or `.git`.
pub fn repo_markers(dir: &str) -> (r: Vec<String>)
    ensures
        crate::json::texts(r@) == seq![
            join_spec(dir@, "research"@),
            join_spec(dir@, "Research"@),
            join_spec(dir@, ".git"@),
        ],
{
    let mut out: Vec<String> = Vec::new();
    out.push(join_path(dir, "research"));
    out.push(join_path(dir, "Research"));
    out.push(join_path(dir, ".git"));
    assert(crate::json::texts(out@) =~= seq![
        join_spec(dir@, "research"@),
        join_spec(dir@, "Research"@),
        join_spec(dir@, ".git"@),
    ]);
    out
}

/// The root of the repository, from `marked`, which tells of each ancestor
/// of `start`, innermost first, whether a marker stands beside it.
pub fn find_repo_root(start: &str, marked: &Vec<bool>) -> (r: String)
    ensures
        r@ == repo_root_of(start@, marked@),
{
    let i: usize = first_hit(marked);
    let up: Vec<String> = ancestors(start);
    if i < marked.len() && i < up.len() {
        assert(crate::json::texts(up@)[i as int] == up@[i as int]@);
        up[i].clone()
    } else {
        start.to_string()
    }
}

/// The directory of projects: `research/projects` below the root where it
/// exists, else `projects` where that exists, else the root itself.
pub open spec fn projects_root_of(root: Seq<char>, research_exists: bool, legacy_exists: bool) -> Seq<
    char,
> {
    if research_exists {
        join_spec(root, "research/projects"@)
    } else if legacy_exists {
        join_spec(root, "projects"@)
    } else {
        root
    }
}

/// The directory of papers: `research/papers` below the root where it
/// exists, else `Research` where that exists, else `papers`.
pub open spec fn papers_root_of(root: Seq<char>, research_exists: bool, legacy_exists: bool) -> Seq<
    char,
> {
    if research_exists {
        join_spec(root, "research/papers"@)
    } else if legacy_exists {
        join_spec(root, "Research"@)
    } else {
        join_spec(root, "papers"@)
    }
}

/// The two places, in order of preference, where the directory of projects
/// may lie.
pub fn projects_root_candidates(repo_root: &str) -> (r: (String, String))
    ensures
        r.0@ == join_spec(repo_root@, "research/projects"@),
        r.1@ == join_spec(repo_root@, "projects"@),
{
    (join_path(repo_root, "research/projects"), join_path(repo_root, "projects"))
}

/// The two places, in order of preference, where the directory of papers
/// may lie.
pub fn papers_root_candidates(repo_root: &str) -> (r: (String, String))
    ensures
        r.0@ == join_spec(repo_root@, "research/papers"@),
        r.1@ == join_spec(repo_root@, "Research"@),
{
    (join_path(repo_root, "research/papers"), join_path(repo_root, "Research"))
}

/// The directory of projects, from whether each of its two candidates
/// exists.
pub fn resolve_projects_root(repo_root: &str, research_exists: bool, legacy_exists: bool) -> (r:
    String)
    ensures
        r@ == projects_root_of(repo_root@, research_exists, legacy_exists),
{
    if research_exists {
        join_path(repo_root, "research/projects")
    } else if legacy_exists {
        join_path(repo_root, "projects")
    } else {
        repo_root.to_string()
    }
}

/// The directory of papers, from whether each of its two candidates exists.
pub fn resolve_papers_root(repo_root: &str, research_exists: bool, legacy_exists: bool) -> (r:
    String)
    ensures
        r@ == papers_root_of(repo_root@, research_exists, legacy_exists),
{
    if research_exists {
        join_path(repo_root, "research/papers")
    } else if legacy_exists {
        join_path(repo_root, "Research")
    } else {
        join_path(repo_root, "papers")
    }
}

/// Where a data file lies and in which format.
#[derive(Debug)]
pub struct DataFileStatus {
    pub path: String,
    pub format: String,
    pub exists: bool,
}

/// The path of the data file `name` in a format, below `root`.
pub open spec fn data_file_path(root: Seq<char>, name: Seq<char>, format: Seq<char>) -> Seq<char> {
    join_spec(root, name + seq!['.'] + format)
}

/// The format in which a data file is reported: the first whose file was
/// found, else the first of all, else `csv`.
pub open spec fn data_file_format(formats: Seq<Seq<char>>, found: Seq<bool>) -> Seq<char> {
    let i = first_found(found);
    if i < found.len() && i < formats.len() {
        formats[i]
    } else if formats.len() > 0 {
        formats[0]
    } else {
        "csv"@
    }
}

/// Whether a data file was found in any of its formats.
pub open spec fn data_file_found(formats: Seq<Seq<char>>, found: Seq<bool>) -> bool {
    first_found(found) < found.len() && first_found(found) < formats.len()
}

/// The path of the data file `name` in a format, below `root`.
pub fn data_file_candidate(root: &str, name: &str, format: &str) -> (r: String)
    ensures
        r@ == data_file_path(root@, name@, format@),
{
    proof {
        reveal_strlit(".");
        assert("."@ =~= seq!['.']);
    }
    let stem: String = append(name, ".");
    let file: String = append(stem.as_str(), format);
    join_path(root, file.as_str())
}

/// Where the data file `name` lies, from `found`, which tells of each
/// format in turn whether its file exists: the path, the format, and
/// whether the file exists.
pub fn data_file_status_raw(root: &str, name: &str, formats: &Vec<String>, found: &Vec<bool>) -> (r:
    (String, String, bool))
    ensures
        r.1@ == data_file_format(crate::json::texts(formats@), found@),
        r.0@ == data_file_path(root@, name@, r.1@),
        r.2 == data_file_found(crate::json::texts(formats@), found@),
{
    let i: usize = first_hit(found);
    if i < found.len() && i < formats.len() {
        let format: String = formats[i].clone();
        (data_file_candidate(root, name, format.as_str()), format, true)
    } else {
        let format: String = if formats.len() > 0 {
            formats[0].clone()
        } else {
            "csv".to_string()
        };
        (data_file_candidate(root, name, format.as_str()), format, false)
    }
}

/// Where the data file `name` lies.
pub fn data_file_status(root: &str, name: &str, formats: &Vec<String>, found: &Vec<bool>) -> (r:
    DataFileStatus)
    ensures
        r.format@ == data_file_format(crate::json::texts(formats@), found@),
        r.path@ == data_file_path(root@, name@, r.format@),
        r.exists == data_file_found(crate::json::texts(formats@), found@),
{
    let (path, format, exists) = data_file_status_raw(root, name, formats, found);
    DataFileStatus { path, format, exists }
}

} // verus!
