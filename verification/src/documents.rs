//! Reference documents of the repository: the index of papers that its
//! README holds, the papers and the notebooks that a scan found.

use crate::outside::{lowercase, lowercased};
use crate::path::{
    extension, extension_of, file_name, file_name_of, file_stem, first_component,
    first_components, relative_to, second_component, stem_of, text_view, to_relative,
};
use crate::store::copy_text;
use crate::text::{
    ends_with, find_first, first_index, is_suffix, replace_with_space, spaced_at,
    starts_with, text_eq, trim, trimmed,
};
use vstd::prelude::*;
use vstd::string::*;

verus! {

/// What the index tells of one paper, by the name of its file.
#[derive(Debug)]
pub struct PaperMeta {
    pub file: String,
    pub title: Option<String>,
    pub sport: Option<String>,
    pub source: Option<String>,
}

/// What the index tells of one paper, as a mathematical value.
pub struct PaperNote {
    pub file: Seq<char>,
    pub title: Option<Seq<char>>,
    pub sport: Option<Seq<char>>,
    pub source: Option<Seq<char>>,
}

/// One paper as it is listed.
#[derive(Debug)]
pub struct PaperEntry {
    pub sport: String,
    pub title: String,
    pub file: String,
    pub source: Option<String>,
}

/// One notebook as it is listed.
#[derive(Debug)]
pub struct NotebookEntry {
    pub sport: String,
    pub project: String,
    pub file: String,
}

/// The reading of an index up to some line: the notes made so far, and the
/// sport, the title and the file that the lines read last stand under.
pub struct IndexState {
    pub index: Seq<PaperNote>,
    pub sport: Option<Seq<char>>,
    pub title: Option<Seq<char>>,
    pub file: Option<Seq<char>>,
}

/// The reader of an index, line by line.
pub struct IndexReader {
    pub index: Vec<PaperMeta>,
    pub sport: Option<String>,
    pub title: Option<String>,
    pub file: Option<String>,
}

impl View for PaperMeta {
    type V = PaperNote;

    open spec fn view(&self) -> PaperNote {
        PaperNote {
            file: self.file@,
            title: text_view(self.title),
            sport: text_view(self.sport),
            source: text_view(self.source),
        }
    }
}

/// The notes of an index as mathematical values, in their order.
pub open spec fn notes(index: Seq<PaperMeta>) -> Seq<PaperNote> {
    Seq::new(index.len(), |i: int| index[i]@)
}

impl View for IndexReader {
    type V = IndexState;

    open spec fn view(&self) -> IndexState {
        IndexState {
            index: notes(self.index@),
            sport: text_view(self.sport),
            title: text_view(self.title),
            file: text_view(self.file),
        }
    }
}

/// The position of the note on the file `file`, if there is one.
pub open spec fn note_position(index: Seq<PaperNote>, file: Seq<char>) -> Option<int>
    decreases index.len(),
{
    if index.len() == 0 {
        None
    } else if index.last().file == file {
        Some(index.len() - 1)
    } else {
        note_position(index.drop_last(), file)
    }
}

/// `s` without the asterisks that it begins with.
pub open spec fn without_leading_stars(s: Seq<char>) -> Seq<char>
    decreases s.len(),
{
    if s.len() > 0 && s[0] == '*' {
        without_leading_stars(s.drop_first())
    } else {
        s
    }
}

/// `s` without the asterisks that it ends with.
pub open spec fn without_trailing_stars(s: Seq<char>) -> Seq<char>
    decreases s.len(),
{
    if s.len() > 0 && s.last() == '*' {
        without_trailing_stars(s.drop_last())
    } else {
        s
    }
}

/// `s` without the asterisks at either end.
pub open spec fn without_stars(s: Seq<char>) -> Seq<char> {
    without_trailing_stars(without_leading_stars(s))
}

/// Whether a line is a heading: it begins and ends with two asterisks that
/// do not overlap.
pub open spec fn is_heading(line: Seq<char>) -> bool {
    line.len() >= 4 && "**"@.is_prefix_of(line) && is_suffix("**"@, line)
}

/// Whether a line gives a paper's title: a list item that names neither a
/// file nor a source.
pub open spec fn is_title(line: Seq<char>) -> bool {
    "- "@.is_prefix_of(line) && !"- File:"@.is_prefix_of(line) && !"- Source:"@.is_prefix_of(line)
}

/// What a line holds between its first and its second backtick; from the
/// first to the end where there is no second, and nothing where there is
/// none.
pub open spec fn quoted(line: Seq<char>) -> Seq<char> {
    let open = first_index(line, '`');
    if open >= line.len() {
        Seq::empty()
    } else {
        let rest = line.skip(open + 1);
        rest.subrange(0, first_index(rest, '`'))
    }
}

/// What follows the first colon of a line; nothing where it has none.
pub open spec fn after_colon(line: Seq<char>) -> Seq<char> {
    let colon = first_index(line, ':');
    if colon >= line.len() {
        Seq::empty()
    } else {
        line.skip(colon + 1)
    }
}

/// The index with the title and the sport noted for a file: a title or a
/// sport that is given replaces what was noted, one that is not given
/// leaves it. A file that has no note yet gets one.
pub open spec fn noted(
    index: Seq<PaperNote>,
    file: Seq<char>,
    title: Option<Seq<char>>,
    sport: Option<Seq<char>>,
) -> Seq<PaperNote> {
    match note_position(index, file) {
        Some(i) => index.update(
            i,
            PaperNote {
                file: index[i].file,
                title: if title is Some {
                    title
                } else {
                    index[i].title
                },
                sport: if sport is Some {
                    sport
                } else {
                    index[i].sport
                },
                source: index[i].source,
            },
        ),
        None => index.push(PaperNote { file, title, sport, source: None }),
    }
}

/// The index with a source noted for a file.
pub open spec fn sourced(index: Seq<PaperNote>, file: Seq<char>, source: Seq<char>) -> Seq<
    PaperNote,
> {
    match note_position(index, file) {
        Some(i) => index.update(
            i,
            PaperNote {
                file: index[i].file,
                title: index[i].title,
                sport: index[i].sport,
                source: Some(source),
            },
        ),
        None => index.push(PaperNote { file, title: None, sport: None, source: Some(source) }),
    }
}

/// The reading of an index after one more line, which is not empty and has
/// no white space at its ends.
///
/// A heading names the sport of what follows, unless it reads "research
/// papers". A title line names the paper that the next file belongs to. A
/// file line notes the title and the sport for the file that it quotes. A
/// source line notes the source for the file noted last.
pub open spec fn after_line(state: IndexState, line: Seq<char>) -> IndexState {
    if is_heading(line) {
        let label = trimmed(without_stars(line));
        if lowercased(label) != "research papers"@ {
            IndexState { sport: Some(label), ..state }
        } else {
            state
        }
    } else if is_title(line) {
        IndexState { title: Some(trimmed(line.skip(2))), file: None, ..state }
    } else if "- File:"@.is_prefix_of(line) {
        match file_name_of(trimmed(quoted(line))) {
            Some(name) => IndexState {
                index: noted(state.index, name, state.title, state.sport),
                file: Some(name),
                ..state
            },
            None => state,
        }
    } else if "- Source:"@.is_prefix_of(line) {
        match state.file {
            Some(file) => IndexState {
                index: sourced(state.index, file, trimmed(after_colon(line))),
                ..state
            },
            None => state,
        }
    } else {
        state
    }
}

/// The reading of an index after the lines of a text: each line is taken
/// without the white space at its ends, and an empty line is passed over.
pub open spec fn after_text(state: IndexState, text: Seq<char>) -> IndexState
    decreases text.len(),
{
    if text.len() == 0 {
        state
    } else {
        let end = first_index(text, '\n');
        let line = trimmed(text.subrange(0, end));
        let next = if line.len() == 0 {
            state
        } else {
            after_line(state, line)
        };
        if 0 <= end < text.len() {
            after_text(next, text.skip(end + 1))
        } else {
            next
        }
    }
}

/// The index of papers that a README holds.
pub open spec fn research_index(content: Seq<char>) -> Seq<PaperNote> {
    after_text(
        IndexState { index: Seq::empty(), sport: None, title: None, file: None },
        content,
    ).index
}

/// Drops the asterisks at both ends.
pub fn trim_stars(s: &str) -> (r: &str)
    ensures
        r@ == without_stars(s@),
{
    let n: usize = s.unicode_len();
    let mut start: usize = 0;
    assert(s@.subrange(0, n as int) =~= s@);
    while start < n && s.get_char(start) == '*'
        invariant
            start <= n,
            n == s@.len(),
            without_leading_stars(s@) == without_leading_stars(s@.subrange(start as int, n as int)),
        decreases n - start,
    {
        assert(s@.subrange(start as int, n as int).drop_first() =~= s@.subrange(
            start as int + 1,
            n as int,
        ));
        start += 1;
    }
    assert(without_leading_stars(s@) == s@.subrange(start as int, n as int));
    let mut end: usize = n;
    while end > start && s.get_char(end - 1) == '*'
        invariant
            start <= end <= n,
            n == s@.len(),
            without_stars(s@) == without_trailing_stars(s@.subrange(start as int, end as int)),
        decreases end - start,
    {
        assert(s@.subrange(start as int, end as int).drop_last() =~= s@.subrange(
            start as int,
            end as int - 1,
        ));
        end -= 1;
    }
    s.substring_char(start, end)
}

/// What a line holds between its first and its second backtick.
pub fn quoted_part(line: &str) -> (r: &str)
    ensures
        r@ == quoted(line@),
{
    let n: usize = line.unicode_len();
    let open: usize = find_first(line, '`');
    if open >= n {
        let r: &str = line.substring_char(0, 0);
        assert(r@ =~= Seq::<char>::empty());
        r
    } else {
        let rest: &str = line.substring_char(open + 1, n);
        assert(rest@ =~= line@.skip(open as int + 1));
        let close: usize = find_first(rest, '`');
        rest.substring_char(0, close)
    }
}

/// What follows the first colon of a line.
pub fn part_after_colon(line: &str) -> (r: &str)
    ensures
        r@ == after_colon(line@),
{
    let n: usize = line.unicode_len();
    let colon: usize = find_first(line, ':');
    if colon >= n {
        let r: &str = line.substring_char(0, 0);
        assert(r@ =~= Seq::<char>::empty());
        r
    } else {
        let r: &str = line.substring_char(colon + 1, n);
        assert(r@ =~= line@.skip(colon as int + 1));
        r
    }
}

/// The position of the note on a file.
pub fn find_note(index: &Vec<PaperMeta>, file: &str) -> (r: Option<usize>)
    ensures
        match r {
            Some(i) => note_position(notes(index@), file@) == Some(i as int) && i < index@.len(),
            None => note_position(notes(index@), file@) is None,
        },
{
    let ghost all = notes(index@);
    let mut i: usize = index.len();
    assert(all.subrange(0, i as int) =~= all);
    while i > 0
        invariant
            i <= index.len(),
            all == notes(index@),
            note_position(all, file@) == note_position(all.subrange(0, i as int), file@),
        decreases i,
    {
        i -= 1;
        assert(all.subrange(0, i as int + 1).drop_last() =~= all.subrange(0, i as int));
        if text_eq(index[i].file.as_str(), file) {
            return Some(i);
        }
    }
    None
}

impl IndexReader {
    /// A reader that has read nothing.
    pub fn new() -> (r: IndexReader)
        ensures
            r@ == (IndexState { index: Seq::empty(), sport: None, title: None, file: None }),
    {
        let r = IndexReader { index: Vec::new(), sport: None, title: None, file: None };
        assert(r@.index =~= Seq::<PaperNote>::empty());
        r
    }

    /// Notes the title and the sport that the reader stands under for a
    /// file, which becomes the file noted last.
    fn note(&mut self, name: &str)
        ensures
            final(self)@ == (IndexState {
                index: noted(old(self)@.index, name@, old(self)@.title, old(self)@.sport),
                file: Some(name@),
                ..old(self)@
            }),
    {
        let ghost before = notes(self.index@);
        match find_note(&self.index, name) {
            Some(i) => {
                let old: PaperMeta = self.index.remove(i);
                let title: Option<String> = match &self.title {
                    Some(t) => Some(t.clone()),
                    None => old.title,
                };
                let sport: Option<String> = match &self.sport {
                    Some(s) => Some(s.clone()),
                    None => old.sport,
                };
                let updated = PaperMeta { file: old.file, title, sport, source: old.source };
                self.index.insert(i, updated);
                assert(notes(self.index@) =~= before.update(i as int, updated@));
            },
            None => {
                let fresh = PaperMeta {
                    file: name.to_string(),
                    title: copy_text(&self.title),
                    sport: copy_text(&self.sport),
                    source: None,
                };
                self.index.push(fresh);
                assert(notes(self.index@) =~= before.push(fresh@));
            },
        }
        self.file = Some(name.to_string());
    }

    /// Notes a source for a file.
    fn add_source(&mut self, file: &str, source: &str)
        ensures
            final(self)@ == (IndexState {
                index: sourced(old(self)@.index, file@, source@),
                ..old(self)@
            }),
    {
        let ghost before = notes(self.index@);
        match find_note(&self.index, file) {
            Some(i) => {
                let old: PaperMeta = self.index.remove(i);
                let updated = PaperMeta {
                    file: old.file,
                    title: old.title,
                    sport: old.sport,
                    source: Some(source.to_string()),
                };
                self.index.insert(i, updated);
                assert(notes(self.index@) =~= before.update(i as int, updated@));
            },
            None => {
                let fresh = PaperMeta {
                    file: file.to_string(),
                    title: None,
                    sport: None,
                    source: Some(source.to_string()),
                };
                self.index.push(fresh);
                assert(notes(self.index@) =~= before.push(fresh@));
            },
        }
    }

    /// Reads one line, which is not empty and has no white space at its
    /// ends.
    pub fn read_line(&mut self, line: &str)
        ensures
            final(self)@ == after_line(old(self)@, line@),
    {
        let n: usize = line.unicode_len();
        if n >= 4 && starts_with(line, "**") && ends_with(line, "**") {
            let label: &str = trim(trim_stars(line));
            let lower: String = lowercase(label);
            if !text_eq(lower.as_str(), "research papers") {
                self.sport = Some(label.to_string());
            }
        } else if starts_with(line, "- ") && !starts_with(line, "- File:") && !starts_with(
            line,
            "- Source:",
        ) {
            proof {
                reveal_strlit("- ");
            }
            let rest: &str = line.substring_char(2, n);
            assert(rest@ =~= line@.skip(2));
            self.title = Some(trim(rest).to_string());
            self.file = None;
        } else if starts_with(line, "- File:") {
            let file: &str = trim(quoted_part(line));
            match file_name(file) {
                Some(name) => {
                    self.note(name);
                },
                None => {},
            }
        } else if starts_with(line, "- Source:") {
            let current: Option<String> = copy_text(&self.file);
            match current {
                Some(file) => {
                    let source: &str = trim(part_after_colon(line));
                    self.add_source(file.as_str(), source);
                },
                None => {},
            }
        }
    }
}

/// Reads the index of papers that a README holds.
pub fn parse_research_index(content: &str) -> (r: Vec<PaperMeta>)
    ensures
        notes(r@) == research_index(content@),
{
    let mut reader: IndexReader = IndexReader::new();
    let total: usize = content.unicode_len();
    let mut start: usize = 0;
    assert(content@.skip(0) =~= content@);
    while start < total
        invariant
            start <= total,
            total == content@.len(),
            research_index(content@) == after_text(reader@, content@.skip(start as int)).index,
        decreases total - start,
    {
        let rest: &str = content.substring_char(start, total);
        assert(rest@ =~= content@.skip(start as int));
        let end: usize = find_first(rest, '\n');
        let line: &str = trim(rest.substring_char(0, end));
        if line.unicode_len() > 0 {
            reader.read_line(line);
        }
        if end < total - start {
            assert(rest@.skip(end as int + 1) =~= content@.skip(start as int + end as int + 1));
            start = start + end + 1;
        } else {
            start = total;
        }
        assert(content@.skip(total as int).len() == 0);
    }
    reader.index
}

/// The name of a paper's file, if the path is that of a PDF.
pub open spec fn pdf_name(path: Seq<char>) -> Option<Seq<char>> {
    match file_name_of(path) {
        Some(name) => if extension_of(name) == Some("pdf"@) {
            Some(name)
        } else {
            None
        },
        None => None,
    }
}

/// The title under which a paper is listed: the one that the index notes
/// for its file, else the file's name without extension, with hyphens as
/// spaces.
pub open spec fn paper_title(index: Seq<PaperNote>, name: Seq<char>) -> Seq<char> {
    match note_position(index, name) {
        Some(i) => match index[i].title {
            Some(title) => title,
            None => spaced_at(stem_of(name), '-'),
        },
        None => spaced_at(stem_of(name), '-'),
    }
}

/// The sport under which a paper is listed: the one that the index notes
/// for its file, else the name of the directory that holds it.
pub open spec fn paper_sport(index: Seq<PaperNote>, name: Seq<char>, sport_dir: Seq<char>) -> Seq<
    char,
> {
    match note_position(index, name) {
        Some(i) => match index[i].sport {
            Some(sport) => sport,
            None => sport_dir,
        },
        None => sport_dir,
    }
}

/// The source that the index notes for a paper's file, if any.
pub open spec fn paper_source(index: Seq<PaperNote>, name: Seq<char>) -> Option<Seq<char>> {
    match note_position(index, name) {
        Some(i) => index[i].source,
        None => None,
    }
}

/// A path as it is shown: relative to the repository where it lies below
/// it, else as it stands.
pub open spec fn shown_path(repo_root: Seq<char>, path: Seq<char>) -> Seq<char> {
    match relative_to(repo_root, path) {
        Some(rest) => rest,
        None => path,
    }
}

/// A path as it is shown.
pub fn show_path(repo_root: &str, path: &str) -> (r: String)
    ensures
        r@ == shown_path(repo_root@, path@),
{
    match to_relative(repo_root, path) {
        Some(rest) => rest,
        None => path.to_string(),
    }
}

/// How the file at `path`, found in the directory of the sport
/// `sport_dir`, is listed as a paper; `None` for a file that is no PDF.
pub fn paper_entry(repo_root: &str, sport_dir: &str, path: &str, index: &Vec<PaperMeta>) -> (r:
    Option<PaperEntry>)
    ensures
        match pdf_name(path@) {
            Some(name) => r is Some && r->0.title@ == paper_title(notes(index@), name)
                && r->0.sport@ == paper_sport(notes(index@), name, sport_dir@) && text_view(
                r->0.source,
            ) == paper_source(notes(index@), name) && r->0.file@ == shown_path(repo_root@, path@),
            None => r is None,
        },
{
    let name: &str = match file_name(path) {
        Some(name) => name,
        None => {
            return None;
        },
    };
    match extension(name) {
        Some(ext) => {
            if !text_eq(ext, "pdf") {
                return None;
            }
        },
        None => {
            return None;
        },
    }
    let file: String = show_path(repo_root, path);
    match find_note(index, name) {
        Some(i) => {
            let meta: &PaperMeta = &index[i];
            assert(notes(index@)[i as int] == meta@);
            let title: String = match &meta.title {
                Some(title) => title.clone(),
                None => replace_with_space(file_stem(name), '-'),
            };
            let sport: String = match &meta.sport {
                Some(sport) => sport.clone(),
                None => sport_dir.to_string(),
            };
            Some(PaperEntry { sport, title, file, source: copy_text(&meta.source) })
        },
        None => Some(
            PaperEntry {
                sport: sport_dir.to_string(),
                title: replace_with_space(file_stem(name), '-'),
                file,
                source: None,
            },
        ),
    }
}

/// Whether a path is that of a notebook.
pub open spec fn is_notebook(path: Seq<char>) -> bool {
    match file_name_of(path) {
        Some(name) => is_suffix(".ipynb"@, name),
        None => false,
    }
}

/// A component of a path as it names a sport or a project: `Unknown` where
/// the path has no such component.
pub open spec fn named_piece(piece: Seq<char>) -> Seq<char> {
    if piece.len() == 0 {
        "Unknown"@
    } else {
        piece
    }
}

/// Where a notebook lies below the directory of projects; a notebook that
/// lies elsewhere is taken by its own path.
pub open spec fn notebook_place(projects_root: Seq<char>, path: Seq<char>) -> Seq<char> {
    match relative_to(projects_root, path) {
        Some(rest) => rest,
        None => path,
    }
}

/// How the file at `path` is listed as a notebook: under the sport and the
/// project that the first two components of its place below the directory
/// of projects name. `None` for a file that is no notebook.
pub fn notebook_entry(repo_root: &str, projects_root: &str, path: &str) -> (r: Option<
    NotebookEntry,
>)
    ensures
        r is Some == is_notebook(path@),
        r is Some ==> r->0.file@ == shown_path(repo_root@, path@) && r->0.sport@ == named_piece(
            first_component(notebook_place(projects_root@, path@)),
        ) && r->0.project@ == named_piece(
            second_component(notebook_place(projects_root@, path@)),
        ),
{
    match file_name(path) {
        Some(name) => {
            if !ends_with(name, ".ipynb") {
                return None;
            }
        },
        None => {
            return None;
        },
    }
    let place: String = show_path(projects_root, path);
    let (sport, project) = first_components(place.as_str());
    let sport: String = if sport.as_str().unicode_len() == 0 {
        "Unknown".to_string()
    } else {
        sport
    };
    let project: String = if project.as_str().unicode_len() == 0 {
        "Unknown".to_string()
    } else {
        project
    };
    Some(NotebookEntry { sport, project, file: show_path(repo_root, path) })
}

} // verus!
