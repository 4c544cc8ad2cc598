//! Paths as text with `/` between components, and the sandbox that keeps a
//! resolved path under its root.
//!
//! A path is read by its components, as `std::path` reads it on a system
//! whose separator is `/`: separators that follow one another count as
//! one, separators at the end count for nothing, and a component `.`
//! counts only where it begins a path that does not start at the
//! filesystem root. A component `..` is a name like any other.

use crate::error::{AppError, ErrorKind};
use crate::text::{append, find_first, find_last, first_index, last_index, text_eq};
use vstd::prelude::*;
use vstd::string::*;

verus! {

/// `rel` adjoined to `base`: an absolute `rel` replaces `base`, otherwise one
/// separator stands between the two unless `base` is empty or ends in one.
pub open spec fn join_spec(base: Seq<char>, rel: Seq<char>) -> Seq<char> {
    if rel.len() > 0 && rel[0] == '/' {
        rel
    } else if base.len() == 0 || base.last() == '/' {
        base + rel
    } else {
        base + seq!['/'] + rel
    }
}

/// `s` without its leading separators.
pub open spec fn strip_leading(s: Seq<char>) -> Seq<char>
    decreases s.len(),
{
    if s.len() > 0 && s[0] == '/' {
        strip_leading(s.drop_first())
    } else {
        s
    }
}

/// Whether `path` starts at the filesystem root.
pub open spec fn is_absolute_spec(path: Seq<char>) -> bool {
    path.len() > 0 && path[0] == '/'
}

/// The first component of a path: what stands before the first separator,
/// leading separators apart. Empty where the path has no component.
pub open spec fn first_piece(path: Seq<char>) -> Seq<char> {
    let rest = strip_leading(path);
    rest.subrange(0, first_index(rest, '/'))
}

/// What follows the first component of a path.
pub open spec fn after_first_piece(path: Seq<char>) -> Seq<char> {
    let rest = strip_leading(path);
    rest.subrange(first_index(rest, '/'), rest.len() as int)
}

/// `path` without the separators and the components `.` that it begins
/// with.
pub open spec fn skip_dots(path: Seq<char>) -> Seq<char>
    decreases path.len(),
    via skip_dots_shrink
{
    if first_piece(path) == seq!['.'] {
        skip_dots(after_first_piece(path))
    } else {
        strip_leading(path)
    }
}

#[via_fn]
proof fn skip_dots_shrink(path: Seq<char>) {
    lemma_first_piece(path);
}

/// The first name of a path: its first component that is not `.`. Empty
/// where the path has none.
pub open spec fn first_name(path: Seq<char>) -> Seq<char> {
    first_piece(skip_dots(path))
}

/// What follows the first name of a path.
pub open spec fn after_first_name(path: Seq<char>) -> Seq<char> {
    after_first_piece(skip_dots(path))
}

/// The names of a path, in their order: its components but for `.`.
pub open spec fn names(path: Seq<char>) -> Seq<Seq<char>>
    decreases path.len(),
    via names_shrink
{
    if first_name(path).len() == 0 {
        Seq::empty()
    } else {
        seq![first_name(path)] + names(after_first_name(path))
    }
}

#[via_fn]
proof fn names_shrink(path: Seq<char>) {
    lemma_first_name(path);
}

/// What follows the first `n` names of a path.
pub open spec fn after_names(path: Seq<char>, n: nat) -> Seq<char>
    decreases n,
{
    if n == 0 {
        path
    } else {
        after_first_name(after_names(path, (n - 1) as nat))
    }
}

/// Whether a path begins with the component `.` that stands for the
/// current directory.
pub open spec fn starts_here(path: Seq<char>) -> bool {
    !is_absolute_spec(path) && first_piece(path) == seq!['.']
}

/// `path` without what counts for nothing at its end: separators, and a
/// `.` behind a separator. A path of one character stays as it is.
pub open spec fn trim_tail(path: Seq<char>) -> Seq<char>
    decreases path.len(),
{
    if path.len() > 1 && path.last() == '/' {
        trim_tail(path.drop_last())
    } else if path.len() > 1 && path.last() == '.' && path[path.len() - 2] == '/' {
        trim_tail(path.drop_last())
    } else {
        path
    }
}

/// The component with which a path begins before any name: the separator
/// for a path that starts at the filesystem root, `.` for one that starts
/// at the current directory.
pub open spec fn head_of(path: Seq<char>) -> Option<Seq<char>> {
    if is_absolute_spec(path) {
        Some(seq!['/'])
    } else if starts_here(path) {
        Some(seq!['.'])
    } else {
        None
    }
}

/// The first component of a path; empty where it has none.
pub open spec fn first_component(path: Seq<char>) -> Seq<char> {
    match head_of(path) {
        Some(head) => head,
        None => first_name(path),
    }
}

/// The second component of a path; empty where it has none.
pub open spec fn second_component(path: Seq<char>) -> Seq<char> {
    match head_of(path) {
        Some(_) => first_name(path),
        None => first_name(after_first_name(path)),
    }
}

/// Whether `path` is `root` itself or lies below it: the two begin alike,
/// at the filesystem root, at the current directory or at neither, and the
/// names of `root` are the first names of `path`. Every path lies below
/// the empty path.
pub open spec fn within(root: Seq<char>, path: Seq<char>) -> bool {
    root.len() == 0 || (is_absolute_spec(root) == is_absolute_spec(path) && starts_here(root)
        == starts_here(path) && names(root).is_prefix_of(names(path)))
}

/// What is left of `path` below `root`, if it lies there: what follows the
/// names of `root`, without what counts for nothing at either end. Below
/// the empty path, a path is left as it is but for its end.
pub open spec fn relative_to(root: Seq<char>, path: Seq<char>) -> Option<Seq<char>> {
    if root.len() == 0 {
        Some(trim_tail(path))
    } else if within(root, path) {
        Some(trim_tail(skip_dots(after_names(path, names(root).len()))))
    } else {
        None
    }
}

/// Leading separators are all that is stripped: what is left is the end of
/// the text, and it begins with no separator.
pub proof fn lemma_strip_leading(s: Seq<char>)
    ensures
        strip_leading(s).len() <= s.len(),
        strip_leading(s).len() > 0 ==> strip_leading(s)[0] != '/',
        strip_leading(s) == s.skip(s.len() - strip_leading(s).len()),
    decreases s.len(),
{
    if s.len() > 0 && s[0] == '/' {
        lemma_strip_leading(s.drop_first());
        let t = strip_leading(s);
        assert(s.drop_first().skip(s.drop_first().len() - t.len()) =~= s.skip(s.len() - t.len()));
    } else {
        assert(s.skip(0) =~= s);
    }
}

/// What is skipped at the beginning of a path makes it no longer, and what
/// is left begins with a name or is empty.
pub proof fn lemma_skip_dots(path: Seq<char>)
    ensures
        skip_dots(path).len() <= path.len(),
        strip_leading(skip_dots(path)) == skip_dots(path),
        first_piece(skip_dots(path)) != seq!['.'],
    decreases path.len(),
{
    lemma_first_piece(path);
    lemma_strip_leading(path);
    if first_piece(path) == seq!['.'] {
        lemma_skip_dots(after_first_piece(path));
    } else {
        lemma_strip_leading(strip_leading(path));
        let t = strip_leading(path);
        if t.len() > 0 {
            assert(strip_leading(t) == t);
        }
    }
}

/// A path has no first name only where nothing is left once its beginning
/// is skipped, and what follows a name is shorter than the path.
pub proof fn lemma_first_name(path: Seq<char>)
    ensures
        first_name(path).len() == 0 <==> skip_dots(path).len() == 0,
        first_name(path).len() > 0 ==> after_first_name(path).len() < path.len(),
        first_name(path) != seq!['.'],
{
    lemma_skip_dots(path);
    lemma_first_piece(skip_dots(path));
}

/// The first component and what follows it make up the path, leading
/// separators apart; a path has no first component only where it holds
/// nothing but separators; and what follows a component is shorter than
/// the path.
pub proof fn lemma_first_piece(path: Seq<char>)
    ensures
        first_piece(path) + after_first_piece(path) == strip_leading(path),
        first_piece(path).len() == 0 <==> strip_leading(path).len() == 0,
        first_piece(path).len() > 0 ==> after_first_piece(path).len() < path.len(),
        after_first_piece(path).len() <= path.len(),
        after_first_piece(path).len() > 0 ==> after_first_piece(path)[0] == '/',
        forall|i: int| 0 <= i < first_piece(path).len() ==> first_piece(path)[i] != '/',
{
    let rest = strip_leading(path);
    lemma_strip_leading(path);
    crate::text::lemma_first_index(rest, '/');
    assert(first_piece(path) + after_first_piece(path) =~= rest);
}

/// Whether `path` starts at the filesystem root.
pub fn is_absolute(path: &str) -> (r: bool)
    ensures
        r == is_absolute_spec(path@),
{
    path.unicode_len() > 0 && path.get_char(0) == '/'
}

/// Adjoins `rel` to `base`.
pub fn join_path(base: &str, rel: &str) -> (r: String)
    ensures
        r@ == join_spec(base@, rel@),
{
    let n: usize = base.unicode_len();
    if is_absolute(rel) {
        rel.to_string()
    } else if n == 0 || base.get_char(n - 1) == '/' {
        append(base, rel)
    } else {
        proof {
            reveal_strlit("/");
            assert("/"@ =~= seq!['/']);
        }
        let head: String = append(base, "/");
        append(head.as_str(), rel)
    }
}

/// Drops the separators that `s` begins with.
pub fn trim_leading_separators(s: &str) -> (r: &str)
    ensures
        r@ == strip_leading(s@),
{
    let n: usize = s.unicode_len();
    let mut i: usize = 0;
    assert(s@.subrange(0, n as int) =~= s@);
    while i < n && s.get_char(i) == '/'
        invariant
            i <= n,
            n == s@.len(),
            strip_leading(s@) == strip_leading(s@.subrange(i as int, n as int)),
        decreases n - i,
    {
        assert(s@.subrange(i as int, n as int).drop_first() =~= s@.subrange(
            i as int + 1,
            n as int,
        ));
        i += 1;
    }
    s.substring_char(i, n)
}

/// Drops what counts for nothing at the end of a path.
pub fn trim_trailing(path: &str) -> (r: &str)
    ensures
        r@ == trim_tail(path@),
{
    let n: usize = path.unicode_len();
    let mut end: usize = n;
    assert(path@.subrange(0, n as int) =~= path@);
    while end > 1 && (path.get_char(end - 1) == '/' || (path.get_char(end - 1) == '.'
        && path.get_char(end - 2) == '/'))
        invariant
            end <= n,
            n == path@.len(),
            trim_tail(path@) == trim_tail(path@.subrange(0, end as int)),
        decreases end,
    {
        assert(path@.subrange(0, end as int).drop_last() =~= path@.subrange(0, end as int - 1));
        end -= 1;
    }
    path.substring_char(0, end)
}

/// Drops the separators and the components `.` that a path begins with.
pub fn skip_leading_dots(path: &str) -> (r: &str)
    ensures
        r@ == skip_dots(path@),
{
    let mut rest: &str = path;
    loop
        invariant
            skip_dots(path@) == skip_dots(rest@),
        decreases rest@.len(),
    {
        let (piece, after) = split_first_piece(rest);
        proof {
            lemma_first_piece(rest@);
            reveal_strlit(".");
            assert("."@ =~= seq!['.']);
        }
        if text_eq(piece, ".") {
            rest = after;
        } else {
            return trim_leading_separators(rest);
        }
    }
}

/// Splits a path into its first name and what follows it.
pub fn split_first_name(path: &str) -> (r: (&str, &str))
    ensures
        r.0@ == first_name(path@),
        r.1@ == after_first_name(path@),
{
    split_first_piece(skip_leading_dots(path))
}

/// Whether a path begins with the component `.` that stands for the
/// current directory.
pub fn begins_here(path: &str) -> (r: bool)
    ensures
        r == starts_here(path@),
{
    if is_absolute(path) {
        return false;
    }
    let (piece, _) = split_first_piece(path);
    proof {
        reveal_strlit(".");
        assert("."@ =~= seq!['.']);
    }
    text_eq(piece, ".")
}

/// The first two components of a path, each empty where the path has no
/// such component.
pub fn first_components(path: &str) -> (r: (String, String))
    ensures
        r.0@ == first_component(path@),
        r.1@ == second_component(path@),
{
    let (name, rest) = split_first_name(path);
    proof {
        reveal_strlit("/");
        reveal_strlit(".");
        assert("/"@ =~= seq!['/']);
        assert("."@ =~= seq!['.']);
    }
    if is_absolute(path) {
        ("/".to_string(), name.to_string())
    } else if begins_here(path) {
        (".".to_string(), name.to_string())
    } else {
        let (next, _) = split_first_name(rest);
        (name.to_string(), next.to_string())
    }
}

/// What follows the names of `root` in `path`, if `path` is `root` itself
/// or lies below it; below the empty path, `path` itself.
pub fn below<'a>(root: &str, path: &'a str) -> (r: Option<&'a str>)
    ensures
        match r {
            Some(rest) => within(root@, path@) && rest@ == if root@.len() == 0 {
                path@
            } else {
                after_names(path@, names(root@).len())
            },
            None => !within(root@, path@),
        },
{
    if root.unicode_len() == 0 {
        return Some(path);
    }
    if is_absolute(root) != is_absolute(path) || begins_here(root) != begins_here(path) {
        return None;
    }
    let mut mine: &str = root;
    let mut theirs: &'a str = path;
    let ghost mut n: nat = 0;
    assert(names(root@).skip(0) =~= names(root@));
    assert(names(path@).skip(0) =~= names(path@));
    assert(names(root@).take(0) =~= names(path@).take(0));
    loop
        invariant
            root@.len() > 0,
            is_absolute_spec(root@) == is_absolute_spec(path@),
            starts_here(root@) == starts_here(path@),
            n <= names(root@).len(),
            n <= names(path@).len(),
            names(root@).take(n as int) == names(path@).take(n as int),
            names(mine@) == names(root@).skip(n as int),
            names(theirs@) == names(path@).skip(n as int),
            theirs@ == after_names(path@, n),
        decreases mine@.len(),
    {
        let (wanted, mine_rest) = split_first_name(mine);
        let (found, theirs_rest) = split_first_name(theirs);
        let ghost all_mine = names(root@);
        let ghost all_theirs = names(path@);
        proof {
            lemma_first_name(mine@);
            lemma_first_name(theirs@);
        }
        if wanted.unicode_len() == 0 {
            assert(names(mine@).len() == 0);
            assert(all_mine.skip(n as int).len() == 0);
            assert(all_mine =~= all_theirs.take(n as int));
            return Some(theirs);
        }
        proof {
            assert(names(mine@) =~= seq![wanted@] + names(mine_rest@));
            assert(all_mine.skip(n as int).len() >= 1);
            assert(all_mine.skip(n as int)[0] == all_mine[n as int]);
            assert(all_mine[n as int] == wanted@);
            assert(names(mine_rest@) =~= names(mine@).skip(1));
            assert(all_mine.skip(n as int).skip(1) =~= all_mine.skip(n as int + 1));
            assert(names(mine_rest@) =~= all_mine.skip(n as int + 1));
            assert(all_mine.take(n as int + 1) =~= all_mine.take(n as int).push(wanted@));
        }
        if found.unicode_len() == 0 {
            assert(names(theirs@).len() == 0);
            assert(all_theirs.skip(n as int).len() == 0);
            return None;
        }
        proof {
            assert(names(theirs@) =~= seq![found@] + names(theirs_rest@));
            assert(all_theirs.skip(n as int).len() >= 1);
            assert(all_theirs.skip(n as int)[0] == all_theirs[n as int]);
            assert(all_theirs[n as int] == found@);
            assert(names(theirs_rest@) =~= names(theirs@).skip(1));
            assert(all_theirs.skip(n as int).skip(1) =~= all_theirs.skip(n as int + 1));
            assert(names(theirs_rest@) =~= all_theirs.skip(n as int + 1));
            assert(all_theirs.take(n as int + 1) =~= all_theirs.take(n as int).push(found@));
        }
        if !text_eq(wanted, found) {
            return None;
        }
        proof {
            n = n + 1;
        }
        mine = mine_rest;
        theirs = theirs_rest;
    }
}

/// Whether `path` is `root` itself or lies below it.
pub fn is_within(root: &str, path: &str) -> (r: bool)
    ensures
        r == within(root@, path@),
{
    below(root, path).is_some()
}

/// The path below `repo_root` that a request names: its leading separators
/// are dropped, so the candidate is always taken relative to the root.
pub fn sandbox_candidate(repo_root: &str, input: &str) -> (r: String)
    ensures
        r@ == join_spec(repo_root@, strip_leading(input@)),
{
    join_path(repo_root, trim_leading_separators(input))
}

/// What the sandbox answers, from the canonical form of the candidate and of
/// the root (`None` where it could not be resolved): the candidate itself
/// where it is the root or lies below it, else the kind of the refusal.
pub open spec fn sandbox_outcome(canonical: Option<Seq<char>>, root: Option<Seq<char>>) -> Result<
    Seq<char>,
    ErrorKind,
> {
    match canonical {
        None => Err(ErrorKind::NotFound),
        Some(path) => match root {
            None => Err(ErrorKind::Internal),
            Some(base) => if within(base, path) {
                Ok(path)
            } else {
                Err(ErrorKind::Forbidden)
            },
        },
    }
}

/// The message that goes with a refusal of the sandbox.
pub open spec fn sandbox_message(kind: ErrorKind) -> Seq<char> {
    match kind {
        ErrorKind::Forbidden => "Path not allowed"@,
        ErrorKind::Internal => "Failed to resolve repo"@,
        _ => "File not found"@,
    }
}

/// The view of an optional text.
pub open spec fn text_view(t: Option<String>) -> Option<Seq<char>> {
    match t {
        Some(s) => Some(s@),
        None => None,
    }
}

/// Decides whether a request may reach a path, from the canonical form of
/// the candidate and of the root (`None` where it could not be resolved).
///
/// A candidate that does not exist is not found; a root that cannot be
/// resolved is an internal failure; a candidate that resolves outside the
/// root is forbidden. Only a path that is the root or lies below it is
/// handed back.
pub fn sanitize_path(canonical: Option<String>, root: Option<String>) -> (r: Result<
    String,
    AppError,
>)
    ensures
        match sandbox_outcome(text_view(canonical), text_view(root)) {
            Ok(path) => r is Ok && r->Ok_0@ == path,
            Err(kind) => r is Err && r->Err_0.kind == kind && r->Err_0.message@
                == sandbox_message(kind),
        },
{
    match canonical {
        None => Err(AppError::not_found("File not found")),
        Some(path) => match root {
            None => Err(AppError::internal("Failed to resolve repo")),
            Some(base) => {
                if is_within(base.as_str(), path.as_str()) {
                    Ok(path)
                } else {
                    Err(AppError::forbidden("Path not allowed"))
                }
            },
        },
    }
}

/// However the candidate resolved, the sandbox hands back no path outside
/// the root: a candidate that resolves outside it is forbidden, one that
/// does not resolve is not found, and a path that is handed back is the
/// root or lies below it.
pub proof fn lemma_sandbox_contains(canonical: Option<Seq<char>>, root: Option<Seq<char>>)
    ensures
        sandbox_outcome(canonical, root) matches Ok(path) ==> root is Some && canonical == Some(
            path,
        ) && within(root->0, path),
        canonical is None ==> sandbox_outcome(canonical, root) == Err::<Seq<char>, ErrorKind>(
            ErrorKind::NotFound,
        ),
        canonical is Some && root is Some && !within(root->0, canonical->0) ==> sandbox_outcome(
            canonical,
            root,
        ) == Err::<Seq<char>, ErrorKind>(ErrorKind::Forbidden),
{
}

/// The last component of a path: what follows the last separator of the
/// path, once what counts for nothing at its end is dropped. A path
/// without components has none, nor has one whose last component is `.`
/// or `..`.
pub open spec fn file_name_of(path: Seq<char>) -> Option<Seq<char>> {
    let whole = trim_tail(path);
    let name = whole.subrange(last_index(whole, '/') + 1, whole.len() as int);
    if name.len() == 0 || name == "."@ || name == ".."@ {
        None
    } else {
        Some(name)
    }
}

/// The extension of a file name: what follows its last dot, unless the
/// name has no dot or only the one that it begins with.
pub open spec fn extension_of(name: Seq<char>) -> Option<Seq<char>> {
    let dot = last_index(name, '.');
    if dot <= 0 {
        None
    } else {
        Some(name.subrange(dot + 1, name.len() as int))
    }
}

/// A file name without its extension.
pub open spec fn stem_of(name: Seq<char>) -> Seq<char> {
    let dot = last_index(name, '.');
    if dot <= 0 {
        name
    } else {
        name.subrange(0, dot)
    }
}

/// The last component of a path.
pub fn file_name(path: &str) -> (r: Option<&str>)
    ensures
        match file_name_of(path@) {
            Some(name) => r is Some && r->0@ == name,
            None => r is None,
        },
{
    let whole: &str = trim_trailing(path);
    let n: usize = whole.unicode_len();
    let start: usize = match find_last(whole, '/') {
        Some(k) => k + 1,
        None => 0,
    };
    let name: &str = whole.substring_char(start, n);
    if name.unicode_len() == 0 || text_eq(name, ".") || text_eq(name, "..") {
        None
    } else {
        Some(name)
    }
}

/// The extension of a file name.
pub fn extension(name: &str) -> (r: Option<&str>)
    ensures
        match extension_of(name@) {
            Some(ext) => r is Some && r->0@ == ext,
            None => r is None,
        },
{
    let n: usize = name.unicode_len();
    match find_last(name, '.') {
        Some(dot) => {
            if dot == 0 {
                None
            } else {
                Some(name.substring_char(dot + 1, n))
            }
        },
        None => None,
    }
}

/// A file name without its extension.
pub fn file_stem(name: &str) -> (r: &str)
    ensures
        r@ == stem_of(name@),
{
    match find_last(name, '.') {
        Some(dot) => {
            if dot == 0 {
                name
            } else {
                name.substring_char(0, dot)
            }
        },
        None => name,
    }
}

/// Splits a path into its first component and what follows it.
pub fn split_first_piece(path: &str) -> (r: (&str, &str))
    ensures
        r.0@ == first_piece(path@),
        r.1@ == after_first_piece(path@),
{
    let rest: &str = trim_leading_separators(path);
    let k: usize = find_first(rest, '/');
    (rest.substring_char(0, k), rest.substring_char(k, rest.unicode_len()))
}

/// What is left of `path` below `repo_root`, or `None` if it is elsewhere.
pub fn to_relative(repo_root: &str, path: &str) -> (r: Option<String>)
    ensures
        match relative_to(repo_root@, path@) {
            Some(rest) => r is Some && r->0@ == rest,
            None => r is None,
        },
{
    match below(repo_root, path) {
        Some(rest) => {
            if repo_root.unicode_len() == 0 {
                Some(trim_trailing(rest).to_string())
            } else {
                Some(trim_trailing(skip_leading_dots(rest)).to_string())
            }
        },
        None => None,
    }
}

} // verus!
