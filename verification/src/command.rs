//! Builds the invocation of a project's program from an untyped parameter
//! map, by the fixed parameter schema of the project's kind.

use crate::error::ValidationError;
use crate::json::{fields_view, find_field, lookup, texts, Json, JsonValue};
use crate::path::{join_path, join_spec};
use crate::project::{ProjectInfo, ProjectKind};
use crate::text::{decimal_text, i64_text, parse_i64, parse_i64_spec};
use vstd::prelude::*;
use vstd::string::*;

verus! {

/// The type that a schema entry expects of its value.
#[derive(Clone, Copy, Debug, PartialEq, Eq, Structural)]
pub enum ParamType {
    /// A text, passed as `--flag value`.
    Text,
    /// A whole number, passed as `--flag value`.
    Integer,
    /// A switch, passed as a bare `--flag` when it is on.
    Flag,
}

/// The value that a schema entry falls back on.
#[derive(Clone, Copy, Debug, PartialEq, Eq)]
pub enum ParamDefault {
    Absent,
    Text(&'static str),
    Integer(i64),
    Flag(bool),
}

/// One entry of a parameter schema.
#[derive(Clone, Copy, Debug, PartialEq, Eq)]
pub struct ParamRule {
    /// The key under which the parameter map holds the value.
    pub key: &'static str,
    /// The flag under which the value is passed to the program.
    pub flag: &'static str,
    pub kind: ParamType,
    pub required: bool,
    pub default: ParamDefault,
    /// A legacy key, consulted only where `key` is absent from the map.
    /// What stands under it is taken as the entry's value.
    pub alias: Option<&'static str>,
}

/// The validated invocation of a project's program.
#[derive(Debug)]
pub struct CommandSpec {
    /// The executable's name.
    pub program: String,
    /// Its arguments, in order.
    pub args: Vec<String>,
}

/// A schema entry for a text.
pub open spec fn text_rule(
    key: &'static str,
    flag: &'static str,
    required: bool,
    default: ParamDefault,
) -> ParamRule {
    ParamRule { key, flag, kind: ParamType::Text, required, default, alias: None }
}

/// A schema entry for a whole number, which is always required.
pub open spec fn integer_rule(
    key: &'static str,
    flag: &'static str,
    default: ParamDefault,
    alias: Option<&'static str>,
) -> ParamRule {
    ParamRule { key, flag, kind: ParamType::Integer, required: true, default, alias }
}

/// A schema entry for a switch.
pub open spec fn flag_rule(key: &'static str, flag: &'static str) -> ParamRule {
    ParamRule {
        key,
        flag,
        kind: ParamType::Flag,
        required: false,
        default: ParamDefault::Absent,
        alias: None,
    }
}

/// The ordered parameter schema of a kind of project; empty for a kind that
/// has none.
pub open spec fn schema(kind: ProjectKind) -> Seq<ParamRule> {
    match kind {
        ProjectKind::F1 => seq![
            text_rule("mode", "--mode", true, ParamDefault::Absent),
            text_rule("source", "--source", true, ParamDefault::Absent),
            integer_rule("year", "--year", ParamDefault::Integer(2026), None),
            integer_rule("round_number", "--round", ParamDefault::Absent, Some("round")),
            text_rule("train_seasons", "--train-seasons", false, ParamDefault::Text("auto")),
            flag_rule("include_standings", "--include-standings"),
            text_rule("cache_dir", "--cache-dir", false, ParamDefault::Absent),
            text_rule("meeting_name", "--meeting-name", false, ParamDefault::Absent),
            text_rule("country_name", "--country-name", false, ParamDefault::Absent),
        ],
        ProjectKind::Football => seq![
            text_rule("mode", "--mode", true, ParamDefault::Absent),
            text_rule("league", "--league", true, ParamDefault::Absent),
            integer_rule("season", "--season", ParamDefault::Integer(2026), None),
            integer_rule("round_number", "--round", ParamDefault::Absent, Some("round")),
            text_rule("data_source", "--data-source", false, ParamDefault::Text("placeholder")),
            text_rule("train_seasons", "--train-seasons", false, ParamDefault::Text("auto")),
            text_rule("cache_dir", "--cache-dir", false, ParamDefault::Absent),
        ],
        ProjectKind::Unknown => Seq::empty(),
    }
}

/// What a text entry comes to where the map gives it no usable value: its
/// default if it has one, else an error if it is required, else nothing.
pub open spec fn fallback_text(rule: ParamRule) -> Result<Option<Seq<char>>, ValidationError> {
    match rule.default {
        ParamDefault::Text(d) => Ok(Some(d@)),
        _ => if rule.required {
            Err(ValidationError::MissingParameter(rule.key))
        } else {
            Ok(None)
        },
    }
}

/// What an integer entry comes to where the map gives it no usable value.
pub open spec fn fallback_integer(rule: ParamRule) -> Result<Option<i64>, ValidationError> {
    match rule.default {
        ParamDefault::Integer(n) => Ok(Some(n)),
        _ => if rule.required {
            Err(ValidationError::MissingParameter(rule.key))
        } else {
            Ok(None)
        },
    }
}

/// The value that the map holds for an entry: the one under its key, and
/// where the map has no such key the one under its legacy key, if it has
/// one.
pub open spec fn entry_value(rule: ParamRule, params: Seq<(Seq<char>, Json)>) -> Option<Json> {
    match lookup(params, rule.key@) {
        Some(value) => Some(value),
        None => match rule.alias {
            Some(alias) => lookup(params, alias@),
            None => None,
        },
    }
}

/// A text entry takes a text as it stands, but an empty text counts as
/// absent for an optional entry. A value of any other type is invalid.
/// Only where the map holds no value does the entry fall back.
pub open spec fn text_of(rule: ParamRule, params: Seq<(Seq<char>, Json)>) -> Result<
    Option<Seq<char>>,
    ValidationError,
> {
    match entry_value(rule, params) {
        Some(Json::Text(s)) => if s.len() == 0 && !rule.required {
            fallback_text(rule)
        } else {
            Ok(Some(s))
        },
        Some(_) => Err(ValidationError::InvalidParameter(rule.key)),
        None => fallback_text(rule),
    }
}

/// The whole number that a JSON number holds, if it holds one that fits 64
/// bits.
pub open spec fn as_integer(value: Json) -> Option<i64> {
    match value {
        Json::Number(t) => parse_i64_spec(t),
        _ => None,
    }
}

/// An integer entry takes a whole number, or a text that writes one. Any
/// other value is invalid: a text that writes no whole number, a number
/// with a fraction or beyond 64 bits, a value of another type. Only where
/// the map holds no value does the entry fall back.
pub open spec fn integer_of(rule: ParamRule, params: Seq<(Seq<char>, Json)>) -> Result<
    Option<i64>,
    ValidationError,
> {
    match entry_value(rule, params) {
        Some(Json::Text(s)) => match parse_i64_spec(s) {
            Some(n) => Ok(Some(n)),
            None => Err(ValidationError::InvalidParameter(rule.key)),
        },
        Some(value) => match as_integer(value) {
            Some(n) => Ok(Some(n)),
            None => Err(ValidationError::InvalidParameter(rule.key)),
        },
        None => fallback_integer(rule),
    }
}

/// Whether a switch is on where the map holds no value for it.
pub open spec fn fallback_flag(rule: ParamRule) -> bool {
    match rule.default {
        ParamDefault::Flag(on) => on,
        _ => false,
    }
}

/// A switch takes a boolean. A value of any other type is invalid. Only
/// where the map holds no value does the switch fall back.
pub open spec fn flag_of(rule: ParamRule, params: Seq<(Seq<char>, Json)>) -> Result<
    bool,
    ValidationError,
> {
    match entry_value(rule, params) {
        Some(Json::Bool(on)) => Ok(on),
        Some(_) => Err(ValidationError::InvalidParameter(rule.key)),
        None => Ok(fallback_flag(rule)),
    }
}

/// The arguments that one entry emits: the flag and the value of a text or
/// an integer that has one, the bare flag of a switch that is on, and
/// nothing otherwise.
pub open spec fn segment(rule: ParamRule, params: Seq<(Seq<char>, Json)>) -> Seq<Seq<char>> {
    match rule.kind {
        ParamType::Text => match text_of(rule, params) {
            Ok(Some(v)) => seq![rule.flag@, v],
            _ => Seq::empty(),
        },
        ParamType::Integer => match integer_of(rule, params) {
            Ok(Some(n)) => seq![rule.flag@, decimal_text(n as int)],
            _ => Seq::empty(),
        },
        ParamType::Flag => match flag_of(rule, params) {
            Ok(true) => seq![rule.flag@],
            _ => Seq::empty(),
        },
    }
}

/// The error that one entry raises, if any.
pub open spec fn rule_error(rule: ParamRule, params: Seq<(Seq<char>, Json)>) -> Option<
    ValidationError,
> {
    match rule.kind {
        ParamType::Text => match text_of(rule, params) {
            Err(e) => Some(e),
            Ok(_) => None,
        },
        ParamType::Integer => match integer_of(rule, params) {
            Err(e) => Some(e),
            Ok(_) => None,
        },
        ParamType::Flag => match flag_of(rule, params) {
            Err(e) => Some(e),
            Ok(_) => None,
        },
    }
}

/// The arguments that the entries of a schema emit, in schema order.
pub open spec fn schema_args(rules: Seq<ParamRule>, params: Seq<(Seq<char>, Json)>) -> Seq<
    Seq<char>,
>
    decreases rules.len(),
{
    if rules.len() == 0 {
        Seq::empty()
    } else {
        schema_args(rules.drop_last(), params) + segment(rules.last(), params)
    }
}

/// The error of the first entry, in schema order, that raises one.
pub open spec fn schema_error(rules: Seq<ParamRule>, params: Seq<(Seq<char>, Json)>) -> Option<
    ValidationError,
>
    decreases rules.len(),
{
    if rules.len() == 0 {
        None
    } else {
        match schema_error(rules.drop_last(), params) {
            Some(e) => Some(e),
            None => rule_error(rules.last(), params),
        }
    }
}

/// The arguments that close every invocation: the output format, the path
/// of the run's artifact, and the quiet switch.
pub open spec fn trailer(output_path: Seq<char>) -> Seq<Seq<char>> {
    seq!["--output-format"@, "json"@, "--output-path"@, output_path, "--quiet"@]
}

/// The path of a project's program.
pub open spec fn script_path(python_dir: Seq<char>) -> Seq<char> {
    join_spec(python_dir, "run_prediction.py"@)
}

/// The argument sequence of a valid invocation: the program's path, what
/// the schema emits, and the trailer.
pub open spec fn command_args(
    kind: ProjectKind,
    params: Seq<(Seq<char>, Json)>,
    python_dir: Seq<char>,
    output_path: Seq<char>,
) -> Seq<Seq<char>> {
    seq![script_path(python_dir)] + schema_args(schema(kind), params) + trailer(output_path)
}

/// Why a parameter map is rejected, if it is: an unknown kind before any
/// parameter is looked at, else the first error in schema order.
pub open spec fn command_error(kind: ProjectKind, params: Seq<(Seq<char>, Json)>) -> Option<
    ValidationError,
> {
    if kind == ProjectKind::Unknown {
        Some(ValidationError::UnknownProjectKind)
    } else {
        schema_error(schema(kind), params)
    }
}

/// The value that the map holds for an entry.
pub fn entry_of<'a>(params: &'a Vec<(String, JsonValue)>, rule: &ParamRule) -> (r: Option<
    &'a JsonValue,
>)
    ensures
        match r {
            Some(v) => entry_value(*rule, fields_view(params@)) == Some(v@),
            None => entry_value(*rule, fields_view(params@)) is None,
        },
{
    match find_field(params, rule.key) {
        Some(value) => Some(value),
        None => match rule.alias {
            Some(alias) => find_field(params, alias),
            None => None,
        },
    }
}

/// The text of a text entry for a parameter map.
pub fn get_str(params: &Vec<(String, JsonValue)>, rule: &ParamRule) -> (r: Result<
    Option<String>,
    ValidationError,
>)
    ensures
        match text_of(*rule, fields_view(params@)) {
            Ok(Some(v)) => r is Ok && r->Ok_0 is Some && r->Ok_0->0@ == v,
            Ok(None) => r is Ok && r->Ok_0 is None,
            Err(e) => r is Err && r->Err_0 == e,
        },
{
    match entry_of(params, rule) {
        Some(JsonValue::Text(s)) => {
            if !(s.as_str().unicode_len() == 0 && !rule.required) {
                return Ok(Some(s.clone()));
            }
        },
        Some(_) => {
            return Err(ValidationError::InvalidParameter(rule.key));
        },
        None => {},
    }
    match rule.default {
        ParamDefault::Text(d) => Ok(Some(d.to_string())),
        _ => if rule.required {
            Err(ValidationError::MissingParameter(rule.key))
        } else {
            Ok(None)
        },
    }
}

/// The whole number that a document holds, if it is a number that holds one.
pub fn as_i64(value: &JsonValue) -> (r: Option<i64>)
    ensures
        r == as_integer(value@),
{
    match value {
        JsonValue::Number(t) => parse_i64(t.as_str()),
        _ => None,
    }
}

/// The whole number of an integer entry for a parameter map.
pub fn get_i64(params: &Vec<(String, JsonValue)>, rule: &ParamRule) -> (r: Result<
    Option<i64>,
    ValidationError,
>)
    ensures
        r == integer_of(*rule, fields_view(params@)),
{
    match entry_of(params, rule) {
        Some(JsonValue::Text(s)) => match parse_i64(s.as_str()) {
            Some(n) => Ok(Some(n)),
            None => Err(ValidationError::InvalidParameter(rule.key)),
        },
        Some(value) => match as_i64(value) {
            Some(n) => Ok(Some(n)),
            None => Err(ValidationError::InvalidParameter(rule.key)),
        },
        None => match rule.default {
            ParamDefault::Integer(n) => Ok(Some(n)),
            _ => if rule.required {
                Err(ValidationError::MissingParameter(rule.key))
            } else {
                Ok(None)
            },
        },
    }
}

/// Whether a switch is on for a parameter map.
pub fn get_bool(params: &Vec<(String, JsonValue)>, rule: &ParamRule) -> (r: Result<
    bool,
    ValidationError,
>)
    ensures
        r == flag_of(*rule, fields_view(params@)),
{
    match entry_of(params, rule) {
        Some(JsonValue::Bool(on)) => Ok(*on),
        Some(_) => Err(ValidationError::InvalidParameter(rule.key)),
        None => match rule.default {
            ParamDefault::Flag(on) => Ok(on),
            _ => Ok(false),
        },
    }
}

/// Builds the invocation of `project`'s program for a parameter map, with
/// `output_path` as the place of the run's artifact.
///
/// An unknown kind is rejected before any parameter is looked at. Otherwise
/// the entries of the kind's schema are resolved in order, and the first
/// that is missing or invalid rejects the map: a value that is there and is
/// not of the entry's type is invalid, and only a value that is not there
/// falls back on the default. A valid map gives the program's path, what
/// each entry emits, and the fixed trailer.
pub fn build_command(
    project: &ProjectInfo,
    params: &Vec<(String, JsonValue)>,
    output_path: &str,
) -> (r: Result<CommandSpec, ValidationError>)
    ensures
        match command_error(project.kind, fields_view(params@)) {
            Some(e) => r is Err && r->Err_0 == e,
            None => r is Ok && r->Ok_0.program@ == "python"@ && texts(r->Ok_0.args@)
                == command_args(
                project.kind,
                fields_view(params@),
                project.python_dir@,
                output_path@,
            ),
        },
{
    if project.kind == ProjectKind::Unknown {
        return Err(ValidationError::UnknownProjectKind);
    }
    let rules: Vec<ParamRule> = command_schema(project.kind);
    let ghost pv = fields_view(params@);
    let mut args: Vec<String> = Vec::new();
    args.push(join_path(project.python_dir.as_str(), "run_prediction.py"));
    assert(texts(args@) =~= seq![script_path(project.python_dir@)]);
    assert(rules@.take(0) =~= Seq::<ParamRule>::empty());
    let mut i: usize = 0;
    while i < rules.len()
        invariant
            i <= rules.len(),
            pv == fields_view(params@),
            rules@ == schema(project.kind),
            project.kind != ProjectKind::Unknown,
            schema_error(rules@.take(i as int), pv) is None,
            texts(args@) == seq![script_path(project.python_dir@)] + schema_args(
                rules@.take(i as int),
                pv,
            ),
        decreases rules.len() - i,
    {
        let rule: ParamRule = rules[i];
        let ghost before = texts(args@);
        assert(rules@.take(i as int + 1).drop_last() =~= rules@.take(i as int));
        assert(rules@.take(i as int + 1).last() == rule);
        match rule.kind {
            ParamType::Text => match get_str(params, &rule) {
                Ok(Some(value)) => {
                    args.push(rule.flag.to_string());
                    args.push(value);
                },
                Ok(None) => {},
                Err(e) => {
                    proof {
                        lemma_error_persists(rules@, pv, i as int + 1);
                    }
                    return Err(e);
                },
            },
            ParamType::Integer => match get_i64(params, &rule) {
                Ok(Some(n)) => {
                    args.push(rule.flag.to_string());
                    args.push(i64_text(n));
                },
                Ok(None) => {},
                Err(e) => {
                    proof {
                        lemma_error_persists(rules@, pv, i as int + 1);
                    }
                    return Err(e);
                },
            },
            ParamType::Flag => match get_bool(params, &rule) {
                Ok(on) => {
                    if on {
                        args.push(rule.flag.to_string());
                    }
                },
                Err(e) => {
                    proof {
                        lemma_error_persists(rules@, pv, i as int + 1);
                    }
                    return Err(e);
                },
            },
        }
        assert(texts(args@) =~= before + segment(rule, pv));
        i += 1;
    }
    assert(rules@.take(rules.len() as int) =~= rules@);
    let ghost body = texts(args@);
    args.push("--output-format".to_string());
    args.push("json".to_string());
    args.push("--output-path".to_string());
    args.push(output_path.to_string());
    args.push("--quiet".to_string());
    assert(texts(args@) =~= body + trailer(output_path@));
    Ok(CommandSpec { program: "python".to_string(), args })
}

/// An error among the first `k` entries of a schema is the error of the
/// whole schema.
pub proof fn lemma_error_persists(rules: Seq<ParamRule>, params: Seq<(Seq<char>, Json)>, k: int)
    requires
        0 <= k <= rules.len(),
        schema_error(rules.take(k), params) is Some,
    ensures
        schema_error(rules, params) == schema_error(rules.take(k), params),
    decreases rules.len(),
{
    if k == rules.len() {
        assert(rules.take(k) =~= rules);
    } else {
        assert(rules.drop_last().take(k) =~= rules.take(k));
        lemma_error_persists(rules.drop_last(), params, k);
    }
}

/// The ordered parameter schema of a kind of project.
pub fn command_schema(kind: ProjectKind) -> (rules: Vec<ParamRule>)
    ensures
        rules@ == schema(kind),
{
    let rules: Vec<ParamRule> = match kind {
        ProjectKind::F1 => vec![
            text_entry("mode", "--mode", true, ParamDefault::Absent),
            text_entry("source", "--source", true, ParamDefault::Absent),
            integer_entry("year", "--year", ParamDefault::Integer(2026), None),
            integer_entry("round_number", "--round", ParamDefault::Absent, Some("round")),
            text_entry("train_seasons", "--train-seasons", false, ParamDefault::Text("auto")),
            flag_entry("include_standings", "--include-standings"),
            text_entry("cache_dir", "--cache-dir", false, ParamDefault::Absent),
            text_entry("meeting_name", "--meeting-name", false, ParamDefault::Absent),
            text_entry("country_name", "--country-name", false, ParamDefault::Absent),
        ],
        ProjectKind::Football => vec![
            text_entry("mode", "--mode", true, ParamDefault::Absent),
            text_entry("league", "--league", true, ParamDefault::Absent),
            integer_entry("season", "--season", ParamDefault::Integer(2026), None),
            integer_entry("round_number", "--round", ParamDefault::Absent, Some("round")),
            text_entry("data_source", "--data-source", false, ParamDefault::Text("placeholder")),
            text_entry("train_seasons", "--train-seasons", false, ParamDefault::Text("auto")),
            text_entry("cache_dir", "--cache-dir", false, ParamDefault::Absent),
        ],
        ProjectKind::Unknown => Vec::new(),
    };
    assert(rules@ =~= schema(kind));
    rules
}

/// A schema entry for a text.
fn text_entry(key: &'static str, flag: &'static str, required: bool, default: ParamDefault) -> (r:
    ParamRule)
    ensures
        r == text_rule(key, flag, required, default),
{
    ParamRule { key, flag, kind: ParamType::Text, required, default, alias: None }
}

/// A schema entry for a whole number.
fn integer_entry(
    key: &'static str,
    flag: &'static str,
    default: ParamDefault,
    alias: Option<&'static str>,
) -> (r: ParamRule)
    ensures
        r == integer_rule(key, flag, default, alias),
{
    ParamRule { key, flag, kind: ParamType::Integer, required: true, default, alias }
}

/// A schema entry for a switch.
fn flag_entry(key: &'static str, flag: &'static str) -> (r: ParamRule)
    ensures
        r == flag_rule(key, flag),
{
    ParamRule {
        key,
        flag,
        kind: ParamType::Flag,
        required: false,
        default: ParamDefault::Absent,
        alias: None,
    }
}


/// How often `x` stands in `args`.
pub open spec fn occurrences(args: Seq<Seq<char>>, x: Seq<char>) -> nat
    decreases args.len(),
{
    if args.len() == 0 {
        0
    } else {
        occurrences(args.drop_last(), x) + if args.last() == x {
            1nat
        } else {
            0nat
        }
    }
}

/// Whether no value that the invocation passes is the text `x`: neither
/// the program's path, nor the artifact's path, nor the value behind any
/// flag.
pub open spec fn no_value_is(
    kind: ProjectKind,
    params: Seq<(Seq<char>, Json)>,
    python_dir: Seq<char>,
    output_path: Seq<char>,
    x: Seq<char>,
) -> bool {
    &&& script_path(python_dir) != x
    &&& output_path != x
    &&& forall|j: int|
        0 <= j < schema(kind).len() && (#[trigger] segment(schema(kind)[j], params)).len() == 2
            ==> segment(schema(kind)[j], params)[1] != x
}

/// Occurrences add up over concatenation.
proof fn lemma_occurrences_concat(a: Seq<Seq<char>>, b: Seq<Seq<char>>, x: Seq<char>)
    ensures
        occurrences(a + b, x) == occurrences(a, x) + occurrences(b, x),
    decreases b.len(),
{
    if b.len() == 0 {
        assert(a + b =~= a);
    } else {
        assert((a + b).drop_last() =~= a + b.drop_last());
        lemma_occurrences_concat(a, b.drop_last(), x);
    }
}

/// The occurrences in a sequence of at most two texts.
proof fn lemma_occurrences_short(a: Seq<Seq<char>>, x: Seq<char>)
    requires
        a.len() <= 2,
    ensures
        a.len() == 0 ==> occurrences(a, x) == 0,
        a.len() == 1 ==> occurrences(a, x) == if a[0] == x {
            1nat
        } else {
            0nat
        },
        a.len() == 2 ==> occurrences(a, x) == (if a[0] == x {
            1nat
        } else {
            0nat
        }) + (if a[1] == x {
            1nat
        } else {
            0nat
        }),
{
    reveal_with_fuel(occurrences, 3);
    if a.len() == 2 {
        assert(a.drop_last().last() == a[0]);
    }
}

/// No error in a schema means no error in any of its entries.
proof fn lemma_no_rule_error(rules: Seq<ParamRule>, params: Seq<(Seq<char>, Json)>, i: int)
    requires
        schema_error(rules, params) is None,
        0 <= i < rules.len(),
    ensures
        rule_error(rules[i], params) is None,
    decreases rules.len(),
{
    if i < rules.len() - 1 {
        lemma_no_rule_error(rules.drop_last(), params, i);
    }
}

/// Entries whose flags and values all differ from `x` never emit `x`.
proof fn lemma_schema_without(rules: Seq<ParamRule>, params: Seq<(Seq<char>, Json)>, x: Seq<char>)
    requires
        forall|j: int| 0 <= j < rules.len() ==> (#[trigger] rules[j]).flag@ != x,
        forall|j: int|
            0 <= j < rules.len() && (#[trigger] segment(rules[j], params)).len() == 2 ==> segment(
                rules[j],
                params,
            )[1] != x,
    ensures
        occurrences(schema_args(rules, params), x) == 0,
    decreases rules.len(),
{
    if rules.len() > 0 {
        let front = rules.drop_last();
        assert forall|j: int| 0 <= j < front.len() implies (#[trigger] front[j]).flag@ != x by {
            assert(front[j] == rules[j]);
        }
        assert forall|j: int|
            0 <= j < front.len() && (#[trigger] segment(front[j], params)).len() == 2 implies segment(
            front[j],
            params,
        )[1] != x by {
            assert(front[j] == rules[j]);
        }
        lemma_schema_without(front, params, x);
        let last = segment(rules.last(), params);
        assert(rules.last() == rules[rules.len() - 1]);
        lemma_occurrences_short(last, x);
        lemma_occurrences_concat(schema_args(front, params), last, x);
    }
}

/// Where the flag of entry `i` is no other entry's flag and no entry's
/// value, it stands once among the emitted arguments if the entry emits
/// anything, and not at all otherwise.
proof fn lemma_schema_flag_count(
    rules: Seq<ParamRule>,
    params: Seq<(Seq<char>, Json)>,
    i: int,
)
    requires
        0 <= i < rules.len(),
        forall|j: int| 0 <= j < rules.len() && j != i ==> (#[trigger] rules[j]).flag@ != rules[i].flag@,
        forall|j: int|
            0 <= j < rules.len() && (#[trigger] segment(rules[j], params)).len() == 2 ==> segment(
                rules[j],
                params,
            )[1] != rules[i].flag@,
    ensures
        occurrences(schema_args(rules, params), rules[i].flag@) == if segment(rules[i], params).len()
            > 0 {
            1nat
        } else {
            0nat
        },
    decreases rules.len(),
{
    let x = rules[i].flag@;
    let front = rules.drop_last();
    let last = segment(rules.last(), params);
    assert(rules.last() == rules[rules.len() - 1]);
    lemma_occurrences_short(last, x);
    lemma_occurrences_concat(schema_args(front, params), last, x);
    assert forall|j: int|
        0 <= j < front.len() && (#[trigger] segment(front[j], params)).len() == 2 implies segment(
        front[j],
        params,
    )[1] != x by {
        assert(front[j] == rules[j]);
    }
    if i == rules.len() - 1 {
        assert forall|j: int| 0 <= j < front.len() implies (#[trigger] front[j]).flag@ != x by {
            assert(front[j] == rules[j]);
        }
        lemma_schema_without(front, params, x);
    } else {
        assert(front[i] == rules[i]);
        assert forall|j: int| 0 <= j < front.len() && j != i implies (#[trigger] front[j]).flag@
            != front[i].flag@ by {
            assert(front[j] == rules[j]);
        }
        lemma_schema_flag_count(front, params, i);
    }
}

/// The flags of a schema differ from one another and from the words of the
/// trailer.
proof fn lemma_flags_distinct(kind: ProjectKind)
    ensures
        forall|i: int, j: int|
            0 <= i < schema(kind).len() && 0 <= j < schema(kind).len() && i != j ==> (
            #[trigger] schema(kind)[i]).flag@ != (#[trigger] schema(kind)[j]).flag@,
        forall|i: int|
            0 <= i < schema(kind).len() ==> {
                let f = (#[trigger] schema(kind)[i]).flag@;
                f != "--output-format"@ && f != "json"@ && f != "--output-path"@ && f != "--quiet"@
            },
{
    reveal_strlit("--mode");
    reveal_strlit("--source");
    reveal_strlit("--year");
    reveal_strlit("--round");
    reveal_strlit("--train-seasons");
    reveal_strlit("--include-standings");
    reveal_strlit("--cache-dir");
    reveal_strlit("--meeting-name");
    reveal_strlit("--country-name");
    reveal_strlit("--league");
    reveal_strlit("--season");
    reveal_strlit("--data-source");
    reveal_strlit("--output-format");
    reveal_strlit("--output-path");
    reveal_strlit("--quiet");
    reveal_strlit("json");
    assert("--mode"@.len() == 6 && "--mode"@[2] == 'm' && "--mode"@[3] == 'o');
    assert("--source"@.len() == 8 && "--source"@[2] == 's' && "--source"@[3] == 'o');
    assert("--year"@.len() == 6 && "--year"@[2] == 'y' && "--year"@[3] == 'e');
    assert("--round"@.len() == 7 && "--round"@[2] == 'r' && "--round"@[3] == 'o');
    assert("--train-seasons"@.len() == 15 && "--train-seasons"@[2] == 't' && "--train-seasons"@[3] == 'r');
    assert("--include-standings"@.len() == 19 && "--include-standings"@[2] == 'i' && "--include-standings"@[3] == 'n');
    assert("--cache-dir"@.len() == 11 && "--cache-dir"@[2] == 'c' && "--cache-dir"@[3] == 'a');
    assert("--meeting-name"@.len() == 14 && "--meeting-name"@[2] == 'm' && "--meeting-name"@[3] == 'e');
    assert("--country-name"@.len() == 14 && "--country-name"@[2] == 'c' && "--country-name"@[3] == 'o');
    assert("--league"@.len() == 8 && "--league"@[2] == 'l' && "--league"@[3] == 'e');
    assert("--season"@.len() == 8 && "--season"@[2] == 's' && "--season"@[3] == 'e');
    assert("--data-source"@.len() == 13 && "--data-source"@[2] == 'd' && "--data-source"@[3] == 'a');
    assert("--output-format"@.len() == 15 && "--output-format"@[2] == 'o' && "--output-format"@[3] == 'u');
    assert("--output-path"@.len() == 13 && "--output-path"@[2] == 'o' && "--output-path"@[3] == 'u');
    assert("--quiet"@.len() == 7 && "--quiet"@[2] == 'q' && "--quiet"@[3] == 'u');
    assert("json"@.len() == 4);
}

/// How often the flag of a schema entry stands in a valid invocation,
/// where no value that is passed happens to be that flag's text: once if
/// the entry emits anything, never if it emits nothing.
pub proof fn lemma_flag_occurrences(
    kind: ProjectKind,
    params: Seq<(Seq<char>, Json)>,
    python_dir: Seq<char>,
    output_path: Seq<char>,
    i: int,
)
    requires
        0 <= i < schema(kind).len(),
        no_value_is(kind, params, python_dir, output_path, schema(kind)[i].flag@),
    ensures
        occurrences(command_args(kind, params, python_dir, output_path), schema(kind)[i].flag@)
            == if segment(schema(kind)[i], params).len() > 0 {
            1nat
        } else {
            0nat
        },
{
    let rules = schema(kind);
    let x = rules[i].flag@;
    lemma_flags_distinct(kind);
    lemma_schema_flag_count(rules, params, i);
    let head = seq![script_path(python_dir)];
    let tail = trailer(output_path);
    lemma_occurrences_short(head, x);
    lemma_occurrences_concat(head, schema_args(rules, params), x);
    lemma_occurrences_concat(head + schema_args(rules, params), tail, x);
    assert(occurrences(tail, x) == 0) by {
        reveal_with_fuel(occurrences, 6);
        let t4 = tail.drop_last();
        let t3 = t4.drop_last();
        let t2 = t3.drop_last();
        let t1 = t2.drop_last();
        assert(t1.drop_last().len() == 0);
        assert(t1.last() == "--output-format"@);
        assert(t2.last() == "json"@);
        assert(t3.last() == "--output-path"@);
        assert(t4.last() == output_path);
        assert(tail.last() == "--quiet"@);
        assert(x == schema(kind)[i].flag@);
    }
}

/// A valid parameter map has every required parameter emitted: its entry
/// emits its flag followed by one value.
pub proof fn lemma_required_flag_emitted(
    kind: ProjectKind,
    params: Seq<(Seq<char>, Json)>,
    i: int,
)
    requires
        command_error(kind, params) is None,
        0 <= i < schema(kind).len(),
        schema(kind)[i].required,
    ensures
        segment(schema(kind)[i], params).len() == 2,
        segment(schema(kind)[i], params)[0] == schema(kind)[i].flag@,
{
    lemma_no_rule_error(schema(kind), params, i);
}

/// A valid parameter map has every required flag exactly once in the
/// argument sequence, where no value that is passed happens to be that
/// flag's text.
pub proof fn lemma_required_flag_once(
    kind: ProjectKind,
    params: Seq<(Seq<char>, Json)>,
    python_dir: Seq<char>,
    output_path: Seq<char>,
    i: int,
)
    requires
        command_error(kind, params) is None,
        0 <= i < schema(kind).len(),
        schema(kind)[i].required,
        no_value_is(kind, params, python_dir, output_path, schema(kind)[i].flag@),
    ensures
        occurrences(command_args(kind, params, python_dir, output_path), schema(kind)[i].flag@)
            == 1,
{
    lemma_required_flag_emitted(kind, params, i);
    lemma_flag_occurrences(kind, params, python_dir, output_path, i);
}

/// A switch that the map sets to `false` emits nothing.
pub proof fn lemma_false_switch_silent(kind: ProjectKind, params: Seq<(Seq<char>, Json)>, i: int)
    requires
        0 <= i < schema(kind).len(),
        schema(kind)[i].kind == ParamType::Flag,
        lookup(params, schema(kind)[i].key@) == Some(Json::Bool(false)),
    ensures
        segment(schema(kind)[i], params).len() == 0,
{
}

/// The flag of a switch that the map sets to `false` stands nowhere in the
/// argument sequence, where no value that is passed happens to be that
/// flag's text.
pub proof fn lemma_false_switch_absent(
    kind: ProjectKind,
    params: Seq<(Seq<char>, Json)>,
    python_dir: Seq<char>,
    output_path: Seq<char>,
    i: int,
)
    requires
        0 <= i < schema(kind).len(),
        schema(kind)[i].kind == ParamType::Flag,
        lookup(params, schema(kind)[i].key@) == Some(Json::Bool(false)),
        no_value_is(kind, params, python_dir, output_path, schema(kind)[i].flag@),
    ensures
        occurrences(command_args(kind, params, python_dir, output_path), schema(kind)[i].flag@)
            == 0,
        !command_args(kind, params, python_dir, output_path).contains(schema(kind)[i].flag@),
{
    lemma_flag_occurrences(kind, params, python_dir, output_path, i);
    lemma_occurrences_none(
        command_args(kind, params, python_dir, output_path),
        schema(kind)[i].flag@,
    );
}

/// A text that never occurs in a sequence is not among its members.
proof fn lemma_occurrences_none(a: Seq<Seq<char>>, x: Seq<char>)
    requires
        occurrences(a, x) == 0,
    ensures
        !a.contains(x),
    decreases a.len(),
{
    if a.len() > 0 {
        lemma_occurrences_none(a.drop_last(), x);
        if a.contains(x) {
            let i = choose|i: int| 0 <= i < a.len() && a[i] == x;
            if i < a.len() - 1 {
                assert(a.drop_last()[i] == x);
                assert(a.drop_last().contains(x));
            }
        }
    }
}

} // verus!
