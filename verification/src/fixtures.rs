//! Football fixtures as they are shown from a table of records.

use crate::text::text_eq;
use vstd::prelude::*;
use vstd::string::*;

verus! {

/// One fixture as it is shown.
#[derive(Debug)]
pub struct FootballFixture {
    pub match_id: String,
    pub date: String,
    pub season: String,
    pub league: String,
    pub home_team_id: String,
    pub away_team_id: String,
}

/// One record of a table: the cells of a row, each under the name of its
/// column, in the order of the columns.
pub open spec fn cells(record: Seq<(String, String)>) -> Seq<(Seq<char>, Seq<char>)> {
    Seq::new(record.len(), |i: int| (record[i].0@, record[i].1@))
}

/// The cell under a column: that of the last column of this name, and the
/// empty text where the record has no such column.
pub open spec fn cell(record: Seq<(Seq<char>, Seq<char>)>, column: Seq<char>) -> Seq<char>
    decreases record.len(),
{
    if record.len() == 0 {
        Seq::empty()
    } else if record.last().0 == column {
        record.last().1
    } else {
        cell(record.drop_last(), column)
    }
}

/// How many records are read at most under a limit: as many as the limit
/// allows, and one even where the limit is zero.
pub open spec fn wanted_count(limit: nat) -> nat {
    if limit == 0 {
        1
    } else {
        limit
    }
}

/// How many records are shown of `available` under a limit.
pub open spec fn shown_count(available: nat, limit: nat) -> nat {
    if available < wanted_count(limit) {
        available
    } else {
        wanted_count(limit)
    }
}

/// Why no fixtures are read, if they are not: the file is missing, or it
/// is in a format other than CSV.
pub open spec fn fixtures_warning_of(exists: bool, format: Seq<char>) -> Option<Seq<char>> {
    if !exists {
        Some("Fixtures file not found."@)
    } else if format != "csv"@ {
        Some("Parquet fixtures detected. CSV parsing only in MVP."@)
    } else {
        None
    }
}

/// The cell under a column.
pub fn cell_of(record: &Vec<(String, String)>, column: &str) -> (r: String)
    ensures
        r@ == cell(cells(record@), column@),
{
    let ghost all = cells(record@);
    let mut i: usize = record.len();
    assert(all.subrange(0, i as int) =~= all);
    while i > 0
        invariant
            i <= record.len(),
            all == cells(record@),
            cell(all, column@) == cell(all.subrange(0, i as int), column@),
        decreases i,
    {
        i -= 1;
        assert(all.subrange(0, i as int + 1).drop_last() =~= all.subrange(0, i as int));
        if text_eq(record[i].0.as_str(), column) {
            return record[i].1.clone();
        }
    }
    String::new()
}

/// The fixture that a record holds: each field from the column of its
/// name, empty where the column is missing.
pub fn fixture_from_record(record: &Vec<(String, String)>) -> (r: FootballFixture)
    ensures
        r.match_id@ == cell(cells(record@), "match_id"@),
        r.date@ == cell(cells(record@), "date"@),
        r.season@ == cell(cells(record@), "season"@),
        r.league@ == cell(cells(record@), "league"@),
        r.home_team_id@ == cell(cells(record@), "home_team_id"@),
        r.away_team_id@ == cell(cells(record@), "away_team_id"@),
{
    FootballFixture {
        match_id: cell_of(record, "match_id"),
        date: cell_of(record, "date"),
        season: cell_of(record, "season"),
        league: cell_of(record, "league"),
        home_team_id: cell_of(record, "home_team_id"),
        away_team_id: cell_of(record, "away_team_id"),
    }
}

/// The number of fixtures to show where the request names none.
pub fn fixtures_limit(limit: Option<usize>) -> (r: usize)
    ensures
        r == match limit {
            Some(n) => n,
            None => 5usize,
        },
{
    match limit {
        Some(n) => n,
        None => 5,
    }
}

/// How many records are read at most under a limit.
pub fn fixtures_wanted(limit: usize) -> (r: usize)
    ensures
        r == wanted_count(limit as nat),
{
    if limit == 0 {
        1
    } else {
        limit
    }
}

/// Why no fixtures are read, if they are not.
pub fn fixtures_warning(exists: bool, format: &str) -> (r: Option<&'static str>)
    ensures
        match fixtures_warning_of(exists, format@) {
            Some(w) => r is Some && r->0@ == w,
            None => r is None,
        },
{
    if !exists {
        Some("Fixtures file not found.")
    } else if !text_eq(format, "csv") {
        Some("Parquet fixtures detected. CSV parsing only in MVP.")
    } else {
        None
    }
}

/// The fixtures that are shown of the records of a table, in their order.
pub fn read_fixtures_csv(records: &Vec<Vec<(String, String)>>, limit: usize) -> (r: Vec<
    FootballFixture,
>)
    ensures
        r@.len() == shown_count(records@.len(), limit as nat),
        forall|i: int|
            0 <= i < r@.len() ==> {
                let record = cells(records@[i]@);
                &&& (#[trigger] r@[i]).match_id@ == cell(record, "match_id"@)
                &&& r@[i].date@ == cell(record, "date"@)
                &&& r@[i].season@ == cell(record, "season"@)
                &&& r@[i].league@ == cell(record, "league"@)
                &&& r@[i].home_team_id@ == cell(record, "home_team_id"@)
                &&& r@[i].away_team_id@ == cell(record, "away_team_id"@)
            },
{
    let mut out: Vec<FootballFixture> = Vec::new();
    let mut i: usize = 0;
    while i < records.len()
        invariant
            i <= records.len(),
            out@.len() == i,
            i == 0 || i < limit,
            forall|k: int|
                0 <= k < out@.len() ==> {
                    let record = cells(records@[k]@);
                    &&& (#[trigger] out@[k]).match_id@ == cell(record, "match_id"@)
                    &&& out@[k].date@ == cell(record, "date"@)
                    &&& out@[k].season@ == cell(record, "season"@)
                    &&& out@[k].league@ == cell(record, "league"@)
                    &&& out@[k].home_team_id@ == cell(record, "home_team_id"@)
                    &&& out@[k].away_team_id@ == cell(record, "away_team_id"@)
                },
        decreases records.len() - i,
    {
        out.push(fixture_from_record(&records[i]));
        i += 1;
        if out.len() >= limit {
            return out;
        }
    }
    out
}

} // verus!
