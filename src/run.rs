//! A whole query: scan the report, parse each usage line, total per site.
use vstd::prelude::*;
use crate::cli::Cli;
use crate::directory::{resolve, Directory};
use crate::error::ReportError;
use crate::pattern::{regex_compiles, UsageMatcher, USAGE_PATTERN};
use crate::scanner::{scan_lines, scan_report, views};
use crate::site::{add_overflows, add_usage, SiteTable, SiteView};
use crate::usage::{parse_usage_line, usage_of};

verus! {

/// The per-site table that usage lines `ls` give, or the first error among them.
pub open spec fn aggregate_lines(ls: Seq<Seq<char>>, dir: Map<Seq<char>, Seq<char>>) -> Result<Seq<(Seq<char>, SiteView)>, ReportError>
    decreases ls.len(),
{
    if ls.len() == 0 {
        Ok(Seq::empty())
    } else {
        match aggregate_lines(ls.drop_last(), dir) {
            Err(e) => Err(e),
            Ok(t) => match usage_of(ls.last()) {
                Err(e) => Err(e),
                Ok(rec) => {
                    let site = resolve(dir, rec.1);
                    if add_overflows(t, site, rec.0) {
                        Err(ReportError::UsageOverflow)
                    } else {
                        Ok(add_usage(t, site, rec.0, rec.1))
                    }
                },
            },
        }
    }
}

/// What a query on report `lines` gives.
pub open spec fn run_spec(lines: Seq<Seq<char>>, server: Seq<char>, feature: Seq<char>, dir: Map<Seq<char>, Seq<char>>) -> Result<Seq<(Seq<char>, SiteView)>, ReportError> {
    match scan_lines(lines, server, feature) {
        Err(e) => Err(e),
        Ok(ls) => aggregate_lines(ls, dir),
    }
}

pub open spec fn table_view(r: Result<SiteTable, ReportError>) -> Result<Seq<(Seq<char>, SiteView)>, ReportError> {
    match r {
        Ok(t) => Ok(t@),
        Err(e) => Err(e),
    }
}

/// Totals per site the usage lines `usage_lines`, resolving users through `dir`.
/// Stops at the first line that does not parse.
pub fn aggregate(usage_lines: &Vec<String>, dir: &Directory) -> (r: Result<SiteTable, ReportError>)
    ensures
        table_view(r) == aggregate_lines(views(usage_lines@), dir@),
{
    let ghost ls = views(usage_lines@);
    let mut table = SiteTable::new();
    let mut i: usize = 0;
    while i < usage_lines.len()
        invariant
            ls == views(usage_lines@),
            i <= ls.len(),
            aggregate_lines(ls.take(i as int), dir@) == Ok::<Seq<(Seq<char>, SiteView)>, ReportError>(table@),
        decreases ls.len() - i,
    {
        let ghost pre = ls.take(i as int + 1);
        assert(pre.drop_last() == ls.take(i as int));
        assert(pre.last() == usage_lines@[i as int]@);
        let rec = match parse_usage_line(usage_lines[i].as_str()) {
            Ok(rec) => rec,
            Err(e) => {
                proof {
                    lemma_error_persists(ls, i as int + 1, dir@);
                }
                return Err(e);
            },
        };
        let site = dir.site_of(rec.user.as_str());
        match table.record(site, rec.count, rec.user) {
            Ok(()) => {},
            Err(e) => {
                proof {
                    lemma_error_persists(ls, i as int + 1, dir@);
                }
                return Err(e);
            },
        }
        i = i + 1;
    }
    assert(ls.take(i as int) == ls);
    Ok(table)
}

/// Once a prefix of the usage lines fails, the whole fails the same way.
pub(crate) proof fn lemma_error_persists(ls: Seq<Seq<char>>, j: int, dir: Map<Seq<char>, Seq<char>>)
    requires
        0 <= j <= ls.len(),
        aggregate_lines(ls.take(j), dir) is Err,
    ensures
        aggregate_lines(ls, dir) == aggregate_lines(ls.take(j), dir),
    decreases ls.len(),
{
    if j == ls.len() {
        assert(ls.take(j) == ls);
    } else {
        assert(ls.drop_last().take(j) == ls.take(j));
        lemma_error_persists(ls.drop_last(), j, dir);
    }
}

/// Runs a query with a compiled usage-line matcher: scans `lines` for the
/// server and feature of `cli`, then totals the usage lines per site.
pub fn run_with(cli: &Cli, dir: &Directory, lines: &Vec<String>, m: &UsageMatcher) -> (r: Result<SiteTable, ReportError>)
    ensures
        table_view(r) == run_spec(views(lines@), cli.server@, cli.feature@, dir@),
{
    let usage_lines = match scan_report(cli, lines, m) {
        Ok(u) => u,
        Err(e) => {
            return Err(e);
        },
    };
    aggregate(&usage_lines, dir)
}

/// Runs a query: compiles the usage-line pattern, then does what `run_with` does.
pub fn run(cli: &Cli, dir: &Directory, lines: &Vec<String>) -> (r: Result<SiteTable, ReportError>)
    ensures
        regex_compiles(USAGE_PATTERN@) ==> table_view(r) == run_spec(views(lines@), cli.server@, cli.feature@, dir@),
        !regex_compiles(USAGE_PATTERN@) ==> r == Err::<SiteTable, ReportError>(ReportError::PatternError),
{
    let m = match UsageMatcher::new() {
        Ok(m) => m,
        Err(e) => {
            return Err(e);
        },
    };
    run_with(cli, dir, lines, &m)
}

} // verus!
