//! What holds of every query: totals are kept, and a missing heading is reported.
use vstd::prelude::*;
use crate::directory::{resolve, UNKNOWN_SITE};
use crate::error::ReportError;
use crate::run::{aggregate_lines, lemma_error_persists, run_spec};
use crate::scanner::{feature_heading, scan_from, scan_lines, server_heading, ScanState, SERVER_MARKER};
use crate::site::{add_usage, find_site, SiteView};
use crate::text::contains;
use crate::text::tokens;
use crate::usage::usage_of;

verus! {

/// The sum of the usage of all buckets of `t`.
pub open spec fn total_usage(t: Seq<(Seq<char>, SiteView)>) -> nat
    decreases t.len(),
{
    if t.len() == 0 {
        0
    } else {
        total_usage(t.drop_last()) + t.last().1.usage
    }
}

/// The sum of the counts of the usage lines of `ls` that parse.
pub open spec fn sum_counts(ls: Seq<Seq<char>>) -> nat
    decreases ls.len(),
{
    if ls.len() == 0 {
        0
    } else {
        sum_counts(ls.drop_last()) + match usage_of(ls.last()) {
            Ok(rec) => rec.0,
            Err(_) => 0,
        }
    }
}

/// The number of usage lines of `ls` that parse and whose user resolves to `site`.
pub open spec fn lines_to(ls: Seq<Seq<char>>, dir: Map<Seq<char>, Seq<char>>, site: Seq<char>) -> nat
    decreases ls.len(),
{
    if ls.len() == 0 {
        0
    } else {
        lines_to(ls.drop_last(), dir, site) + match usage_of(ls.last()) {
            Ok(rec) => if resolve(dir, rec.1) == site {
                1nat
            } else {
                0nat
            },
            Err(_) => 0nat,
        }
    }
}

/// The users of the usage lines of `ls` that parse and resolve to `site`, in order.
pub open spec fn users_to(ls: Seq<Seq<char>>, dir: Map<Seq<char>, Seq<char>>, site: Seq<char>) -> Seq<Seq<char>>
    decreases ls.len(),
{
    if ls.len() == 0 {
        Seq::empty()
    } else {
        let pre = users_to(ls.drop_last(), dir, site);
        match usage_of(ls.last()) {
            Ok(rec) => if resolve(dir, rec.1) == site {
                pre.push(rec.1)
            } else {
                pre
            },
            Err(_) => pre,
        }
    }
}

/// The sum of the counts of the usage lines of `ls` that parse and resolve to `site`.
pub open spec fn counts_to(ls: Seq<Seq<char>>, dir: Map<Seq<char>, Seq<char>>, site: Seq<char>) -> nat
    decreases ls.len(),
{
    if ls.len() == 0 {
        0
    } else {
        counts_to(ls.drop_last(), dir, site) + match usage_of(ls.last()) {
            Ok(rec) => if resolve(dir, rec.1) == site {
                rec.0
            } else {
                0nat
            },
            Err(_) => 0nat,
        }
    }
}

pub open spec fn has_site(t: Seq<(Seq<char>, SiteView)>, s: Seq<char>) -> bool {
    exists|k: int| 0 <= k < t.len() && (#[trigger] t[k]).0 == s
}

pub open spec fn sites_unique(t: Seq<(Seq<char>, SiteView)>) -> bool {
    forall|a: int, b: int| 0 <= a < b < t.len() ==> (#[trigger] t[a]).0 != (#[trigger] t[b]).0
}

proof fn lemma_find_site_has(t: Seq<(Seq<char>, SiteView)>, s: Seq<char>)
    ensures
        find_site(t, s) >= 0 <==> has_site(t, s),
        -1 <= find_site(t, s) < t.len(),
        find_site(t, s) >= 0 ==> t[find_site(t, s)].0 == s,
    decreases t.len(),
{
    if t.len() > 0 {
        lemma_find_site_has(t.drop_last(), s);
        if t.last().0 != s {
            if has_site(t, s) {
                let k = choose|k: int| 0 <= k < t.len() && (#[trigger] t[k]).0 == s;
                assert(t.drop_last()[k].0 == s);
            }
            if has_site(t.drop_last(), s) {
                let k = choose|k: int| 0 <= k < t.drop_last().len() && (#[trigger] t.drop_last()[k]).0 == s;
                assert(t[k].0 == s);
            }
        } else {
            assert(t[t.len() - 1].0 == s);
        }
    }
}

proof fn lemma_total_update(t: Seq<(Seq<char>, SiteView)>, i: int, x: (Seq<char>, SiteView))
    requires
        0 <= i < t.len(),
    ensures
        total_usage(t.update(i, x)) + t[i].1.usage == total_usage(t) + x.1.usage,
    decreases t.len(),
{
    if i == t.len() - 1 {
        assert(t.update(i, x).drop_last() == t.drop_last());
    } else {
        assert(t.update(i, x).drop_last() == t.drop_last().update(i, x));
        lemma_total_update(t.drop_last(), i, x);
    }
}

proof fn lemma_absent_site_empty(ls: Seq<Seq<char>>, dir: Map<Seq<char>, Seq<char>>, site: Seq<char>)
    requires
        lines_to(ls, dir, site) == 0,
    ensures
        users_to(ls, dir, site) == Seq::<Seq<char>>::empty(),
        counts_to(ls, dir, site) == 0,
    decreases ls.len(),
{
    if ls.len() > 0 {
        lemma_absent_site_empty(ls.drop_last(), dir, site);
    }
}

proof fn lemma_aggregate_inv(ls: Seq<Seq<char>>, dir: Map<Seq<char>, Seq<char>>)
    requires
        aggregate_lines(ls, dir) is Ok,
    ensures
        ({
            let t = aggregate_lines(ls, dir)->Ok_0;
            &&& total_usage(t) == sum_counts(ls)
            &&& sites_unique(t)
            &&& forall|k: int| 0 <= k < t.len() ==> (#[trigger] t[k]).1.users.len() == lines_to(ls, dir, t[k].0)
            &&& forall|s: Seq<char>| !has_site(t, s) ==> #[trigger] lines_to(ls, dir, s) == 0
            &&& forall|k: int| 0 <= k < t.len() ==> (#[trigger] t[k]).1.users == users_to(ls, dir, t[k].0)
            &&& forall|k: int| 0 <= k < t.len() ==> (#[trigger] t[k]).1.usage == counts_to(ls, dir, t[k].0)
        }),
    decreases ls.len(),
{
    if ls.len() > 0 {
        let pre = ls.drop_last();
        lemma_aggregate_inv(pre, dir);
        let t0 = aggregate_lines(pre, dir)->Ok_0;
        let rec = usage_of(ls.last())->Ok_0;
        let site = resolve(dir, rec.1);
        let t = aggregate_lines(ls, dir)->Ok_0;
        assert(t == add_usage(t0, site, rec.0, rec.1));
        assert forall|s: Seq<char>| #[trigger] lines_to(ls, dir, s) == lines_to(pre, dir, s) + if site == s {
            1nat
        } else {
            0nat
        } by {}
        assert forall|s: Seq<char>| #[trigger] users_to(ls, dir, s) == if site == s {
            users_to(pre, dir, s).push(rec.1)
        } else {
            users_to(pre, dir, s)
        } by {}
        assert forall|s: Seq<char>| #[trigger] counts_to(ls, dir, s) == counts_to(pre, dir, s) + if site == s {
            rec.0
        } else {
            0nat
        } by {}
        lemma_find_site_has(t0, site);
        let i = find_site(t0, site);
        if i >= 0 {
            let x = (site, SiteView { usage: t0[i].1.usage + rec.0, users: t0[i].1.users.push(rec.1) });
            assert(t == t0.update(i, x));
            lemma_total_update(t0, i, x);
            assert forall|k: int| 0 <= k < t.len() implies (#[trigger] t[k]).1.users == users_to(ls, dir, t[k].0)
                && t[k].1.usage == counts_to(ls, dir, t[k].0) by {
                if k != i {
                    assert(t0[k].0 != t0[i].0);
                }
            }
            assert forall|k: int| 0 <= k < t.len() implies (#[trigger] t[k]).1.users.len() == lines_to(ls, dir, t[k].0) by {
                if k != i {
                    assert(t0[k].0 != t0[i].0);
                }
            }
            assert forall|s: Seq<char>| !has_site(t, s) implies #[trigger] lines_to(ls, dir, s) == 0 by {
                if has_site(t0, s) {
                    let k = choose|k: int| 0 <= k < t0.len() && (#[trigger] t0[k]).0 == s;
                    assert(t[k].0 == s);
                }
                assert(t[i].0 == site);
                assert(s != site);
                assert(lines_to(pre, dir, s) == 0);
            }
            assert(sites_unique(t)) by {
                assert forall|a: int, b: int| 0 <= a < b < t.len() implies (#[trigger] t[a]).0 != (#[trigger] t[b]).0 by {
                    assert(t[a].0 == t0[a].0);
                    assert(t[b].0 == t0[b].0);
                }
            }
        } else {
            let x = (site, SiteView { usage: rec.0, users: seq![rec.1] });
            assert(t == t0.push(x));
            assert(t.drop_last() == t0);
            assert forall|k: int| 0 <= k < t.len() implies (#[trigger] t[k]).1.users == users_to(ls, dir, t[k].0)
                && t[k].1.usage == counts_to(ls, dir, t[k].0) by {
                if k < t0.len() {
                    assert(t[k] == t0[k]);
                    assert(t0[k].0 != site);
                } else {
                    assert(t[k].0 == site);
                    lemma_absent_site_empty(pre, dir, site);
                    assert(users_to(pre, dir, site) == Seq::<Seq<char>>::empty());
                    assert(seq![rec.1] == Seq::<Seq<char>>::empty().push(rec.1));
                }
            }
            assert forall|k: int| 0 <= k < t.len() implies (#[trigger] t[k]).1.users.len() == lines_to(ls, dir, t[k].0) by {
                if k < t0.len() {
                    assert(t[k] == t0[k]);
                    assert(t0[k].0 != site);
                } else {
                    assert(t[k].0 == site);
                    assert(lines_to(pre, dir, site) == 0);
                }
            }
            assert forall|s: Seq<char>| !has_site(t, s) implies #[trigger] lines_to(ls, dir, s) == 0 by {
                if has_site(t0, s) {
                    let k = choose|k: int| 0 <= k < t0.len() && (#[trigger] t0[k]).0 == s;
                    assert(t[k].0 == s);
                }
                assert(t[t0.len() as int].0 == site);
            }
            assert(sites_unique(t)) by {
                assert forall|a: int, b: int| 0 <= a < b < t.len() implies (#[trigger] t[a]).0 != (#[trigger] t[b]).0 by {
                    if b == t0.len() {
                        assert(t[a].0 == t0[a].0);
                    }
                }
            }
        }
    }
}

/// Aggregation keeps every license and every user: the site totals add up to
/// the counts of the usage lines, and each site lists one user per usage line
/// whose user resolves to it: the users of those lines, in order, and the sum
/// of their counts.
pub proof fn lemma_aggregate_totals(ls: Seq<Seq<char>>, dir: Map<Seq<char>, Seq<char>>)
    requires
        aggregate_lines(ls, dir) is Ok,
    ensures
        total_usage(aggregate_lines(ls, dir)->Ok_0) == sum_counts(ls),
        forall|k: int|
            0 <= k < aggregate_lines(ls, dir)->Ok_0.len() ==> (#[trigger] aggregate_lines(ls, dir)->Ok_0[k]).1.users.len()
                == lines_to(ls, dir, aggregate_lines(ls, dir)->Ok_0[k].0),
        forall|k: int|
            0 <= k < aggregate_lines(ls, dir)->Ok_0.len() ==> (#[trigger] aggregate_lines(ls, dir)->Ok_0[k]).1.users
                == users_to(ls, dir, aggregate_lines(ls, dir)->Ok_0[k].0)
                && aggregate_lines(ls, dir)->Ok_0[k].1.usage == counts_to(ls, dir, aggregate_lines(ls, dir)->Ok_0[k].0),
{
    lemma_aggregate_inv(ls, dir);
}

proof fn lemma_seek_server(lines: Seq<Seq<char>>, j: int, server: Seq<char>, feature: Seq<char>)
    requires
        0 <= j <= lines.len(),
        forall|k: int| 0 <= k < j ==> #[trigger] lines[k] != server_heading(server),
    ensures
        scan_lines(lines, server, feature) == scan_from(ScanState::SeekingServer, lines.skip(j), server, feature),
    decreases j,
{
    if j == 0 {
        assert(lines.skip(0) == lines);
    } else {
        lemma_seek_server(lines, j - 1, server, feature);
        let rest = lines.skip(j - 1);
        assert(rest[0] == lines[j - 1]);
        assert(rest.skip(1) == lines.skip(j));
    }
}

proof fn lemma_seek_feature(lines: Seq<Seq<char>>, j: int, k: int, server: Seq<char>, feature: Seq<char>)
    requires
        0 <= j <= k <= lines.len(),
        forall|m: int|
            j <= m < k ==> !contains(#[trigger] lines[m], feature_heading(feature)) && !contains(
                lines[m],
                SERVER_MARKER@,
            ),
    ensures
        scan_from(ScanState::SeekingFeature, lines.skip(j), server, feature) == scan_from(
            ScanState::SeekingFeature,
            lines.skip(k),
            server,
            feature,
        ),
    decreases k - j,
{
    if j < k {
        let rest = lines.skip(j);
        assert(rest[0] == lines[j]);
        assert(rest.skip(1) == lines.skip(j + 1));
        lemma_seek_feature(lines, j + 1, k, server, feature);
    }
}

/// A report without the heading of the requested server gives `ServerNotFound`,
/// and no usage line is aggregated.
pub proof fn lemma_server_not_found(
    lines: Seq<Seq<char>>,
    server: Seq<char>,
    feature: Seq<char>,
    dir: Map<Seq<char>, Seq<char>>,
)
    requires
        forall|k: int| 0 <= k < lines.len() ==> #[trigger] lines[k] != server_heading(server),
    ensures
        scan_lines(lines, server, feature) == Err::<Seq<Seq<char>>, ReportError>(ReportError::ServerNotFound),
        run_spec(lines, server, feature, dir) == Err::<Seq<(Seq<char>, SiteView)>, ReportError>(ReportError::ServerNotFound),
{
    lemma_seek_server(lines, lines.len() as int, server, feature);
}

/// A report whose requested server block has no heading of the requested
/// feature gives `FeatureNotFound`. The block runs from the server heading at
/// `i` (its first occurrence) to `k`: the end of the report, or the next line
/// that names a server.
pub proof fn lemma_feature_not_found(
    lines: Seq<Seq<char>>,
    server: Seq<char>,
    feature: Seq<char>,
    i: int,
    k: int,
)
    requires
        0 <= i < k <= lines.len(),
        lines[i] == server_heading(server),
        forall|m: int| 0 <= m < i ==> #[trigger] lines[m] != server_heading(server),
        forall|m: int|
            i < m < k ==> !contains(#[trigger] lines[m], feature_heading(feature)) && !contains(
                lines[m],
                SERVER_MARKER@,
            ),
        k < lines.len() ==> contains(lines[k], SERVER_MARKER@) && !contains(lines[k], feature_heading(feature)),
    ensures
        scan_lines(lines, server, feature) == Err::<Seq<Seq<char>>, ReportError>(ReportError::FeatureNotFound),
{
    lemma_seek_server(lines, i, server, feature);
    let rest = lines.skip(i);
    assert(rest[0] == lines[i]);
    assert(rest.skip(1) == lines.skip(i + 1));
    lemma_seek_feature(lines, i + 1, k, server, feature);
    if k < lines.len() {
        let last = lines.skip(k);
        assert(last[0] == lines[k]);
    }
}


proof fn lemma_aggregate_parses(ls: Seq<Seq<char>>, dir: Map<Seq<char>, Seq<char>>)
    requires
        aggregate_lines(ls, dir) is Ok,
    ensures
        forall|j: int| 0 <= j < ls.len() ==> usage_of(#[trigger] ls[j]) is Ok,
    decreases ls.len(),
{
    if ls.len() > 0 {
        lemma_aggregate_parses(ls.drop_last(), dir);
        assert forall|j: int| 0 <= j < ls.len() implies usage_of(#[trigger] ls[j]) is Ok by {
            if j < ls.len() - 1 {
                assert(ls.drop_last()[j] == ls[j]);
            }
        }
    }
}

proof fn lemma_lines_to_positive(ls: Seq<Seq<char>>, dir: Map<Seq<char>, Seq<char>>, j: int)
    requires
        0 <= j < ls.len(),
        usage_of(ls[j]) is Ok,
    ensures
        lines_to(ls, dir, resolve(dir, usage_of(ls[j])->Ok_0.1)) >= 1,
    decreases ls.len(),
{
    if j < ls.len() - 1 {
        assert(ls.drop_last()[j] == ls[j]);
        lemma_lines_to_positive(ls.drop_last(), dir, j);
    }
}

/// A query that succeeds keeps every license and every user of the usage
/// lines that the scan collected: every line parses, the site totals add up
/// to the lines' counts, each site lists one user per line whose user
/// resolves to it, sites are listed once, and a site without a bucket has no
/// such line. Each bucket holds the users of the lines that resolve to its
/// site, in report order, and the sum of their counts.
pub proof fn lemma_run_totals(
    lines: Seq<Seq<char>>,
    server: Seq<char>,
    feature: Seq<char>,
    dir: Map<Seq<char>, Seq<char>>,
)
    requires
        run_spec(lines, server, feature, dir) is Ok,
    ensures
        scan_lines(lines, server, feature) is Ok,
        ({
            let u = scan_lines(lines, server, feature)->Ok_0;
            let t = run_spec(lines, server, feature, dir)->Ok_0;
            &&& forall|j: int| 0 <= j < u.len() ==> usage_of(#[trigger] u[j]) is Ok
            &&& total_usage(t) == sum_counts(u)
            &&& sites_unique(t)
            &&& forall|k: int| 0 <= k < t.len() ==> (#[trigger] t[k]).1.users.len() == lines_to(u, dir, t[k].0)
            &&& forall|s: Seq<char>| !has_site(t, s) ==> #[trigger] lines_to(u, dir, s) == 0
            &&& forall|k: int| 0 <= k < t.len() ==> (#[trigger] t[k]).1.users == users_to(u, dir, t[k].0)
            &&& forall|k: int| 0 <= k < t.len() ==> (#[trigger] t[k]).1.usage == counts_to(u, dir, t[k].0)
        }),
{
    let u = scan_lines(lines, server, feature)->Ok_0;
    lemma_aggregate_inv(u, dir);
    lemma_aggregate_parses(u, dir);
}

/// In a query whose scan succeeds, the first usage line that does not have
/// six tokens ends the whole query with `MalformedUsageLine`, whatever its
/// tokens hold.
pub proof fn lemma_run_malformed(
    lines: Seq<Seq<char>>,
    server: Seq<char>,
    feature: Seq<char>,
    dir: Map<Seq<char>, Seq<char>>,
    j: int,
)
    requires
        scan_lines(lines, server, feature) is Ok,
        0 <= j < scan_lines(lines, server, feature)->Ok_0.len(),
        tokens(scan_lines(lines, server, feature)->Ok_0[j]).len() != 6,
        aggregate_lines(scan_lines(lines, server, feature)->Ok_0.take(j), dir) is Ok,
    ensures
        run_spec(lines, server, feature, dir) == Err::<Seq<(Seq<char>, SiteView)>, ReportError>(ReportError::MalformedUsageLine),
{
    let u = scan_lines(lines, server, feature)->Ok_0;
    assert(u.take(j + 1).drop_last() == u.take(j));
    assert(u.take(j + 1).last() == u[j]);
    lemma_error_persists(u, j + 1, dir);
}

/// In a query that succeeds, a usage line whose user the directory does not
/// list is counted in the `"unknown"` bucket.
pub proof fn lemma_run_unknown(
    lines: Seq<Seq<char>>,
    server: Seq<char>,
    feature: Seq<char>,
    dir: Map<Seq<char>, Seq<char>>,
    j: int,
)
    requires
        run_spec(lines, server, feature, dir) is Ok,
        0 <= j < scan_lines(lines, server, feature)->Ok_0.len(),
        !dir.contains_key(usage_of(scan_lines(lines, server, feature)->Ok_0[j])->Ok_0.1),
    ensures
        ({
            let u = scan_lines(lines, server, feature)->Ok_0;
            let t = run_spec(lines, server, feature, dir)->Ok_0;
            &&& lines_to(u, dir, UNKNOWN_SITE@) >= 1
            &&& exists|k: int|
                0 <= k < t.len() && (#[trigger] t[k]).0 == UNKNOWN_SITE@ && t[k].1.users.len() == lines_to(
                    u,
                    dir,
                    UNKNOWN_SITE@,
                )
        }),
{
    lemma_run_totals(lines, server, feature, dir);
    let u = scan_lines(lines, server, feature)->Ok_0;
    let t = run_spec(lines, server, feature, dir)->Ok_0;
    assert(usage_of(u[j]) is Ok);
    lemma_lines_to_positive(u, dir, j);
    assert(has_site(t, UNKNOWN_SITE@));
    let k = choose|k: int| 0 <= k < t.len() && (#[trigger] t[k]).0 == UNKNOWN_SITE@;
    assert(t[k].1.users.len() == lines_to(u, dir, UNKNOWN_SITE@));
}

} // verus!
