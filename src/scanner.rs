//! The report scanner: a single forward pass that finds the requested server
//! block, then the requested feature block, then collects its usage lines.
use vstd::prelude::*;
use crate::cli::Cli;
use crate::error::ReportError;
use crate::pattern::{is_usage_line, UsageMatcher};
use crate::text::{chars_of, concat_chars, contains, contains_exec, parts_on, same_chars, split_on, string_of};

verus! {

/// Where the scan stands.
#[derive(Debug, Clone, Copy, PartialEq, Eq, Structural)]
pub enum ScanState {
    SeekingServer,
    SeekingFeature,
    CollectingUsage,
    Done,
}

/// What the scan does with the line it has just read.
#[derive(Debug, Clone, Copy, PartialEq, Eq, Structural)]
pub enum LineAction {
    Skip,
    Emit,
    Fail(ReportError),
}

pub const SERVER_PREFIX: &'static str = "LM-X License Server on 6200@";

pub const SERVER_MARKER: &'static str = "LM-X License Server on";

pub const FEATURE_MARKER: &'static str = "Feature: ";

/// The heading line of the server named `server`.
pub open spec fn server_heading(server: Seq<char>) -> Seq<char> {
    SERVER_PREFIX@ + server + seq![':']
}

/// The text that a heading line of the feature named `feature` contains.
pub open spec fn feature_heading(feature: Seq<char>) -> Seq<char> {
    FEATURE_MARKER@ + feature
}

/// The transition of the scan on one line.
pub open spec fn scan_step(st: ScanState, line: Seq<char>, server: Seq<char>, feature: Seq<char>) -> (ScanState, LineAction) {
    match st {
        ScanState::SeekingServer => if line == server_heading(server) {
            (ScanState::SeekingFeature, LineAction::Skip)
        } else {
            (ScanState::SeekingServer, LineAction::Skip)
        },
        ScanState::SeekingFeature => if contains(line, feature_heading(feature)) {
            (ScanState::CollectingUsage, LineAction::Skip)
        } else if contains(line, SERVER_MARKER@) {
            (ScanState::Done, LineAction::Fail(ReportError::FeatureNotFound))
        } else {
            (ScanState::SeekingFeature, LineAction::Skip)
        },
        ScanState::CollectingUsage => if is_usage_line(line) {
            (ScanState::CollectingUsage, LineAction::Emit)
        } else if contains(line, FEATURE_MARKER@) || contains(line, SERVER_MARKER@) {
            (ScanState::Done, LineAction::Skip)
        } else {
            (ScanState::CollectingUsage, LineAction::Skip)
        },
        ScanState::Done => (ScanState::Done, LineAction::Skip),
    }
}

/// `Ok` of `v` in front of what `r` collects; an error stays.
pub open spec fn prepend(v: Seq<Seq<char>>, r: Result<Seq<Seq<char>>, ReportError>) -> Result<Seq<Seq<char>>, ReportError> {
    match r {
        Ok(w) => Ok(v + w),
        Err(e) => Err(e),
    }
}

/// The usage lines that a scan in state `st` collects from `lines`, or why it fails.
pub open spec fn scan_from(st: ScanState, lines: Seq<Seq<char>>, server: Seq<char>, feature: Seq<char>) -> Result<Seq<Seq<char>>, ReportError>
    decreases lines.len(),
{
    if st == ScanState::Done {
        Ok(Seq::empty())
    } else if lines.len() == 0 {
        match st {
            ScanState::SeekingServer => Err(ReportError::ServerNotFound),
            ScanState::SeekingFeature => Err(ReportError::FeatureNotFound),
            _ => Ok(Seq::empty()),
        }
    } else {
        let (next, act) = scan_step(st, lines[0], server, feature);
        match act {
            LineAction::Fail(e) => Err(e),
            LineAction::Emit => prepend(seq![lines[0]], scan_from(next, lines.skip(1), server, feature)),
            LineAction::Skip => scan_from(next, lines.skip(1), server, feature),
        }
    }
}

/// The usage lines of the requested feature block of `lines`, or why there is none.
pub open spec fn scan_lines(lines: Seq<Seq<char>>, server: Seq<char>, feature: Seq<char>) -> Result<Seq<Seq<char>>, ReportError> {
    scan_from(ScanState::SeekingServer, lines, server, feature)
}

/// The characters of each string.
pub open spec fn views(v: Seq<String>) -> Seq<Seq<char>> {
    v.map_values(|s: String| s@)
}

/// The texts a scan compares lines against.
struct Headings {
    server: Vec<char>,
    feature: Vec<char>,
    server_marker: Vec<char>,
    feature_marker: Vec<char>,
}

impl Headings {
    spec fn matches(&self, server: Seq<char>, feature: Seq<char>) -> bool {
        &&& self.server@ == server_heading(server)
        &&& self.feature@ == feature_heading(feature)
        &&& self.server_marker@ == SERVER_MARKER@
        &&& self.feature_marker@ == FEATURE_MARKER@
    }

    fn new(server: &str, feature: &str) -> (r: Headings)
        ensures
            r.matches(server@, feature@),
    {
        let prefix = chars_of(SERVER_PREFIX);
        let name = chars_of(server);
        let head = concat_chars(prefix.as_slice(), name.as_slice());
        let colon: Vec<char> = vec![':'];
        let server_line = concat_chars(head.as_slice(), colon.as_slice());
        let marker = chars_of(FEATURE_MARKER);
        let fname = chars_of(feature);
        let feature_text = concat_chars(marker.as_slice(), fname.as_slice());
        assert(colon@ == seq![':']);
        Headings {
            server: server_line,
            feature: feature_text,
            server_marker: chars_of(SERVER_MARKER),
            feature_marker: marker,
        }
    }
}

/// The transition of the scan on one line.
fn next_state(st: ScanState, line: &str, cli: &Cli, h: &Headings, m: &UsageMatcher) -> (r: (ScanState, LineAction))
    requires
        h.matches(cli.server@, cli.feature@),
    ensures
        r == scan_step(st, line@, cli.server@, cli.feature@),
{
    let c = chars_of(line);
    match st {
        ScanState::SeekingServer => {
            if same_chars(c.as_slice(), h.server.as_slice()) {
                (ScanState::SeekingFeature, LineAction::Skip)
            } else {
                (ScanState::SeekingServer, LineAction::Skip)
            }
        },
        ScanState::SeekingFeature => {
            if contains_exec(c.as_slice(), h.feature.as_slice()) {
                (ScanState::CollectingUsage, LineAction::Skip)
            } else if contains_exec(c.as_slice(), h.server_marker.as_slice()) {
                (ScanState::Done, LineAction::Fail(ReportError::FeatureNotFound))
            } else {
                (ScanState::SeekingFeature, LineAction::Skip)
            }
        },
        ScanState::CollectingUsage => {
            if m.is_usage_line(line) {
                (ScanState::CollectingUsage, LineAction::Emit)
            } else if contains_exec(c.as_slice(), h.feature_marker.as_slice())
                || contains_exec(c.as_slice(), h.server_marker.as_slice()) {
                (ScanState::Done, LineAction::Skip)
            } else {
                (ScanState::CollectingUsage, LineAction::Skip)
            }
        },
        ScanState::Done => (ScanState::Done, LineAction::Skip),
    }
}


/// The view of a scan result, for comparison with `scan_lines`.
pub open spec fn scan_view(r: Result<Vec<String>, ReportError>) -> Result<Seq<Seq<char>>, ReportError> {
    match r {
        Ok(v) => Ok(views(v@)),
        Err(e) => Err(e),
    }
}

/// Scans the report `lines` for the server and feature of `cli`, and returns
/// the usage lines of that feature block, in order.
pub fn scan_report(cli: &Cli, lines: &Vec<String>, m: &UsageMatcher) -> (r: Result<Vec<String>, ReportError>)
    ensures
        scan_view(r) == scan_lines(views(lines@), cli.server@, cli.feature@),
{
    let h = Headings::new(cli.server.as_str(), cli.feature.as_str());
    let ghost all = views(lines@);
    let ghost server = cli.server@;
    let ghost feature = cli.feature@;
    let mut out: Vec<String> = Vec::new();
    let mut st = ScanState::SeekingServer;
    let mut i: usize = 0;
    assert(all.skip(0) == all);
    assert(views(out@) + Seq::<Seq<char>>::empty() == views(out@));
    while i < lines.len() && st != ScanState::Done
        invariant
            all == views(lines@),
            server == cli.server@,
            feature == cli.feature@,
            h.matches(server, feature),
            i <= lines@.len(),
            scan_lines(all, server, feature) == prepend(views(out@), scan_from(st, all.skip(i as int), server, feature)),
        decreases lines@.len() - i,
    {
        let line = &lines[i];
        let (next, act) = next_state(st, line.as_str(), cli, &h, m);
        let ghost rest = all.skip(i as int);
        let ghost tail = all.skip(i as int + 1);
        assert(rest[0] == line@);
        assert(rest.skip(1) == tail);
        match act {
            LineAction::Fail(e) => {
                return Err(e);
            },
            LineAction::Emit => {
                let ghost before = views(out@);
                out.push(line.clone());
                assert(views(out@) == before.push(line@));
                let ghost x = scan_from(next, tail, server, feature);
                assert(prepend(before, prepend(seq![line@], x)) == prepend(views(out@), x)) by {
                    match x {
                        Ok(w) => {
                            assert(before + (seq![line@] + w) == before.push(line@) + w);
                        },
                        Err(_) => {},
                    }
                }
            },
            LineAction::Skip => {},
        }
        st = next;
        i = i + 1;
    }
    if st == ScanState::SeekingServer {
        return Err(ReportError::ServerNotFound);
    }
    if st == ScanState::SeekingFeature {
        return Err(ReportError::FeatureNotFound);
    }
    assert(views(out@) + Seq::<Seq<char>>::empty() == views(out@));
    Ok(out)
}


/// `l` without one trailing carriage return.
pub open spec fn strip_cr(l: Seq<char>) -> Seq<char> {
    if l.len() > 0 && l.last() == '\r' {
        l.drop_last()
    } else {
        l
    }
}

/// The lines of `text` (what `str::lines` yields): the parts between line
/// feeds, each without a carriage return before its line feed; a last part
/// that no line feed ends is a line unless it is empty.
pub open spec fn lines_of(text: Seq<char>) -> Seq<Seq<char>> {
    let p = parts_on(text, '\n');
    let ended = Seq::new((p.len() - 1) as nat, |i: int| strip_cr(p[i]));
    if p.last().len() > 0 {
        ended.push(p.last())
    } else {
        ended
    }
}

/// Splits a report's text into its lines.
pub fn report_lines(text: &str) -> (r: Vec<String>)
    ensures
        views(r@) == lines_of(text@),
{
    let chars = chars_of(text);
    let parts = split_on(chars.as_slice(), '\n');
    let ghost p = parts_on(text@, '\n');
    proof {
        crate::text::lemma_parts_on_nonempty(text@, '\n');
    }
    let ended: usize = parts.len() - 1;
    let mut out: Vec<String> = Vec::new();
    let mut i: usize = 0;
    assert(views(out@) =~= Seq::new(0, |j: int| strip_cr(p[j])));
    while i < ended
        invariant
            parts@.len() == p.len(),
            ended + 1 == parts@.len(),
            forall|j: int| 0 <= j < parts@.len() ==> #[trigger] parts@[j]@ == p[j],
            i <= ended,
            views(out@) == Seq::new(i as nat, |j: int| strip_cr(p[j])),
        decreases parts@.len() - i,
    {
        let part = &parts[i];
        let n: usize = part.len();
        let line = if n > 0 && part[n - 1] == '\r' {
            assert(part@.take(n - 1) == part@.drop_last());
            string_of(vstd::slice::slice_subrange(part.as_slice(), 0, n - 1))
        } else {
            string_of(part.as_slice())
        };
        assert(line@ == strip_cr(p[i as int]));
        let ghost before = views(out@);
        out.push(line);
        assert(views(out@) =~= before.push(line@));
        i = i + 1;
        assert(views(out@) =~= Seq::new(i as nat, |j: int| strip_cr(p[j])));
    }
    let last = &parts[ended];
    if last.len() > 0 {
        let ghost before = views(out@);
        let l = string_of(last.as_slice());
        out.push(l);
        assert(views(out@) =~= before.push(p.last()));
    }
    out
}

} // verus!
