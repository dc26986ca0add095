use lic_usage::{
    aggregate, parse_count, parse_usage_line, report_lines, run, run_with, scan_report, Cli,
    CliError, Directory, ReportError, Site, SiteTable, UsageMatcher, UserEntry, UNKNOWN_SITE,
};

fn cli(feature: &str, server: &str) -> Cli {
    Cli { feature: feature.to_string(), server: server.to_string(), path: "report.txt".to_string() }
}

fn lines(v: &[&str]) -> Vec<String> {
    v.iter().map(|s| s.to_string()).collect()
}

fn sample_report() -> Vec<String> {
    lines(&[
        "LM-X License Server on 6200@host1:",
        "Feature: app1",
        "3 license(s) used by alice@ws1 [192.168.0.1]",
        "Feature: app2",
    ])
}

fn directory(pairs: &[(&str, &str)]) -> Directory {
    let entries: Vec<UserEntry> = pairs
        .iter()
        .map(|(u, l)| UserEntry { username: u.to_string(), location: l.to_string() })
        .collect();
    Directory::from_entries(&entries)
}

fn table_contents(t: &SiteTable) -> Vec<(String, u32, Vec<String>)> {
    (0..t.len())
        .map(|i| {
            let e = t.get(i);
            (e.site.clone(), e.stats.usage, e.stats.users.clone())
        })
        .collect()
}

#[test]
fn scenario_single_usage_line() {
    let report = sample_report();
    let m = UsageMatcher::new().unwrap();
    let found = scan_report(&cli("app1", "host1"), &report, &m).unwrap();
    assert_eq!(found, vec!["3 license(s) used by alice@ws1 [192.168.0.1]".to_string()]);
    let rec = parse_usage_line(&found[0]).unwrap();
    assert_eq!(rec.count, 3);
    assert_eq!(rec.user, "alice");
    assert_eq!(rec.host, "ws1");
    let dir = directory(&[("alice", "siteA")]);
    let t = run(&cli("app1", "host1"), &dir, &report).unwrap();
    assert_eq!(table_contents(&t), vec![("siteA".to_string(), 3, vec!["alice".to_string()])]);
}

#[test]
fn scenario_server_not_found() {
    let report = sample_report();
    let dir = directory(&[("alice", "siteA")]);
    assert!(matches!(run(&cli("app1", "host2"), &dir, &report), Err(ReportError::ServerNotFound)));
    let m = UsageMatcher::new().unwrap();
    assert!(matches!(scan_report(&cli("app1", "host2"), &report, &m), Err(ReportError::ServerNotFound)));
}

#[test]
fn scenario_five_tokens_malformed() {
    assert!(matches!(parse_usage_line("3 used by alice@ws1"), Err(ReportError::MalformedUsageLine)));
}

#[test]
fn token_count_other_than_six_is_malformed() {
    for line in [
        "",
        "3",
        "3 license(s) used by alice@ws1",
        "3 license(s) used by alice@ws1 [ip] extra",
        "x license(s) used by alice [ip] more",
        "3 license(s) used by @ x y z",
    ] {
        assert!(matches!(parse_usage_line(line), Err(ReportError::MalformedUsageLine)), "{line}");
    }
}

#[test]
fn invalid_count_is_reported() {
    assert!(matches!(
        parse_usage_line("x license(s) used by alice@ws1 [ip]"),
        Err(ReportError::InvalidCount)
    ));
    assert!(matches!(
        parse_usage_line("4294967296 license(s) used by alice@ws1 [ip]"),
        Err(ReportError::InvalidCount)
    ));
}

#[test]
fn malformed_user_host_is_reported() {
    for line in [
        "3 license(s) used by alice [ip]",
        "3 license(s) used by alice@ws1@x [ip]",
        "3 license(s) used by @ws1 [ip]",
        "3 license(s) used by alice@ [ip]",
    ] {
        assert!(matches!(parse_usage_line(line), Err(ReportError::MalformedUserHost)), "{line}");
    }
}

#[test]
fn parse_count_values() {
    let c = |s: &str| parse_count(&s.chars().collect::<Vec<char>>());
    assert_eq!(c("0").unwrap(), 0);
    assert_eq!(c("42").unwrap(), 42);
    assert_eq!(c("+7").unwrap(), 7);
    assert_eq!(c("4294967295").unwrap(), u32::MAX);
    assert!(matches!(c("4294967296"), Err(ReportError::InvalidCount)));
    assert!(matches!(c(""), Err(ReportError::InvalidCount)));
    assert!(matches!(c("+"), Err(ReportError::InvalidCount)));
    assert!(matches!(c("-1"), Err(ReportError::InvalidCount)));
    assert!(matches!(c("1a"), Err(ReportError::InvalidCount)));
}

#[test]
fn directory_miss_resolves_to_unknown() {
    let dir = directory(&[("alice", "siteA")]);
    assert_eq!(dir.site_of("alice"), "siteA");
    assert_eq!(dir.site_of("bob"), UNKNOWN_SITE);
    assert_eq!(Directory::new().site_of("alice"), "unknown");
}

#[test]
fn directory_last_record_wins() {
    let dir = directory(&[("alice", "siteA"), ("bob", "siteB"), ("alice", "siteC")]);
    assert_eq!(dir.site_of("alice"), "siteC");
    assert_eq!(dir.site_of("bob"), "siteB");
    let mut d = Directory::new();
    d.insert("carol".to_string(), "siteX".to_string());
    d.insert("carol".to_string(), "siteY".to_string());
    assert_eq!(d.site_of("carol"), "siteY");
}

#[test]
fn unresolved_users_share_unknown_bucket() {
    let report = lines(&[
        "LM-X License Server on 6200@host1:",
        "Feature: app1",
        "2 license(s) used by bob@ws2 [ip]",
        "5 license(s) used by carol@ws3 [ip]",
    ]);
    let t = run(&cli("app1", "host1"), &Directory::new(), &report).unwrap();
    assert_eq!(
        table_contents(&t),
        vec![("unknown".to_string(), 7, vec!["bob".to_string(), "carol".to_string()])]
    );
}

#[test]
fn totals_add_up_across_sites() {
    let report = lines(&[
        "LM-X License Server on 6200@host0:",
        "Feature: app1",
        "9 license(s) used by zed@ws9 [ip]",
        "LM-X License Server on 6200@host1:",
        "Feature: other",
        "4 license(s) used by zed@ws9 [ip]",
        "Feature: app1 (some fields)",
        "1 license(s) used by alice@ws1 [ip]",
        "",
        "2 license(s) used by bob@ws2 [ip]",
        "3 license(s) used by alice@ws4 [ip]",
        "4 license(s) used by dan@ws5 [ip]",
        "Feature: app2",
        "8 license(s) used by alice@ws1 [ip]",
    ]);
    let dir = directory(&[("alice", "siteA"), ("bob", "siteB")]);
    let t = run(&cli("app1", "host1"), &dir, &report).unwrap();
    let got = table_contents(&t);
    assert_eq!(
        got,
        vec![
            ("siteA".to_string(), 4, vec!["alice".to_string(), "alice".to_string()]),
            ("siteB".to_string(), 2, vec!["bob".to_string()]),
            ("unknown".to_string(), 4, vec!["dan".to_string()]),
        ]
    );
    let total: u32 = got.iter().map(|g| g.1).sum();
    assert_eq!(total, 10);
}

#[test]
fn feature_not_found_at_end_of_report() {
    let report = lines(&["LM-X License Server on 6200@host1:", "Feature: app2", "1 license(s) used by a@b [ip]"]);
    let dir = Directory::new();
    assert!(matches!(run(&cli("app1", "host1"), &dir, &report), Err(ReportError::FeatureNotFound)));
}

#[test]
fn feature_not_found_before_next_server() {
    let report = lines(&[
        "LM-X License Server on 6200@host1:",
        "Feature: app2",
        "LM-X License Server on 6200@host2:",
        "Feature: app1",
        "1 license(s) used by a@b [ip]",
    ]);
    assert!(matches!(run(&cli("app1", "host1"), &Directory::new(), &report), Err(ReportError::FeatureNotFound)));
}

#[test]
fn next_server_ends_collection() {
    let report = lines(&[
        "LM-X License Server on 6200@host1:",
        "Feature: app1",
        "1 license(s) used by a@b [ip]",
        "LM-X License Server on 6200@host2:",
        "6 license(s) used by c@d [ip]",
    ]);
    let m = UsageMatcher::new().unwrap();
    let found = run_with(&cli("app1", "host1"), &Directory::new(), &report, &m).unwrap();
    assert_eq!(table_contents(&found), vec![("unknown".to_string(), 1, vec!["a".to_string()])]);
}

#[test]
fn empty_feature_block_is_success() {
    let report = lines(&["LM-X License Server on 6200@host1:", "Feature: app1", "Feature: app2"]);
    let t = run(&cli("app1", "host1"), &Directory::new(), &report).unwrap();
    assert_eq!(t.len(), 0);
}

#[test]
fn malformed_line_aborts_run() {
    let report = lines(&[
        "LM-X License Server on 6200@host1:",
        "Feature: app1",
        "1 license(s) used by a@b [ip]",
        "2 license(s) used by c@d",
    ]);
    assert!(matches!(run(&cli("app1", "host1"), &Directory::new(), &report), Err(ReportError::MalformedUsageLine)));
}

#[test]
fn site_usage_overflow_is_reported() {
    let lines_in = lines(&[
        "4294967295 license(s) used by a@b [ip]",
        "1 license(s) used by a@b [ip]",
    ]);
    assert!(matches!(aggregate(&lines_in, &Directory::new()), Err(ReportError::UsageOverflow)));
}

#[test]
fn server_heading_must_match_exactly() {
    let report = lines(&["LM-X License Server on 6200@host1: ", "Feature: app1"]);
    assert!(matches!(run(&cli("app1", "host1"), &Directory::new(), &report), Err(ReportError::ServerNotFound)));
}

#[test]
fn usage_matcher_recognises_pattern() {
    let m = UsageMatcher::new().unwrap();
    assert!(m.is_usage_line("12 license(s) used by x@y [ip]"));
    assert!(!m.is_usage_line(" 12 license(s) used by x@y [ip]"));
    assert!(!m.is_usage_line("license(s) used by x@y"));
    assert!(!m.is_usage_line("12 licenses used by x@y"));
}

#[test]
fn report_lines_split_like_str_lines() {
    for text in ["", "a", "a\n", "a\r\nb", "\n", "a\n\nb\r\n", "x\r", "a\rb\n"] {
        let expected: Vec<String> = text.lines().map(|s| s.to_string()).collect();
        assert_eq!(report_lines(text), expected, "{text:?}");
    }
}

#[test]
fn site_methods() {
    let mut s = Site::new(3, "alice".to_string());
    s.add(4);
    s.push_user("bob".to_string());
    assert_eq!(s.usage, 7);
    assert_eq!(s.users, vec!["alice".to_string(), "bob".to_string()]);
}

#[test]
fn site_table_record() {
    let mut t = SiteTable::new();
    t.record("s1".to_string(), 2, "u1".to_string()).unwrap();
    t.record("s2".to_string(), 1, "u2".to_string()).unwrap();
    t.record("s1".to_string(), 5, "u3".to_string()).unwrap();
    assert_eq!(
        table_contents(&t),
        vec![
            ("s1".to_string(), 7, vec!["u1".to_string(), "u3".to_string()]),
            ("s2".to_string(), 1, vec!["u2".to_string()]),
        ]
    );
    assert!(matches!(t.record("s2".to_string(), u32::MAX, "u4".to_string()), Err(ReportError::UsageOverflow)));
    assert_eq!(t.get(1).stats.usage, 1);
}

#[test]
fn cli_build_arity() {
    let a = |v: &[&str]| Cli::build(&lines(v));
    assert!(matches!(a(&["prog"]), Err(CliError::FeatureMissing)));
    assert!(matches!(a(&[]), Err(CliError::FeatureMissing)));
    assert!(matches!(a(&["prog", "f"]), Err(CliError::ServerMissing)));
    assert!(matches!(a(&["prog", "f", "s"]), Err(CliError::PathMissing)));
    assert!(matches!(a(&["prog", "f", "s", "p", "x"]), Err(CliError::TooManyArguments)));
    let c = a(&["prog", "f", "s", "p"]).unwrap();
    assert_eq!((c.feature.as_str(), c.server.as_str(), c.path.as_str()), ("f", "s", "p"));
    assert_eq!(CliError::PathMissing.message(), "path not defined");
}
