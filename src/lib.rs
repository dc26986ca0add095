//! License-usage extraction from a license-manager status report.
//!
//! The library locates one server block and one feature block in a report,
//! parses the usage lines of that block and totals them per site.
mod cli;
mod directory;
mod error;
mod laws;
mod pattern;
mod run;
mod scanner;
mod site;
mod text;
mod usage;

pub use error::ReportError;
pub use usage::{parse_count, parse_usage_line, UsageRecord};
pub use pattern::UsageMatcher;
pub use cli::{Cli, CliError};
pub use directory::{Directory, UserEntry, UNKNOWN_SITE};
pub use site::{Site, SiteEntry, SiteTable};
pub use run::{aggregate, run, run_with};
pub use scanner::{report_lines, scan_report, LineAction, ScanState};
pub use laws::{
    lemma_aggregate_totals, lemma_feature_not_found, lemma_run_malformed, lemma_run_totals, lemma_run_unknown,
    lemma_server_not_found,
};
