//! Recognition of usage lines by the report's usage-line pattern.
use vstd::prelude::*;
use crate::error::ReportError;
use crate::usage::all_digits;

verus! {

#[verifier::external_type_specification]
#[verifier::external_body]
pub struct ExRegex(regex::Regex);

#[verifier::external_type_specification]
#[verifier::external_body]
pub struct ExRegexError(regex::Error);

/// The pattern of a usage line: decimal digits at the start of the line,
/// then ` license(s) used by`.
pub const USAGE_PATTERN: &'static str = "^[0-9]+ license\\(s\\) used by";

/// The phrase that follows the count in a usage line.
pub open spec fn usage_phrase() -> Seq<char> {
    seq![' ', 'l', 'i', 'c', 'e', 'n', 's', 'e', '(', 's', ')', ' ', 'u', 's', 'e', 'd', ' ', 'b', 'y']
}

/// `s` starts with one or more ASCII digits followed by the usage phrase:
/// what `USAGE_PATTERN` matches.
pub open spec fn is_usage_line(s: Seq<char>) -> bool {
    exists|k: int|
        1 <= k && k + usage_phrase().len() <= s.len()
            && all_digits(#[trigger] s.take(k))
            && s.subrange(k, k + usage_phrase().len()) == usage_phrase()
}

/// Whether `regex::Regex::new` accepts `pattern` (valid syntax, within the
/// default size limit); this depends on the pattern alone.
pub uninterp spec fn regex_compiles(pattern: Seq<char>) -> bool;

/// Relies on `regex::Regex::new`: compiles `pattern`, or reports why it cannot.
#[verifier::external_body]
fn compile_regex(pattern: &str) -> (r: Result<regex::Regex, regex::Error>)
    ensures
        r is Ok <==> regex_compiles(pattern@),
{
    regex::Regex::new(pattern)
}

/// A compiled `USAGE_PATTERN`. Its field is private and set only by `new`,
/// so every value holds that pattern.
pub struct UsageMatcher {
    re: regex::Regex,
}

/// Relies on `regex::Regex::is_match` on the regex that `UsageMatcher::new`
/// compiles from `USAGE_PATTERN`: `^` anchors at the start of `line`,
/// `[0-9]` is an ASCII digit, `\(` and `\)` are literal parentheses.
#[verifier::external_body]
fn regex_is_match(m: &UsageMatcher, line: &str) -> (r: bool)
    ensures
        r == is_usage_line(line@),
{
    m.re.is_match(line)
}

impl UsageMatcher {
    /// Compiles the usage-line pattern.
    pub fn new() -> (r: Result<UsageMatcher, ReportError>)
        ensures
            r is Ok <==> regex_compiles(USAGE_PATTERN@),
            r is Err ==> r == Err::<UsageMatcher, ReportError>(ReportError::PatternError),
    {
        match compile_regex(USAGE_PATTERN) {
            Ok(re) => Ok(UsageMatcher { re }),
            Err(_) => Err(ReportError::PatternError),
        }
    }

    /// Tests whether `line` is a usage line.
    pub fn is_usage_line(&self, line: &str) -> (r: bool)
        ensures
            r == is_usage_line(line@),
    {
        regex_is_match(self, line)
    }
}

} // verus!
