//! The ways a report query can fail.
use vstd::prelude::*;

verus! {

/// Why a report could not be turned into per-site usage.
#[derive(Debug, Clone, Copy, PartialEq, Eq, Structural)]
pub enum ReportError {
    /// The heading of the requested server never appears.
    ServerNotFound,
    /// The requested server's block holds no heading of the requested feature.
    FeatureNotFound,
    /// A usage line does not have exactly six whitespace-separated tokens.
    MalformedUsageLine,
    /// The first token of a usage line is not a `u32`.
    InvalidCount,
    /// The fifth token of a usage line is not `<user>@<host>`.
    MalformedUserHost,
    /// The usage total of a site does not fit in a `u32`.
    UsageOverflow,
    /// The usage-line pattern could not be compiled.
    PatternError,
}

impl ReportError {
    /// A sentence that describes the error.
    pub fn message(&self) -> (r: &'static str)
        ensures
            *self == ReportError::ServerNotFound ==> r@ == "Requested server not found"@,
            *self == ReportError::FeatureNotFound ==> r@ == "Requested feature not found"@,
            *self == ReportError::MalformedUsageLine ==> r@ == "Wrong file format, line length should be equal 6"@,
            *self == ReportError::InvalidCount ==> r@ == "License count is not a number"@,
            *self == ReportError::MalformedUserHost ==> r@ == "Format of the user string invalid"@,
            *self == ReportError::UsageOverflow ==> r@ == "License count of a site is too large"@,
            *self == ReportError::PatternError ==> r@ == "Usage line pattern could not be compiled"@,
    {
        match self {
            ReportError::ServerNotFound => "Requested server not found",
            ReportError::FeatureNotFound => "Requested feature not found",
            ReportError::MalformedUsageLine => "Wrong file format, line length should be equal 6",
            ReportError::InvalidCount => "License count is not a number",
            ReportError::MalformedUserHost => "Format of the user string invalid",
            ReportError::UsageOverflow => "License count of a site is too large",
            ReportError::PatternError => "Usage line pattern could not be compiled",
        }
    }
}

} // verus!
