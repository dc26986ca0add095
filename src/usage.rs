//! Parsing of one usage line into a count, a user and a host.
use vstd::prelude::*;
use crate::error::ReportError;
use crate::text::{chars_of, parts_on, split_on, split_tokens, string_of, tokens};

verus! {

pub open spec fn is_digit(c: char) -> bool {
    '0' as u32 <= c as u32 <= '9' as u32
}

pub open spec fn digit_value(c: char) -> nat {
    (c as u32 - '0' as u32) as nat
}

pub open spec fn all_digits(s: Seq<char>) -> bool {
    forall|i: int| 0 <= i < s.len() ==> is_digit(#[trigger] s[i])
}

/// The number that a string of decimal digits writes.
pub open spec fn digits_value(s: Seq<char>) -> nat
    decreases s.len(),
{
    if s.len() == 0 {
        0
    } else {
        digits_value(s.drop_last()) * 10 + digit_value(s.last())
    }
}

/// The digits of a count token, after an optional leading `+`.
pub open spec fn count_digits(t: Seq<char>) -> Seq<char> {
    if t.len() > 0 && t[0] == '+' {
        t.skip(1)
    } else {
        t
    }
}

/// `t` reads as a `u32` (as `u32::from_str` accepts it).
pub open spec fn count_ok(t: Seq<char>) -> bool {
    let d = count_digits(t);
    d.len() > 0 && all_digits(d) && digits_value(d) <= u32::MAX
}

pub open spec fn count_of(t: Seq<char>) -> nat {
    digits_value(count_digits(t))
}

proof fn lemma_digits_prefix(d: Seq<char>, j: int)
    requires
        0 <= j <= d.len(),
    ensures
        digits_value(d.take(j)) <= digits_value(d),
    decreases d.len(),
{
    if j < d.len() {
        assert(d.drop_last().take(j) == d.take(j));
        lemma_digits_prefix(d.drop_last(), j);
    } else {
        assert(d.take(j) == d);
    }
}

/// Reads a count token as a `u32`.
pub fn parse_count(t: &[char]) -> (r: Result<u32, ReportError>)
    ensures
        match r {
            Ok(v) => count_ok(t@) && v == count_of(t@),
            Err(e) => !count_ok(t@) && e == ReportError::InvalidCount,
        },
{
    let start: usize = if t.len() > 0 && t[0] == '+' { 1 } else { 0 };
    let ghost d = count_digits(t@);
    assert(d == t@.skip(start as int));
    if start >= t.len() {
        return Err(ReportError::InvalidCount);
    }
    let mut acc: u64 = 0;
    let mut i: usize = start;
    while i < t.len()
        invariant
            start <= i <= t@.len(),
            d == t@.skip(start as int),
            d == count_digits(t@),
            all_digits(d.take(i - start)),
            acc == digits_value(d.take(i - start)),
            acc <= u32::MAX,
        decreases t@.len() - i,
    {
        let c = t[i];
        assert(d[i - start] == c);
        let x: u32 = c as u32;
        if !(0x30 <= x && x <= 0x39) {
            assert(!is_digit(d[i - start]));
            assert(!all_digits(d));
            return Err(ReportError::InvalidCount);
        }
        let v: u64 = (x - 0x30) as u64;
        let ghost k: int = i - start;
        assert(d.take(k + 1).drop_last() == d.take(k));
        assert(d.take(k + 1).last() == c);
        assert(all_digits(d.take(k + 1)));
        assert(digit_value(c) == v);
        assert(digits_value(d.take(k + 1)) == digits_value(d.take(k)) * 10 + digit_value(c));
        acc = acc * 10 + v;
        i = i + 1;
        if acc > 0xffff_ffff {
            proof {
                lemma_digits_prefix(d, i - start);
            }
            assert(!count_ok(t@));
            return Err(ReportError::InvalidCount);
        }
    }
    assert(d.take(i - start) == d);
    Ok(acc as u32)
}

/// What a usage line holds: the number of licenses, the user and the host.
pub struct UsageRecord {
    pub count: u32,
    pub user: String,
    pub host: String,
}

/// What `parse_usage_line` makes of a line: the count, user and host, or the error.
pub open spec fn usage_of(line: Seq<char>) -> Result<(nat, Seq<char>, Seq<char>), ReportError> {
    let t = tokens(line);
    if t.len() != 6 {
        Err(ReportError::MalformedUsageLine)
    } else if !count_ok(t[0]) {
        Err(ReportError::InvalidCount)
    } else {
        let p = parts_on(t[4], '@');
        if p.len() != 2 || p[0].len() == 0 || p[1].len() == 0 {
            Err(ReportError::MalformedUserHost)
        } else {
            Ok((count_of(t[0]), p[0], p[1]))
        }
    }
}

/// The view of a parse result, for comparison with `usage_of`.
pub open spec fn record_view(r: Result<UsageRecord, ReportError>) -> Result<(nat, Seq<char>, Seq<char>), ReportError> {
    match r {
        Ok(rec) => Ok((rec.count as nat, rec.user@, rec.host@)),
        Err(e) => Err(e),
    }
}

/// Parses one usage line: six tokens, the first a count, the fifth `<user>@<host>`.
pub fn parse_usage_line(line: &str) -> (r: Result<UsageRecord, ReportError>)
    ensures
        record_view(r) == usage_of(line@),
        tokens(line@).len() != 6 ==> r == Err::<UsageRecord, ReportError>(ReportError::MalformedUsageLine),
{
    let chars = chars_of(line);
    let toks = split_tokens(chars.as_slice());
    if toks.len() != 6 {
        return Err(ReportError::MalformedUsageLine);
    }
    let count = match parse_count(toks[0].as_slice()) {
        Ok(c) => c,
        Err(e) => {
            return Err(e);
        },
    };
    let parts = split_on(toks[4].as_slice(), '@');
    if parts.len() != 2 || parts[0].len() == 0 || parts[1].len() == 0 {
        return Err(ReportError::MalformedUserHost);
    }
    let user = string_of(parts[0].as_slice());
    let host = string_of(parts[1].as_slice());
    Ok(UsageRecord { count, user, host })
}

} // verus!
