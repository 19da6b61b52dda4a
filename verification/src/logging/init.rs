//! The rules behind logging setup: which level a verbosity asks for, and where the audit
//! log is written.

use vstd::prelude::*;
use crate::config::security::AUDIT_LOG_USER;
use crate::utils::paths::{join, path_join};
use crate::utils::text::{str_chars, string_from};

verus! {

/// Log levels, most severe first.
#[derive(PartialEq, Eq, Structural, Clone, Copy, Debug)]
pub enum LogLevel {
    Error,
    Warn,
    Info,
    Debug,
    Trace,
}

/// The value of a run of ASCII digits.
pub open spec fn digits_value(s: Seq<char>) -> nat
    decreases s.len(),
{
    if s.len() == 0 {
        0
    } else {
        digits_value(s.drop_last()) * 10 + ((s.last() as nat) - ('0' as nat)) as nat
    }
}

/// Every character is an ASCII digit.
pub open spec fn all_digits(s: Seq<char>) -> bool {
    forall|i: int| 0 <= i < s.len() ==> '0' <= #[trigger] s[i] <= '9'
}

/// `u8` parsing of decimal text: an optional `+`, then at least one ASCII digit, with a
/// value of at most 255.
pub open spec fn spec_parse_u8(s: Seq<char>) -> Option<u8> {
    let d = if s.len() > 0 && s[0] == '+' { s.drop_first() } else { s };
    if d.len() > 0 && all_digits(d) && digits_value(d) <= 255 {
        Some(digits_value(d) as u8)
    } else {
        None
    }
}

/// Parse a `u8` from decimal text.
pub fn parse_u8(s: &str) -> (r: Option<u8>)
    ensures
        r == spec_parse_u8(s@),
{
    let c = str_chars(s);
    let start: usize = if c.len() > 0 && c[0] == '+' { 1 } else { 0 };
    let ghost d = if s@.len() > 0 && s@[0] == '+' { s@.drop_first() } else { s@ };
    assert(d =~= c@.subrange(start as int, c@.len() as int));
    if start >= c.len() {
        return None;
    }
    // `acc` is the value read so far, held at 256 once it passes 255.
    let mut acc: u32 = 0;
    let mut i: usize = start;
    while i < c.len()
        invariant
            start <= i <= c@.len(),
            c@ == s@,
            d =~= c@.subrange(start as int, c@.len() as int),
            d == (if s@.len() > 0 && s@[0] == '+' { s@.drop_first() } else { s@ }),
            all_digits(c@.subrange(start as int, i as int)),
            acc as nat == if digits_value(c@.subrange(start as int, i as int)) <= 256 {
                digits_value(c@.subrange(start as int, i as int))
            } else {
                256
            },
        decreases c@.len() - i,
    {
        let ch = c[i];
        if !('0' <= ch && ch <= '9') {
            assert(d[i - start] == ch);
            assert(!('0' <= d[i - start] <= '9'));
            assert(!all_digits(d));
            return None;
        }
        let ghost prev = c@.subrange(start as int, i as int);
        let ghost next = c@.subrange(start as int, i + 1);
        assert(next.drop_last() =~= prev);
        assert(next.last() == ch);
        let digit: u32 = (ch as u32) - ('0' as u32);
        let n: u32 = acc * 10 + digit;
        acc = if n > 256 { 256 } else { n };
        i = i + 1;
        assert(all_digits(next)) by {
            assert forall|k: int| 0 <= k < next.len() implies '0' <= #[trigger] next[k] <= '9' by {
                if k < prev.len() {
                    assert(next[k] == prev[k]);
                }
            }
        }
    }
    assert(c@.subrange(start as int, i as int) =~= d);
    if acc <= 255 {
        Some(acc as u8)
    } else {
        None
    }
}

/// The level that a verbosity asks for: 0 errors only, 1 info, 2 debug, 3 trace; info when
/// the verbosity is missing or not a number from 0 to 3.
pub open spec fn spec_verbosity_level(verbose: Option<Seq<char>>) -> LogLevel {
    match verbose {
        Some(v) => match spec_parse_u8(v) {
            Some(0) => LogLevel::Error,
            Some(1) => LogLevel::Info,
            Some(2) => LogLevel::Debug,
            Some(3) => LogLevel::Trace,
            _ => LogLevel::Info,
        },
        None => LogLevel::Info,
    }
}

/// The log level for the `VERBOSE` setting.
pub fn verbosity_level(verbose: Option<&str>) -> (r: LogLevel)
    ensures
        r == spec_verbosity_level(match verbose {
            Some(v) => Some(v@),
            None => None,
        }),
{
    match verbose {
        Some(v) => match parse_u8(v) {
            Some(0) => LogLevel::Error,
            Some(1) => LogLevel::Info,
            Some(2) => LogLevel::Debug,
            Some(3) => LogLevel::Trace,
            _ => LogLevel::Info,
        },
        None => LogLevel::Info,
    }
}

/// Where audit events are appended: the primary path, or, when it cannot be opened, a
/// file in the home directory.
pub struct AuditMakeWriter {
    pub primary: String,
}

/// The fallback audit file: `.oxidizr-arch-audit.log` joined to the home directory, or to
/// `/tmp` when no home is known.
pub open spec fn spec_fallback_path(home: Option<Seq<char>>) -> Seq<char> {
    path_join(
        match home {
            Some(h) => h,
            None => "/tmp"@,
        },
        AUDIT_LOG_USER@,
    )
}

impl AuditMakeWriter {
    pub fn new(primary: String) -> (r: Self)
        ensures
            r.primary == primary,
    {
        Self { primary }
    }

    /// The file tried when the primary one cannot be opened.
    pub fn fallback_path(home: Option<&str>) -> (r: String)
        ensures
            r@ == spec_fallback_path(match home {
                Some(h) => Some(h@),
                None => None,
            }),
    {
        let base = match home {
            Some(h) => str_chars(h),
            None => str_chars("/tmp"),
        };
        let name = str_chars(AUDIT_LOG_USER);
        let p = join(base.as_slice(), name.as_slice());
        string_from(p.as_slice())
    }
}

} // verus!
