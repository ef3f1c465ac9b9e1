//! Texts: comparing them, and reading numbers and names out of them.

use vstd::prelude::*;
use vstd::string::StringExecFns;
use crate::config::settings::{facility_numbered, Facility, LogLevel};

verus! {

/// Whether two texts are the same.
pub fn same_text(a: &str, b: &str) -> (r: bool)
    ensures
        r == (a@ == b@),
{
    let x = String::from_str(a);
    let y = String::from_str(b);
    x == y
}

/// Whether `c` is a decimal digit.
pub open spec fn is_digit(c: char) -> bool {
    '0' <= c <= '9'
}

/// The number that a row of decimal digits stands for.
pub open spec fn digits_value(s: Seq<char>) -> nat
    decreases s.len(),
{
    if s.len() == 0 {
        0
    } else {
        digits_value(s.drop_last()) * 10 + ((s.last() as u32 - '0' as u32) as nat)
    }
}

/// The number that a text stands for: a row of one or more decimal
/// digits, with or without a plus sign in front.
pub open spec fn unsigned_of(text: Seq<char>) -> Option<nat> {
    let digits = if text.len() > 0 && text[0] == '+' {
        text.drop_first()
    } else {
        text
    };
    if digits.len() > 0 && (forall|i: int| 0 <= i < digits.len() ==> is_digit(#[trigger] digits[i])) {
        Some(digits_value(digits))
    } else {
        None
    }
}

/// The number that a text stands for, where it is one that a `u64` holds.
pub open spec fn u64_of(text: Seq<char>) -> Option<u64> {
    match unsigned_of(text) {
        Some(n) => if n <= u64::MAX {
            Some(n as u64)
        } else {
            None
        },
        None => None,
    }
}

/// The number that a text stands for, where it is one that a `usize`
/// holds.
pub open spec fn usize_of(text: Seq<char>) -> Option<usize> {
    match unsigned_of(text) {
        Some(n) => if n <= usize::MAX {
            Some(n as usize)
        } else {
            None
        },
        None => None,
    }
}

/// Reads a `u64` with `str::parse`: the text must be decimal digits, with
/// or without a plus sign in front, and the number must fit.
#[verifier::external_body]
pub(crate) fn parse_u64(text: &str) -> (r: Option<u64>)
    ensures
        r == u64_of(text@),
{
    text.parse::<u64>().ok()
}

/// Reads a `usize` with `str::parse`: the text must be decimal digits,
/// with or without a plus sign in front, and the number must fit.
#[verifier::external_body]
pub(crate) fn parse_usize(text: &str) -> (r: Option<usize>)
    ensures
        r == usize_of(text@),
{
    text.parse::<usize>().ok()
}

/// The number of a character, with capital letters counted as small ones.
pub open spec fn folded(c: char) -> u32 {
    if 'A' <= c <= 'Z' {
        (c as u32 + 32) as u32
    } else {
        c as u32
    }
}

/// Whether two texts are the same but for the case of their letters from
/// A to Z.
pub open spec fn same_ignoring_case(a: Seq<char>, b: Seq<char>) -> bool {
    &&& a.len() == b.len()
    &&& forall|i: int| 0 <= i < a.len() ==> folded(#[trigger] a[i]) == folded(b[i])
}

/// The log level that a text names: one of the six names, in any case.
pub open spec fn level_of(text: Seq<char>) -> Option<LogLevel> {
    if same_ignoring_case(text, "OFF"@) {
        Some(LogLevel::Off)
    } else if same_ignoring_case(text, "ERROR"@) {
        Some(LogLevel::Error)
    } else if same_ignoring_case(text, "WARN"@) {
        Some(LogLevel::Warn)
    } else if same_ignoring_case(text, "INFO"@) {
        Some(LogLevel::Info)
    } else if same_ignoring_case(text, "DEBUG"@) {
        Some(LogLevel::Debug)
    } else if same_ignoring_case(text, "TRACE"@) {
        Some(LogLevel::Trace)
    } else {
        None
    }
}

/// Reads a log level with `log::LevelFilter::from_str`, which compares the
/// text with each of the six names without regard to the case of ASCII
/// letters.
#[verifier::external_body]
pub(crate) fn parse_level(text: &str) -> (r: Option<LogLevel>)
    ensures
        r == level_of(text@),
{
    match text.parse::<log::LevelFilter>() {
        Ok(log::LevelFilter::Off) => Some(LogLevel::Off),
        Ok(log::LevelFilter::Error) => Some(LogLevel::Error),
        Ok(log::LevelFilter::Warn) => Some(LogLevel::Warn),
        Ok(log::LevelFilter::Info) => Some(LogLevel::Info),
        Ok(log::LevelFilter::Debug) => Some(LogLevel::Debug),
        Ok(log::LevelFilter::Trace) => Some(LogLevel::Trace),
        Err(_) => None,
    }
}

/// The number of the syslog facility that a text names, as
/// `syslog::Facility::from_str` reads it.
pub uninterp spec fn facility_number_of(text: Seq<char>) -> Option<u8>;

/// The syslog facility that a text names.
pub open spec fn facility_of(text: Seq<char>) -> Option<Facility> {
    match facility_number_of(text) {
        Some(n) => facility_numbered(n),
        None => None,
    }
}

/// Reads a syslog facility with `syslog::Facility::from_str` and hands out
/// its number.  Every facility of that crate has one of the twenty numbers
/// that `facility_numbered` knows.
#[verifier::external_body]
pub(crate) fn parse_facility_number(text: &str) -> (r: Option<u8>)
    ensures
        r == facility_number_of(text@),
        r matches Some(n) ==> facility_numbered(n) is Some,
{
    match text.parse::<syslog::Facility>() {
        Ok(f) => Some(f as u8),
        Err(_) => None,
    }
}

/// Reads a syslog facility.
pub fn parse_facility(text: &str) -> (r: Option<Facility>)
    ensures
        r == facility_of(text@),
{
    match parse_facility_number(text) {
        Some(n) => Facility::from_number(n),
        None => None,
    }
}

/// The path that `std::path::Path::join` makes of a directory and a path:
/// the path itself where it is absolute, the path below the directory
/// otherwise.
pub uninterp spec fn path_join(base: Seq<char>, path: Seq<char>) -> Seq<char>;

/// The directory that `std::path::Path::parent` gives for a path, if any.
pub uninterp spec fn path_parent(path: Seq<char>) -> Option<Seq<char>>;

/// Joins a path to a directory with `std::path::Path::join`.
#[verifier::external_body]
pub(crate) fn join_path(base: &str, path: &str) -> (r: String)
    ensures
        r@ == path_join(base@, path@),
{
    std::path::Path::new(base).join(path).to_string_lossy().into_owned()
}

/// The directory of a path, by `std::path::Path::parent`.
#[verifier::external_body]
pub(crate) fn parent_of(path: &str) -> (r: Option<String>)
    ensures
        match r {
            Some(dir) => path_parent(path@) == Some(dir@),
            None => path_parent(path@) is None,
        },
{
    match std::path::Path::new(path).parent() {
        Some(dir) => Some(dir.to_string_lossy().into_owned()),
        None => None,
    }
}

/// The home directory of the user, as `dirs::home_dir` finds it in the
/// environment.  Nothing is claimed of it.  A directory whose name is not
/// valid UTF-8 counts as none.
#[verifier::external_body]
pub(crate) fn home_directory() -> Option<String> {
    match dirs::home_dir() {
        Some(dir) => dir.into_os_string().into_string().ok(),
        None => None,
    }
}

} // verus!
