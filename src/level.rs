//! The year of study that a level label names by its leading digits.

use vstd::prelude::*;
use vstd::string::*;

use crate::text::{parse_i64, parse_int};

verus! {

/// `regex::Error`, which `regex::Regex::new` reports for a pattern it
/// refuses; it is carried through and not looked into.
#[verifier::external_type_specification]
#[verifier::external_body]
pub struct ExRegexError(regex::Error);

/// Whether `regex::Regex::new` accepts `pattern`.
pub uninterp spec fn regex_compiles(pattern: Seq<char>) -> bool;

/// The text of the first match that `regex::Regex::find` reports for
/// `pattern` in `haystack`.
pub uninterp spec fn regex_first_match(pattern: Seq<char>, haystack: Seq<char>) -> Option<Seq<char>>;

/// Relies on `regex::Regex::new`, which compiles `pattern` or reports why it
/// cannot, and on `regex::Regex::find`, which reports the leftmost-first match
/// in `haystack`; the match is handed back as its text.
#[verifier::external_body]
fn find_first(pattern: &str, haystack: &str) -> (r: Result<Option<String>, regex::Error>)
    ensures
        r is Ok <==> regex_compiles(pattern@),
        r matches Ok(Some(m)) ==> regex_first_match(pattern@, haystack@) == Some(m@),
        r matches Ok(None) ==> regex_first_match(pattern@, haystack@) is None,
{
    match regex::Regex::new(pattern) {
        Ok(re) => Ok(re.find(haystack).map(|m| m.as_str().to_string())),
        Err(e) => Err(e),
    }
}

/// The run of decimal digits at the start of a level label.
pub const LEADING_DIGITS: &'static str = "^\\d+";

/// The year that a leading digit run stands for: its value where it parses
/// as an `i64`, zero where it does not or where there is no run.
pub open spec fn year_from_digits(run: Option<Seq<char>>) -> i64 {
    match run {
        Some(d) => match parse_int(d) {
            Some(v) => v as i64,
            None => 0,
        },
        None => 0,
    }
}

/// The year of a level label, given that the digit pattern compiles.
pub open spec fn year_of_label(label: Seq<char>) -> i64 {
    year_from_digits(regex_first_match(LEADING_DIGITS@, label))
}

/// Reported when the digit pattern is refused by the regex engine.
#[derive(Debug, Clone, Copy, PartialEq, Eq, Structural)]
pub struct PatternError;

/// The year that a leading digit run of a level label stands for.
pub fn year_of_digits(run: Option<&str>) -> (r: i64)
    ensures
        r == year_from_digits(match run {
            Some(d) => Some(d@),
            None => None,
        }),
{
    match run {
        Some(d) => match parse_i64(d) {
            Some(v) => v,
            None => 0,
        },
        None => 0,
    }
}

/// The year of study that a level label gives by its leading digits, zero
/// where it starts with none.
pub fn parse_year(label: &str) -> (r: Result<i64, PatternError>)
    ensures
        r is Ok <==> regex_compiles(LEADING_DIGITS@),
        r matches Ok(y) ==> y == year_of_label(label@),
{
    match find_first(LEADING_DIGITS, label) {
        Ok(Some(m)) => Ok(year_of_digits(Some(m.as_str()))),
        Ok(None) => Ok(year_of_digits(None)),
        Err(_) => Err(PatternError),
    }
}

} // verus!
