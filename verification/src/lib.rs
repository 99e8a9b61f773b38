//! dende_rs: a verified core for a file/directory pattern monitor.
//!
//! The library holds the logic of three subsystems: a file tailing engine
//! (offsets, line counters, rotation detection), a rate-limited hash polling
//! scheduler, and a notification dispatcher with per-sink retry. I/O (file
//! reads, filesystem watches, network calls) lives outside the library and
//! hands it plain values.
use vstd::prelude::*;

pub mod text;
pub mod files;
pub mod events;
pub mod virustotal;
pub mod rate;
pub mod date;
pub mod notifiers;
pub mod args;

verus! {

use vstd::utf8::encode_utf8;
use crate::text::is_substring;

/// Errors for invalid or contradictory job configuration.
#[derive(Clone, Copy, Debug, PartialEq, Eq, Structural)]
pub enum ConfigError {
    /// Neither a literal search term nor a regex was given.
    NoMatcher,
    /// The regex pattern does not compile.
    InvalidRegex,
    /// A job names neither a path nor any hash.
    NoTarget,
    /// A job names both a path and a hash list.
    BothTargets,
    /// A job has no recipient.
    NoRecipients,
    /// A path-targeted job points at a path that does not exist.
    PathNotFound,
    /// The configuration holds no jobs at all.
    NoJobs,
}

/// Whether the regex crate accepts `pat` as a pattern: the result of
/// `regex::Regex::new(pat)` being `Ok`, which depends on the pattern alone.
pub uninterp spec fn regex_valid(pat: Seq<char>) -> bool;

/// Whether a regex compiled from `pat` has at least one unanchored match in
/// `line`; false when `pat` does not compile. A function of the two strings
/// alone.
pub uninterp spec fn regex_match(pat: Seq<char>, line: Seq<char>) -> bool;

/// Relies on regex::Regex::new: whether a pattern compiles depends on the
/// pattern string alone.
#[verifier::external_body]
fn regex_compiles(pat: &str) -> (r: bool)
    ensures
        r == regex_valid(pat@),
{
    ::regex::Regex::new(pat).is_ok()
}

/// Relies on regex::Regex::new and regex::Regex::is_match: whether a pattern
/// has an unanchored match in a line is a function of the two strings alone,
/// and an uncompilable pattern matches nothing.
#[verifier::external_body]
fn regex_search(pat: &str, line: &str) -> (r: bool)
    ensures
        r == regex_match(pat@, line@),
{
    match ::regex::Regex::new(pat) {
        Ok(re) => re.is_match(line),
        Err(_) => false,
    }
}

/// Matching engine: either a literal byte substring or a regex pattern.
#[derive(Clone, Debug)]
pub enum Matcher {
    /// Byte-exact substring containment of the stored term.
    Literal(String),
    /// Unanchored search with the stored pattern, validated at construction.
    Regex(String),
}

/// What `Matcher::matches` returns on a line.
pub open spec fn spec_matches(m: Matcher, line: Seq<char>) -> bool {
    match m {
        Matcher::Literal(p) => is_substring(encode_utf8(line), encode_utf8(p@)),
        Matcher::Regex(p) => regex_match(p@, line),
    }
}

impl Matcher {
    /// Build a matcher from an optional search term and an optional regex:
    /// a literal term wins, an invalid regex or an empty spec is refused.
    pub fn from_spec(search: &Option<String>, regex: &Option<String>) -> (r: Result<
        Self,
        ConfigError,
    >)
        ensures
            match search {
                Some(s) => r == Ok::<Matcher, ConfigError>(Matcher::Literal(*s)),
                None => match regex {
                    Some(p) => if regex_valid(p@) {
                        r == Ok::<Matcher, ConfigError>(Matcher::Regex(*p))
                    } else {
                        r == Err::<Matcher, ConfigError>(ConfigError::InvalidRegex)
                    },
                    None => r == Err::<Matcher, ConfigError>(ConfigError::NoMatcher),
                },
            },
    {
        match search {
            Some(s) => Ok(Matcher::Literal(s.clone())),
            None => match regex {
                Some(p) => {
                    if regex_compiles(p.as_str()) {
                        Ok(Matcher::Regex(p.clone()))
                    } else {
                        Err(ConfigError::InvalidRegex)
                    }
                },
                None => Err(ConfigError::NoMatcher),
            },
        }
    }

    /// Whether the line matches: byte-exact substring containment for a
    /// literal, an unanchored search for a regex.
    pub fn matches(&self, line: &str) -> (r: bool)
        ensures
            r == spec_matches(*self, line@),
    {
        match self {
            Matcher::Literal(s) => crate::text::contains_str(line, s.as_str()),
            Matcher::Regex(p) => regex_search(p.as_str(), line),
        }
    }
}

} // verus!
