//! Regular expressions, compiled and run by the `regex` crate.

use vstd::prelude::*;

verus! {

/// A compiled `regex::Regex`, opaque to the proofs.
#[verifier::external_type_specification]
#[verifier::external_body]
pub struct ExRegex(regex::Regex);

/// Whether `regex::Regex::new` accepts the pattern.
pub uninterp spec fn pattern_compiles(pattern: Seq<char>) -> bool;

/// Text of the named group `group` in the leftmost match of `pattern` in
/// `haystack`, as `regex::Regex::captures` and `regex::Captures::name`
/// find it; `None` when there is no match or the group did not take part.
pub uninterp spec fn regex_group(pattern: Seq<char>, haystack: Seq<char>, group: Seq<char>) -> Option<
    Seq<char>,
>;

/// Calls `regex::Regex::new`. Claimed: it succeeds exactly on the patterns
/// for which `pattern_compiles` holds; nothing is claimed of the compiled
/// value itself, which only `Pattern` holds, beside its source.
#[verifier::external_body]
fn compile_regex(pattern: &str) -> (r: Option<regex::Regex>)
    ensures
        r is Some <==> pattern_compiles(pattern@),
{
    regex::Regex::new(pattern).ok()
}

/// Calls `regex::Regex::captures` on a compiled pattern and reads the named
/// group with `regex::Captures::name`. Claimed: the text is
/// `regex_group(source, haystack, group)`, where `source` is the pattern the
/// regex was compiled from (a `Pattern` is only built by `Pattern::compile`).
#[verifier::external_body]
fn captures_group(p: &Pattern, haystack: &str, group: &str) -> (r: Option<String>)
    ensures
        match r {
            Some(s) => regex_group(p.source@, haystack@, group@) == Some(s@),
            None => regex_group(p.source@, haystack@, group@) is None,
        },
{
    p.regex.captures(haystack).and_then(|c| c.name(group)).map(|m| m.as_str().to_string())
}

/// A regular expression together with the pattern it was compiled from.
pub struct Pattern {
    regex: regex::Regex,
    source: Ghost<Seq<char>>,
}

impl Pattern {
    /// A `Pattern` is only built from a pattern that compiles, by
    /// `Pattern::compile`, which keeps that pattern as its source.
    #[verifier::type_invariant]
    closed spec fn source_compiles(self) -> bool {
        pattern_compiles(self.source@)
    }

    /// The pattern the expression was compiled from.
    pub closed spec fn source(&self) -> Seq<char> {
        self.source@
    }

    /// Compile a pattern; `None` when the `regex` crate refuses it.
    pub fn compile(pattern: &str) -> (r: Option<Pattern>)
        ensures
            r is Some <==> pattern_compiles(pattern@),
            r matches Some(p) ==> p.source() == pattern@,
            r matches Some(p) ==> pattern_compiles(p.source()),
    {
        match compile_regex(pattern) {
            Some(regex) => Some(Pattern { regex, source: Ghost(pattern@) }),
            None => None,
        }
    }

    /// The named group of the leftmost match in `haystack`.
    pub fn group(&self, haystack: &str, group: &str) -> (r: Option<String>)
        ensures
            match r {
                Some(s) => regex_group(self.source(), haystack@, group@) == Some(s@),
                None => regex_group(self.source(), haystack@, group@) is None,
            },
    {
        captures_group(self, haystack, group)
    }
}

} // verus!
