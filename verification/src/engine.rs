//! The regular-expression engine, as far as the library calls it. Nothing in
//! this file is proved: each item states what the library takes on trust
//! from the engine or from the standard library.

use std::sync::Arc;
use grep::matcher::{Captures, Matcher};
use grep::regex::{RegexMatcher, RegexMatcherBuilder};
use regex::RegexSet;
use vstd::prelude::*;

verus! {

/// `grep::regex::RegexMatcher`, a compiled pattern. The library looks at
/// nothing inside it: it hands it to the calls below.
#[verifier::external_type_specification]
#[verifier::external_body]
pub struct ExRegexMatcher(RegexMatcher);

/// The text that `line` becomes when every match of the pattern in it is
/// replaced by the template, with the template's references to capture
/// groups (`$1`, `$name`, `${name}`, `$$`) filled in from the match. What
/// the pattern matches and how references resolve is the engine's business;
/// the library only holds that the same matcher, template and line give the
/// same text.
pub uninterp spec fn substituted(
    matcher: RegexMatcher,
    template: Seq<char>,
    line: Seq<char>,
) -> Seq<char>;

/// Calls `Matcher::replace_with_captures` of `grep::matcher` on the bytes of
/// `line`, with a fresh set of capture locations from
/// `Matcher::new_captures`. For each match the closure appends the template
/// by `Captures::interpolate`, which resolves a group name through
/// `Matcher::capture_index`, and asks for the next match. The bytes that
/// come out are read back as text by `String::from_utf8_lossy`.
///
/// Taken on trust: the result is a function of the matcher, the template
/// and the line alone, named [`substituted`]. A `RegexMatcher` reports no
/// error from either call (its error type cannot be built), so neither
/// `unwrap` fails.
#[verifier::external_body]
pub(crate) fn replace_matches(matcher: &Arc<RegexMatcher>, template: &str, line: &str) -> (out:
    String)
    ensures
        out@ == substituted(**matcher, template@, line@),
{
    let mut caps = matcher.new_captures().unwrap();
    let mut dst = vec![];
    matcher.replace_with_captures(line.as_bytes(), &mut caps, &mut dst, |caps, dst| {
        caps.interpolate(|name| matcher.capture_index(name), line.as_bytes(), template.as_bytes(), dst);
        true
    }).unwrap();
    String::from_utf8_lossy(&dst).to_string()
}

/// Calls `Arc::clone` of the standard library, which gives a second pointer
/// to the same value.
#[verifier::external_body]
pub(crate) fn share<T>(pointer: &Arc<T>) -> (out: Arc<T>)
    ensures
        out == *pointer,
{
    Arc::clone(pointer)
}

/// `grep::regex::Error`, which says why a pattern was refused. The library
/// passes it on unread.
#[verifier::external_type_specification]
#[verifier::external_body]
pub struct ExMatcherError(grep::regex::Error);

/// `regex::RegexSet`, a set of compiled patterns that are searched for
/// together.
#[verifier::external_type_specification]
#[verifier::external_body]
pub struct ExRegexSet(RegexSet);

/// `regex::Error`, which says why a set of patterns was refused. The
/// library passes it on unread.
#[verifier::external_type_specification]
#[verifier::external_body]
pub struct ExRegexError(regex::Error);

/// `std::path::PathBuf`, an owned path. The library carries paths through
/// and looks at none.
#[verifier::external_type_specification]
#[verifier::external_body]
pub struct ExPathBuf(std::path::PathBuf);

/// The pattern that matches `text` literally: the text with each character
/// that has a meaning in a pattern escaped.
pub uninterp spec fn escaped(text: Seq<char>) -> Seq<char>;

/// Calls `regex::escape`, which escapes every meta character of its
/// argument so that the result can stand as a literal in a pattern.
///
/// Taken on trust: the result is a function of the text alone, named
/// [`escaped`].
#[verifier::external_body]
pub(crate) fn escape(text: &str) -> (out: String)
    ensures
        out@ == escaped(text@),
{
    regex::escape(text)
}

/// The matcher that a pattern compiles to under the three options, or
/// `None` where the pattern is refused.
pub uninterp spec fn compiled(
    pattern: Seq<char>,
    case_insensitive: bool,
    case_smart: bool,
    word: bool,
) -> Option<RegexMatcher>;

/// Calls `RegexMatcherBuilder::build` of `grep::regex` on a new builder on
/// which `case_insensitive`, `case_smart` and `word` were set to the values
/// given; every other option keeps its default.
///
/// Taken on trust: whether the pattern is accepted, and how the matcher
/// that comes out behaves, is a function of the pattern and the three
/// options alone, named [`compiled`].
#[verifier::external_body]
pub(crate) fn compile(pattern: &str, case_insensitive: bool, case_smart: bool, word: bool) -> (out:
    Result<RegexMatcher, grep::regex::Error>)
    ensures
        match out {
            Ok(matcher) => compiled(pattern@, case_insensitive, case_smart, word) == Some(matcher),
            Err(_) => compiled(pattern@, case_insensitive, case_smart, word) is None,
        },
{
    RegexMatcherBuilder::new()
        .case_insensitive(case_insensitive)
        .case_smart(case_smart)
        .word(word)
        .build(pattern)
}

/// The set that a list of patterns compiles to, or `None` where one of
/// them is refused.
pub uninterp spec fn compiled_set(patterns: Seq<Seq<char>>) -> Option<RegexSet>;

/// Calls `RegexSet::new` of `regex`, which compiles the patterns with the
/// default options and fails if one of them is no valid pattern.
///
/// Taken on trust: whether the list is accepted, and how the set that
/// comes out behaves, is a function of the patterns alone, named
/// [`compiled_set`].
#[verifier::external_body]
pub(crate) fn compile_set(patterns: &Vec<String>) -> (out: Result<RegexSet, regex::Error>)
    ensures
        match out {
            Ok(set) => compiled_set(patterns@.map_values(|p: String| p@)) == Some(set),
            Err(_) => compiled_set(patterns@.map_values(|p: String| p@)) is None,
        },
{
    RegexSet::new(patterns)
}

/// One of the patterns of the set matches somewhere in the text.
pub uninterp spec fn set_matches(set: RegexSet, haystack: Seq<char>) -> bool;

/// Calls `RegexSet::is_match` of `regex`, which is true if and only if one
/// of the patterns of the set matches the text; a pattern without anchors
/// may match anywhere in it.
///
/// Taken on trust: the answer is a function of the set and the text alone,
/// named [`set_matches`].
#[verifier::external_body]
pub(crate) fn set_is_match(set: &RegexSet, haystack: &str) -> (found: bool)
    ensures
        found == set_matches(*set, haystack@),
{
    set.is_match(haystack)
}

} // verus!
