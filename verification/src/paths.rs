//! Which paths of a walk are searched.

use regex::RegexSet;
use vstd::prelude::*;
use crate::engine::{set_is_match, set_matches};

verus! {

/// Decides by its path whether a file is searched: where paths to include
/// are given, a path is searched exactly when one of them occurs in it;
/// where none are given, exactly when no path to exclude occurs in it.
pub struct PathMatcher {
    included_paths: Option<RegexSet>,
    excluded_paths: RegexSet,
}

impl PathMatcher {
    /// The patterns of the paths to include, where any were given.
    pub closed spec fn included(&self) -> Option<RegexSet> {
        self.included_paths
    }

    /// The patterns of the paths to exclude.
    pub closed spec fn excluded(&self) -> RegexSet {
        self.excluded_paths
    }

    /// The path is one to search. Inclusion takes precedence: where paths
    /// to include are given, the paths to exclude are not looked at.
    pub open spec fn admits(&self, path: Seq<char>) -> bool {
        match self.included() {
            Some(set) => set_matches(set, path),
            None => !set_matches(self.excluded(), path),
        }
    }

    /// A matcher from the two sets of patterns.
    pub fn new(included_paths: Option<RegexSet>, excluded_paths: RegexSet) -> (matcher: PathMatcher)
        ensures
            matcher.included() == included_paths,
            matcher.excluded() == excluded_paths,
    {
        PathMatcher { included_paths, excluded_paths }
    }

    /// Whether an entry of the walk is searched: it must be a file, and its
    /// path one to search.
    pub fn should_search(&self, is_file: bool, path: &str) -> (search: bool)
        ensures
            search == (is_file && self.admits(path@)),
    {
        is_file && self.path_matches(path)
    }

    /// Whether the path is one to search.
    pub fn path_matches(&self, path: &str) -> (search: bool)
        ensures
            search == self.admits(path@),
    {
        match &self.included_paths {
            Some(included_paths) => set_is_match(included_paths, path),
            None => !set_is_match(&self.excluded_paths, path),
        }
    }
}

} // verus!
