//! Counters of a run, and what each file's outcome does to them and to the
//! walk over the files.

use vstd::prelude::*;

verus! {

/// What a run has counted. A counter that runs over starts again from zero.
#[derive(Debug, Clone, Copy)]
pub struct Statistics {
    pub wall_time_ns: u64,
    pub search_time_ns: u64,
    pub files_total: usize,
    pub files_searched: usize,
    pub files_ignored: usize,
    pub files_with_matches: usize,
    pub files_with_replacements: usize,
    pub num_matches: usize,
    pub num_replacements: usize,
}

/// Whether the walk over the files goes on.
#[derive(Debug, Clone, Copy, PartialEq, Eq, Structural)]
pub enum WalkDecision {
    Continue,
    Quit,
}

/// How the work on one entry of the walk ended.
#[derive(Debug, Clone, Copy)]
pub enum FileOutcome {
    /// The walk could not produce the entry.
    WalkFailed,
    /// The entry is no file, or its path is filtered out.
    Skipped,
    /// The file could not be searched.
    SearchFailed,
    /// The file was searched and holds no match.
    NoMatches,
    /// The file's matches were decided and what was staged was applied.
    Replaced { num_matches: usize, num_replaced: usize, should_quit: bool },
    /// The file's matches were decided, but rewriting the file failed.
    RewriteFailed { num_matches: usize },
    /// The file was done with, but what was rendered for it found nobody
    /// left to read it.
    OutputClosed { num_matches: usize, num_replaced: usize },
}

/// The sum as a machine-sized counter holds it: modulo the counter's range.
pub open spec fn wrapped(sum: int) -> usize {
    (sum % (usize::MAX + 1)) as usize
}

/// The sum as a 64-bit counter holds it: modulo the counter's range.
pub open spec fn wrapped64(sum: int) -> u64 {
    (sum % 0x1_0000_0000_0000_0000) as u64
}

/// The nanoseconds that are added for a span of time: the span itself, or
/// nothing where it does not fit into 64 bits.
pub open spec fn countable_nanos(nanos: u128) -> u64 {
    if nanos <= u64::MAX {
        nanos as u64
    } else {
        0
    }
}

impl FileOutcome {
    /// The file was searched.
    pub open spec fn searched(self) -> bool {
        !(self is WalkFailed || self is Skipped)
    }

    /// The matches found in the file, where any were.
    pub open spec fn matches(self) -> Option<usize> {
        match self {
            FileOutcome::Replaced { num_matches, .. } => Some(num_matches),
            FileOutcome::RewriteFailed { num_matches } => Some(num_matches),
            FileOutcome::OutputClosed { num_matches, .. } => Some(num_matches),
            _ => None,
        }
    }

    /// The replacements applied to the file, where any were.
    pub open spec fn replacements(self) -> Option<usize> {
        match self {
            FileOutcome::Replaced { num_replaced, .. } => if num_replaced > 0 {
                Some(num_replaced)
            } else {
                None
            },
            FileOutcome::OutputClosed { num_replaced, .. } => if num_replaced > 0 {
                Some(num_replaced)
            } else {
                None
            },
            _ => None,
        }
    }

    /// Whether the walk goes on after this outcome. It stops when a search
    /// or a rewrite failed, when the operator ended the run, and when the
    /// output is closed.
    pub open spec fn decision(self) -> WalkDecision {
        match self {
            FileOutcome::WalkFailed => WalkDecision::Continue,
            FileOutcome::Skipped => WalkDecision::Continue,
            FileOutcome::SearchFailed => WalkDecision::Quit,
            FileOutcome::NoMatches => WalkDecision::Continue,
            FileOutcome::Replaced { should_quit, .. } => if should_quit {
                WalkDecision::Quit
            } else {
                WalkDecision::Continue
            },
            FileOutcome::RewriteFailed { .. } => WalkDecision::Quit,
            FileOutcome::OutputClosed { .. } => WalkDecision::Quit,
        }
    }
}

impl Statistics {
    /// The counters after an entry of the walk was visited.
    pub open spec fn visited(self, searched: bool) -> Statistics {
        Statistics {
            files_total: wrapped(self.files_total + 1),
            files_searched: if searched {
                wrapped(self.files_searched + 1)
            } else {
                self.files_searched
            },
            files_ignored: if searched {
                self.files_ignored
            } else {
                wrapped(self.files_ignored + 1)
            },
            ..self
        }
    }

    /// The counters after a file with so many matches.
    pub open spec fn with_matches(self, num_matches: usize) -> Statistics {
        Statistics {
            files_with_matches: wrapped(self.files_with_matches + 1),
            num_matches: wrapped(self.num_matches + num_matches),
            ..self
        }
    }

    /// The counters after a file with so many replacements.
    pub open spec fn with_replacements(self, num_replacements: usize) -> Statistics {
        Statistics {
            files_with_replacements: wrapped(self.files_with_replacements + 1),
            num_replacements: wrapped(self.num_replacements + num_replacements),
            ..self
        }
    }

    /// The counters after the outcome of one entry of the walk. An entry
    /// that the walk could not produce counts nowhere; a file counts as
    /// searched or ignored, then with its matches if it has any, then with
    /// its replacements if any were applied.
    pub open spec fn recorded(self, outcome: FileOutcome) -> Statistics {
        if outcome is WalkFailed {
            self
        } else {
            let visited = self.visited(outcome.searched());
            let matched = match outcome.matches() {
                Some(n) => visited.with_matches(n),
                None => visited,
            };
            match outcome.replacements() {
                Some(n) => matched.with_replacements(n),
                None => matched,
            }
        }
    }

    /// Counters that have counted nothing.
    pub fn new() -> (stats: Statistics)
        ensures
            stats == (Statistics {
                wall_time_ns: 0,
                search_time_ns: 0,
                files_total: 0,
                files_searched: 0,
                files_ignored: 0,
                files_with_matches: 0,
                files_with_replacements: 0,
                num_matches: 0,
                num_replacements: 0,
            }),
    {
        Statistics {
            wall_time_ns: 0,
            search_time_ns: 0,
            files_total: 0,
            files_searched: 0,
            files_ignored: 0,
            files_with_matches: 0,
            files_with_replacements: 0,
            num_matches: 0,
            num_replacements: 0,
        }
    }

    /// The matches counted.
    pub fn num_matches(&self) -> (n: usize)
        ensures
            n == self.num_matches,
    {
        self.num_matches
    }

    /// The replacements counted.
    pub fn num_replacements(&self) -> (n: usize)
        ensures
            n == self.num_replacements,
    {
        self.num_replacements
    }

    /// Adds a span of time, in nanoseconds, to the time the run took.
    pub fn add_elapsed_wall_time(&mut self, nanos: u128)
        ensures
            *final(self) == (Statistics {
                wall_time_ns: wrapped64(old(self).wall_time_ns + countable_nanos(nanos)),
                ..*old(self)
            }),
    {
        self.wall_time_ns = count_up64(self.wall_time_ns, nanos_to_count(nanos));
    }

    /// Adds a span of time, in nanoseconds, to the time spent searching.
    pub fn add_elapsed_search_time(&mut self, nanos: u128)
        ensures
            *final(self) == (Statistics {
                search_time_ns: wrapped64(old(self).search_time_ns + countable_nanos(nanos)),
                ..*old(self)
            }),
    {
        self.search_time_ns = count_up64(self.search_time_ns, nanos_to_count(nanos));
    }

    /// Counts an entry of the walk, as searched or as ignored.
    pub fn visit_file(&mut self, searched: bool)
        ensures
            *final(self) == old(self).visited(searched),
    {
        self.files_total = count_up(self.files_total, 1);
        if searched {
            self.files_searched = count_up(self.files_searched, 1);
        } else {
            self.files_ignored = count_up(self.files_ignored, 1);
        }
    }

    /// Counts a file with matches, and its matches.
    pub fn add_matches(&mut self, num_matches: usize)
        ensures
            *final(self) == old(self).with_matches(num_matches),
    {
        self.files_with_matches = count_up(self.files_with_matches, 1);
        self.num_matches = count_up(self.num_matches, num_matches);
    }

    /// Counts a file with replacements, and its replacements.
    pub fn add_replacements(&mut self, num_replacements: usize)
        ensures
            *final(self) == old(self).with_replacements(num_replacements),
    {
        self.files_with_replacements = count_up(self.files_with_replacements, 1);
        self.num_replacements = count_up(self.num_replacements, num_replacements);
    }

    /// Counts the outcome of one entry of the walk and says whether the
    /// walk goes on.
    pub fn record(&mut self, outcome: FileOutcome) -> (decision: WalkDecision)
        ensures
            *final(self) == old(self).recorded(outcome),
            decision == outcome.decision(),
    {
        match outcome {
            FileOutcome::WalkFailed => WalkDecision::Continue,
            FileOutcome::Skipped => {
                self.visit_file(false);
                WalkDecision::Continue
            },
            FileOutcome::SearchFailed => {
                self.visit_file(true);
                WalkDecision::Quit
            },
            FileOutcome::NoMatches => {
                self.visit_file(true);
                WalkDecision::Continue
            },
            FileOutcome::Replaced { num_matches, num_replaced, should_quit } => {
                self.visit_file(true);
                self.add_matches(num_matches);
                if num_replaced > 0 {
                    self.add_replacements(num_replaced);
                }
                if should_quit {
                    WalkDecision::Quit
                } else {
                    WalkDecision::Continue
                }
            },
            FileOutcome::RewriteFailed { num_matches } => {
                self.visit_file(true);
                self.add_matches(num_matches);
                WalkDecision::Quit
            },
            FileOutcome::OutputClosed { num_matches, num_replaced } => {
                self.visit_file(true);
                self.add_matches(num_matches);
                if num_replaced > 0 {
                    self.add_replacements(num_replaced);
                }
                WalkDecision::Quit
            },
        }
    }
}

/// A sum of two counters is held as it is while it fits, and less the
/// counter's range where it runs over: as long as no counter runs over,
/// every count is exact.
pub proof fn lemma_wrapped(a: usize, b: usize)
    ensures
        a + b <= usize::MAX ==> wrapped(a + b) == a + b,
        a + b > usize::MAX ==> wrapped(a + b) == a + b - usize::MAX - 1,
{
    let range = usize::MAX + 1;
    let total = a + b;
    if total < range {
        assert(total % range == total) by (nonlinear_arith)
            requires
                0 <= total < range,
        ;
    } else {
        assert(total % range == total - range) by (nonlinear_arith)
            requires
                range <= total < 2 * range,
        ;
    }
}

/// The sum of two counters, starting again from zero where it runs over.
fn count_up(a: usize, b: usize) -> (sum: usize)
    ensures
        sum == wrapped(a + b),
{
    proof {
        lemma_wrapped(a, b);
    }
    if a <= usize::MAX - b {
        a + b
    } else {
        a - (usize::MAX - b) - 1
    }
}

/// The sum of two 64-bit counters, starting again from zero where it runs
/// over.
fn count_up64(a: u64, b: u64) -> (sum: u64)
    ensures
        sum == wrapped64(a + b),
{
    if a <= u64::MAX - b {
        a + b
    } else {
        a - (u64::MAX - b) - 1
    }
}

/// The nanoseconds that are added for a span of time.
fn nanos_to_count(nanos: u128) -> (count: u64)
    ensures
        count == countable_nanos(nanos),
{
    if nanos <= 0xffff_ffff_ffff_ffff {
        nanos as u64
    } else {
        0
    }
}

} // verus!
