//! The settings of a run and what follows from them.

use std::path::PathBuf;
use grep::regex::RegexMatcher;
use vstd::prelude::*;
use crate::engine::{compile, compile_set, compiled, compiled_set, escape, escaped};
use crate::paths::PathMatcher;
use crate::printer::{MatchPrintMode, MatchPrinterBuilder};
use crate::replace::{DecisionScope, ReplacementDecider, ReplacementDecision};

verus! {

/// The lines of context shown on each side of a match where the settings
/// name no number.
pub const DEFAULT_CONTEXT_LINES: usize = 2;

/// The most workers that a run uses.
pub const MAX_THREADS: usize = 12;

/// What the operator asked for about color.
#[derive(Debug, Clone, Copy)]
pub enum ColorPreference {
    Always,
    Auto,
    Never,
}

/// Whether output is colored.
#[derive(Debug, Clone, Copy, PartialEq, Eq, Structural)]
pub enum ColorChoice {
    Always,
    /// Colored where the terminal can show it.
    Auto,
    Never,
}

/// Where the paths to search come from.
#[derive(Debug, Clone, Copy, PartialEq, Eq, Structural)]
pub enum PathSource {
    /// The settings name them.
    Given,
    /// They are read from standard input, one per line.
    StandardInput,
    /// None are named: the current directory is searched.
    CurrentDirectory,
}

/// How the files are walked.
#[derive(Debug, Clone, Copy, PartialEq, Eq, Structural)]
pub struct WalkSettings {
    /// The number of workers.
    pub threads: usize,
    /// Hidden files and directories are passed over.
    pub skip_hidden: bool,
    /// Ignore files, of the version control system too, are respected, in
    /// the directories walked and in those above them.
    pub respect_ignore_files: bool,
}

/// How a file is searched: the lines of context reported before and after
/// each match.
#[derive(Debug, Clone, Copy, PartialEq, Eq, Structural)]
pub struct SearcherSettings {
    pub before_context: usize,
    pub after_context: usize,
}

/// Why a run cannot start.
#[derive(Debug)]
pub enum ConfigError {
    /// The pattern to find is no valid pattern.
    InvalidPattern { pattern: String, cause: grep::regex::Error },
    /// The texts that select or exclude paths do not make a set of patterns.
    InvalidPathFilter { reason: regex::Error },
    /// The operator is to be asked, but standard input holds the paths.
    InteractiveWithPipedPaths,
}

/// The settings of a run.
#[derive(Debug)]
pub struct Config {
    /// Match case insensitively.
    pub ignore_case: bool,
    /// Match case sensitively.
    pub case_sensitive: bool,
    /// Match case sensitively if the pattern has upper-case characters,
    /// insensitively otherwise; holds where nothing else is said.
    pub smart_case: Option<bool>,
    /// Show no matches.
    pub quiet: bool,
    /// Show matches in the compact format.
    pub compact: bool,
    /// Modify files in place without asking.
    pub write: bool,
    /// Search and show replacements without modifying files.
    pub dry_run: bool,
    /// Take the pattern as a string, not as a regular expression.
    pub literal: bool,
    /// Match only at word boundaries.
    pub word: bool,
    /// Search all files, ignored and hidden ones too.
    pub all_files: bool,
    /// Search hidden files and directories.
    pub hidden: bool,
    /// Lines to show after each match.
    pub after: Option<usize>,
    /// Lines to show before each match.
    pub before: Option<usize>,
    /// Lines to show before and after each match.
    pub context: Option<usize>,
    /// Search only paths in which one of these occurs.
    pub included: Option<Vec<String>>,
    /// Search no path in which one of these occurs.
    pub excluded: Vec<String>,
    /// Whether output is colored.
    pub color: ColorPreference,
    /// Show the counters of the run at its end.
    pub print_stats: bool,
    /// What to search for.
    pub find: String,
    /// What to replace it with; may refer to capture groups of the pattern.
    pub replace: String,
    /// Where to search.
    pub paths: Vec<PathBuf>,
}

/// The first number that is given, or the default.
pub open spec fn context_lines(own: Option<usize>, both: Option<usize>) -> usize {
    match own {
        Some(n) => n,
        None => match both {
            Some(n) => n,
            None => DEFAULT_CONTEXT_LINES,
        },
    }
}

/// The patterns that match each text literally.
pub open spec fn escaped_all(texts: Seq<String>) -> Seq<Seq<char>> {
    texts.map_values(|t: String| escaped(t@))
}

impl Config {
    /// The pattern that is searched for: what the settings say to find,
    /// escaped where it is to be taken literally.
    pub open spec fn pattern_text(&self) -> Seq<char> {
        if self.literal {
            escaped(self.find@)
        } else {
            self.find@
        }
    }

    /// Letters match both cases: asked for, and not overruled.
    pub open spec fn case_insensitive(&self) -> bool {
        !self.case_sensitive && self.ignore_case
    }

    /// The case of the pattern decides: not overruled, and not switched
    /// off.
    pub open spec fn case_smart(&self) -> bool {
        !self.case_sensitive && match self.smart_case {
            Some(yes) => yes,
            None => true,
        }
    }

    /// The operator is asked about every match: the settings neither say
    /// to write nor to leave files alone.
    pub open spec fn interactive(&self) -> bool {
        !self.dry_run && !self.write
    }

    /// The pattern that is searched for.
    pub fn pattern(&self) -> (pattern: String)
        ensures
            pattern@ == self.pattern_text(),
    {
        if self.literal {
            escape(self.find.as_str())
        } else {
            self.find.clone()
        }
    }

    /// Compiles the pattern. The matcher is owed exactly when the engine
    /// accepts the pattern under the options that the settings give.
    pub fn regex_matcher(&self) -> (result: Result<RegexMatcher, ConfigError>)
        ensures
            match result {
                Ok(matcher) => compiled(
                    self.pattern_text(),
                    self.case_insensitive(),
                    self.case_smart(),
                    self.word,
                ) == Some(matcher),
                Err(e) => {
                    &&& compiled(
                        self.pattern_text(),
                        self.case_insensitive(),
                        self.case_smart(),
                        self.word,
                    ) is None
                    &&& e matches ConfigError::InvalidPattern { pattern, .. }
                    &&& pattern@ == self.pattern_text()
                },
            },
    {
        let pattern = self.pattern();
        let case_insensitive = !self.case_sensitive && self.ignore_case;
        let case_smart = !self.case_sensitive && match self.smart_case {
            Some(yes) => yes,
            None => true,
        };
        Config::matcher_or_error(
            compile(pattern.as_str(), case_insensitive, case_smart, self.word),
            pattern,
        )
    }

    /// Says what the engine's answer to a pattern means for the run: the
    /// matcher where it gave one, and otherwise that the pattern is
    /// invalid, with the pattern and the engine's reason.
    pub fn matcher_or_error(
        compiled: Result<RegexMatcher, grep::regex::Error>,
        pattern: String,
    ) -> (result: Result<RegexMatcher, ConfigError>)
        ensures
            match compiled {
                Ok(matcher) => result == Ok::<RegexMatcher, ConfigError>(matcher),
                Err(cause) => result == Err::<RegexMatcher, ConfigError>(
                    ConfigError::InvalidPattern { pattern, cause },
                ),
            },
    {
        match compiled {
            Ok(matcher) => Ok(matcher),
            Err(cause) => Err(ConfigError::InvalidPattern { pattern, cause }),
        }
    }

    /// Where the paths to search come from, given whether standard input
    /// is a terminal. Paths that are piped in cannot go together with
    /// questions to the operator, which are answered on standard input too.
    pub fn search_paths(&self, stdin_is_terminal: bool) -> (result: Result<PathSource, ConfigError>)
        ensures
            result is Err <==> self.paths.len() == 0 && !stdin_is_terminal && self.interactive(),
            result matches Err(e) ==> e is InteractiveWithPipedPaths,
            result matches Ok(source) ==> source == if self.paths.len() > 0 {
                PathSource::Given
            } else if stdin_is_terminal {
                PathSource::CurrentDirectory
            } else {
                PathSource::StandardInput
            },
    {
        if !self.paths.is_empty() {
            return Ok(PathSource::Given);
        }
        if !stdin_is_terminal {
            if self.is_interactive() {
                return Err(ConfigError::InteractiveWithPipedPaths);
            }
            Ok(PathSource::StandardInput)
        } else {
            Ok(PathSource::CurrentDirectory)
        }
    }

    /// How the files are walked, given the number of processors: with one
    /// worker per processor, but no more than twelve.
    pub fn file_walker(&self, num_cpus: usize) -> (walk: WalkSettings)
        ensures
            walk.threads == if num_cpus < MAX_THREADS {
                num_cpus
            } else {
                MAX_THREADS
            },
            walk.skip_hidden == !(self.hidden || self.all_files),
            walk.respect_ignore_files == !self.all_files,
    {
        let should_ignore = !self.all_files;
        let should_show_hidden = self.hidden || self.all_files;
        WalkSettings {
            threads: if num_cpus < MAX_THREADS {
                num_cpus
            } else {
                MAX_THREADS
            },
            skip_hidden: !should_show_hidden,
            respect_ignore_files: should_ignore,
        }
    }

    /// How matches are decided: all accepted where the settings say to
    /// write, all ignored where they say to leave files alone, and by the
    /// operator otherwise.
    pub fn replacement_decider(&self) -> (decider: ReplacementDecider)
        ensures
            decider == if self.write {
                ReplacementDecider::Constantly(ReplacementDecision::Accept)
            } else if self.dry_run {
                ReplacementDecider::Constantly(ReplacementDecision::Ignore)
            } else {
                ReplacementDecider::WithPrompt { local_decision: DecisionScope::Unset }
            },
    {
        if self.write {
            ReplacementDecider::constantly(ReplacementDecision::Accept)
        } else if self.dry_run {
            ReplacementDecider::constantly(ReplacementDecision::Ignore)
        } else {
            ReplacementDecider::with_prompt()
        }
    }

    /// How many lines of context are reported around each match: on each
    /// side the number given for that side, else the number given for
    /// both, else the default.
    pub fn searcher_builder(&self) -> (searcher: SearcherSettings)
        ensures
            searcher.before_context == context_lines(self.before, self.context),
            searcher.after_context == context_lines(self.after, self.context),
    {
        SearcherSettings {
            before_context: Config::lines_or_default(self.before, self.context),
            after_context: Config::lines_or_default(self.after, self.context),
        }
    }

    fn lines_or_default(own: Option<usize>, both: Option<usize>) -> (lines: usize)
        ensures
            lines == context_lines(own, both),
    {
        match own {
            Some(n) => n,
            None => match both {
                Some(n) => n,
                None => DEFAULT_CONTEXT_LINES,
            },
        }
    }

    /// How matches are shown: not at all where quiet is asked for, else
    /// compactly where that is asked for, else in full. The printer is
    /// told whether the run can write to files.
    pub fn match_printer(&self) -> (builder: MatchPrinterBuilder)
        ensures
            builder.print_mode == if self.quiet {
                MatchPrintMode::Silent
            } else if self.compact {
                MatchPrintMode::Compact
            } else {
                MatchPrintMode::Full
            },
            builder.writes_enabled == (self.write || self.interactive()),
    {
        MatchPrinterBuilder {
            print_mode: if self.quiet {
                MatchPrintMode::Silent
            } else if self.compact {
                MatchPrintMode::Compact
            } else {
                MatchPrintMode::Full
            },
            writes_enabled: self.write || self.is_interactive(),
        }
    }

    /// Whether output is colored, given whether standard output is a
    /// terminal: as the operator asked, but never by default where the
    /// output goes elsewhere.
    pub fn color_choice(&self, stdout_is_terminal: bool) -> (choice: ColorChoice)
        ensures
            choice == match self.color {
                ColorPreference::Always => ColorChoice::Always,
                ColorPreference::Auto => if stdout_is_terminal {
                    ColorChoice::Auto
                } else {
                    ColorChoice::Never
                },
                ColorPreference::Never => ColorChoice::Never,
            },
    {
        match self.color {
            ColorPreference::Always => ColorChoice::Always,
            ColorPreference::Auto => {
                if stdout_is_terminal {
                    ColorChoice::Auto
                } else {
                    ColorChoice::Never
                }
            },
            ColorPreference::Never => ColorChoice::Never,
        }
    }

    /// Whether the operator is asked about every match.
    pub fn is_interactive(&self) -> (interactive: bool)
        ensures
            interactive == self.interactive(),
    {
        !self.dry_run && !self.write
    }

    /// The matcher of the paths to search, from the texts that select paths
    /// and those that exclude them, each taken literally. It is owed exactly when the engine
    /// accepts both lists.
    pub fn path_matcher(&self) -> (result: Result<PathMatcher, ConfigError>)
        ensures
            match result {
                Ok(matcher) => {
                    &&& compiled_set(escaped_all(self.excluded@)) == Some(matcher.excluded())
                    &&& match self.included {
                        Some(texts) => compiled_set(escaped_all(texts@)) == matcher.included()
                            && matcher.included() is Some,
                        None => matcher.included() is None,
                    }
                },
                Err(e) => {
                    &&& e is InvalidPathFilter
                    &&& (compiled_set(escaped_all(self.excluded@)) is None || (self.included matches Some(
                        texts,
                    ) && compiled_set(escaped_all(texts@)) is None))
                },
            },
    {
        let included_paths = match &self.included {
            Some(texts) => match compile_set(&Config::escape_all(texts)) {
                Ok(set) => Some(set),
                Err(cause) => {
                    return Err(ConfigError::InvalidPathFilter { reason: cause });
                },
            },
            None => None,
        };
        match compile_set(&Config::escape_all(&self.excluded)) {
            Ok(excluded_paths) => Ok(PathMatcher::new(included_paths, excluded_paths)),
            Err(cause) => Err(ConfigError::InvalidPathFilter { reason: cause }),
        }
    }

    /// The patterns that match each of the texts literally.
    fn escape_all(texts: &Vec<String>) -> (patterns: Vec<String>)
        ensures
            patterns@.map_values(|p: String| p@) == escaped_all(texts@),
    {
        let mut patterns: Vec<String> = Vec::new();
        let mut i: usize = 0;
        while i < texts.len()
            invariant
                i <= texts.len(),
                patterns.len() == i,
                forall|k: int| 0 <= k < i ==> (#[trigger] patterns[k])@ == escaped(texts[k]@),
            decreases texts.len() - i,
        {
            patterns.push(escape(texts[i].as_str()));
            i = i + 1;
        }
        assert(patterns@.map_values(|p: String| p@) =~= escaped_all(texts@));
        patterns
    }
}

} // verus!
