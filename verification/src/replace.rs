//! Decisions over match records and the replacements staged from them.

use std::sync::Arc;
use grep::regex::RegexMatcher;
use vstd::prelude::*;
use vstd::string::*;
use crate::engine::{replace_matches, share, substituted};
use crate::printer::{MatchPrinter, PrinterView};
use crate::search::{view_matches, Match, MatchView};

verus! {

/// A match together with the text that takes the place of its line.
#[derive(Debug)]
pub struct MatchReplacement {
    pub search_match: Match,
    pub replacement: String,
}

/// The value of a [`MatchReplacement`].
pub struct MatchReplacementView {
    pub search_match: MatchView,
    pub replacement: Seq<char>,
}

impl MatchReplacementView {
    /// The number of the line that the replacement stands for.
    pub open spec fn number(self) -> int {
        self.search_match.line.number as int
    }
}

impl View for MatchReplacement {
    type V = MatchReplacementView;

    open spec fn view(&self) -> MatchReplacementView {
        MatchReplacementView {
            search_match: self.search_match@,
            replacement: self.replacement@,
        }
    }
}

/// The values of a list of replacements, in order.
pub open spec fn view_replacements(list: Seq<MatchReplacement>) -> Seq<MatchReplacementView> {
    list.map_values(|r: MatchReplacement| r@)
}

/// What becomes of one match.
#[derive(Debug, Copy, Clone, PartialEq, Eq, Structural)]
pub enum ReplacementDecision {
    /// The proposed replacement is staged.
    Accept,
    /// The match is left as it is.
    Ignore,
    /// The operator writes the replacement.
    Edit,
    /// The run ends here; nothing staged for this file is applied.
    Terminate,
}

/// An override that an operator sets for the rest of a file.
#[derive(Debug, Copy, Clone, PartialEq, Eq, Structural)]
pub enum DecisionScope {
    /// Every match is asked about.
    Unset,
    /// Every match is accepted without asking.
    ForceAccept,
    /// Every match is ignored without asking.
    ForceIgnore,
}

/// How matches are decided: by one fixed decision, or by asking the
/// operator, who may settle the rest of a file at once.
#[derive(Debug, Copy, Clone)]
pub enum ReplacementDecider {
    Constantly(ReplacementDecision),
    WithPrompt { local_decision: DecisionScope },
}

/// What an operator's answer to the staging question means.
#[derive(Debug, Copy, Clone, PartialEq, Eq, Structural)]
pub enum Response {
    /// `y`: stage this replacement.
    Accept,
    /// `n`: leave this match.
    Ignore,
    /// `q`: end the run.
    Terminate,
    /// `a`: stage this replacement and all that remain in the file.
    AcceptRest,
    /// `d`: leave this match and all that remain in the file.
    IgnoreRest,
    /// `e`: write the replacement by hand.
    Edit,
    /// `?` or anything else: show the help and ask again.
    Help,
}

/// The meaning of an answer, which is one of the letters `y n q a d e`
/// alone; every other answer asks for the help.
pub open spec fn response_of(line: Seq<char>) -> Response {
    if line.len() != 1 {
        Response::Help
    } else if line[0] == 'y' {
        Response::Accept
    } else if line[0] == 'n' {
        Response::Ignore
    } else if line[0] == 'q' {
        Response::Terminate
    } else if line[0] == 'a' {
        Response::AcceptRest
    } else if line[0] == 'd' {
        Response::IgnoreRest
    } else if line[0] == 'e' {
        Response::Edit
    } else {
        Response::Help
    }
}

/// Reads an operator's answer.
pub fn parse_response(line: &str) -> (response: Response)
    ensures
        response == response_of(line@),
{
    if line.unicode_len() != 1 {
        return Response::Help;
    }
    let c = line.get_char(0);
    if c == 'y' {
        Response::Accept
    } else if c == 'n' {
        Response::Ignore
    } else if c == 'q' {
        Response::Terminate
    } else if c == 'a' {
        Response::AcceptRest
    } else if c == 'd' {
        Response::IgnoreRest
    } else if c == 'e' {
        Response::Edit
    } else {
        Response::Help
    }
}

/// The decision that an answer gives, if it gives one: `None` asks for the
/// help. A closed channel, which has no answer, ends the run.
pub open spec fn decision_of(line: Option<Seq<char>>) -> Option<ReplacementDecision> {
    match line {
        None => Some(ReplacementDecision::Terminate),
        Some(text) => match response_of(text) {
            Response::Accept => Some(ReplacementDecision::Accept),
            Response::Ignore => Some(ReplacementDecision::Ignore),
            Response::Terminate => Some(ReplacementDecision::Terminate),
            Response::AcceptRest => Some(ReplacementDecision::Accept),
            Response::IgnoreRest => Some(ReplacementDecision::Ignore),
            Response::Edit => Some(ReplacementDecision::Edit),
            Response::Help => None,
        },
    }
}

/// The scope after an answer: `a` and `d` set it, nothing else touches it.
pub open spec fn scope_after(scope: DecisionScope, line: Option<Seq<char>>) -> DecisionScope {
    match line {
        None => scope,
        Some(text) => match response_of(text) {
            Response::AcceptRest => DecisionScope::ForceAccept,
            Response::IgnoreRest => DecisionScope::ForceIgnore,
            _ => scope,
        },
    }
}

impl ReplacementDecider {
    /// The decision that stands without asking: the fixed one, or the one
    /// that the operator set for the rest of the file.
    pub open spec fn standing(self) -> Option<ReplacementDecision> {
        match self {
            ReplacementDecider::Constantly(decision) => Some(decision),
            ReplacementDecider::WithPrompt { local_decision } => match local_decision {
                DecisionScope::Unset => None,
                DecisionScope::ForceAccept => Some(ReplacementDecision::Accept),
                DecisionScope::ForceIgnore => Some(ReplacementDecision::Ignore),
            },
        }
    }

    /// The decider at the start of a file: the operator's override is gone.
    pub open spec fn cleared(self) -> ReplacementDecider {
        match self {
            ReplacementDecider::Constantly(decision) => self,
            ReplacementDecider::WithPrompt { local_decision } => ReplacementDecider::WithPrompt {
                local_decision: DecisionScope::Unset,
            },
        }
    }

    /// The decider after an answer of the operator.
    pub open spec fn answered(self, line: Option<Seq<char>>) -> ReplacementDecider {
        match self {
            ReplacementDecider::Constantly(decision) => self,
            ReplacementDecider::WithPrompt { local_decision } => ReplacementDecider::WithPrompt {
                local_decision: scope_after(local_decision, line),
            },
        }
    }

    /// The decision after an answer of the operator, if the answer gives
    /// one. A fixed decision stands whatever the answer.
    pub open spec fn verdict(self, line: Option<Seq<char>>) -> Option<ReplacementDecision> {
        match self {
            ReplacementDecider::Constantly(decision) => Some(decision),
            ReplacementDecider::WithPrompt { local_decision } => decision_of(line),
        }
    }

    /// A decider that gives the same decision for every match.
    pub fn constantly(decision: ReplacementDecision) -> (decider: ReplacementDecider)
        ensures
            decider == ReplacementDecider::Constantly(decision),
    {
        ReplacementDecider::Constantly(decision)
    }

    /// A decider that asks the operator.
    pub fn with_prompt() -> (decider: ReplacementDecider)
        ensures
            decider == (ReplacementDecider::WithPrompt { local_decision: DecisionScope::Unset }),
    {
        ReplacementDecider::WithPrompt { local_decision: DecisionScope::Unset }
    }

    /// The decision for the next match where none has to be asked for;
    /// `None` where the operator must be asked.
    pub fn decide(&self) -> (decision: Option<ReplacementDecision>)
        ensures
            decision == self.standing(),
    {
        match self {
            ReplacementDecider::Constantly(decision) => Some(*decision),
            ReplacementDecider::WithPrompt { local_decision } => match local_decision {
                DecisionScope::Unset => None,
                DecisionScope::ForceAccept => Some(ReplacementDecision::Accept),
                DecisionScope::ForceIgnore => Some(ReplacementDecision::Ignore),
            },
        }
    }

    /// Forgets the operator's override; called at the start of every file.
    pub fn reset(&mut self)
        ensures
            *final(self) == old(self).cleared(),
    {
        match self {
            ReplacementDecider::Constantly(_) => (),
            ReplacementDecider::WithPrompt { local_decision } => {
                *local_decision = DecisionScope::Unset;
            },
        }
    }

    /// Takes the operator's answer to the staging question; `None` stands
    /// for a closed channel. Gives the decision, or `None` where the help
    /// is to be shown and the question asked again.
    pub fn answer(&mut self, line: Option<&str>) -> (decision: Option<ReplacementDecision>)
        ensures
            *final(self) == old(self).answered(text_of(line)),
            decision == old(self).verdict(text_of(line)),
    {
        match self {
            ReplacementDecider::Constantly(decision) => Some(*decision),
            ReplacementDecider::WithPrompt { local_decision } => {
                ReplacementDecider::prompt_for_decision(local_decision, line)
            },
        }
    }

    /// One exchange with the operator: reads the answer, sets the scope
    /// where the answer settles the rest of the file, and gives the
    /// decision, or `None` where the answer is not one of the letters.
    pub fn prompt_for_decision(local_decision: &mut DecisionScope, line: Option<&str>) -> (decision:
        Option<ReplacementDecision>)
        ensures
            *final(local_decision) == scope_after(*old(local_decision), text_of(line)),
            decision == decision_of(text_of(line)),
    {
        match line {
            None => Some(ReplacementDecision::Terminate),
            Some(text) => match parse_response(text) {
                Response::Accept => Some(ReplacementDecision::Accept),
                Response::Ignore => Some(ReplacementDecision::Ignore),
                Response::Terminate => Some(ReplacementDecision::Terminate),
                Response::AcceptRest => {
                    *local_decision = DecisionScope::ForceAccept;
                    Some(ReplacementDecision::Accept)
                },
                Response::IgnoreRest => {
                    *local_decision = DecisionScope::ForceIgnore;
                    Some(ReplacementDecision::Ignore)
                },
                Response::Edit => Some(ReplacementDecision::Edit),
                Response::Help => None,
            },
        }
    }
}

/// The characters of an answer, if there is one.
pub open spec fn text_of(line: Option<&str>) -> Option<Seq<char>> {
    match line {
        Some(text) => Some(text@),
        None => None,
    }
}

/// The question that asks for a decision on the match just shown.
pub const DECISION_PROMPT: &'static str = "Stage this replacement [y,n,q,a,e,d,?] ";

/// The question that asks for the text of an edited replacement.
pub const EDIT_PROMPT: &'static str = "Replace with [empty to skip] ";

/// What the operator is told when an answer is not one of the letters.
pub const HELP_NOTICE: &'static str =
    "\x1B[31m\nY - replace this line\nn - do not replace this line\nq - quit; do not replace this line or any remaining ones\na - replace this line and all remaining ones in this file\nd - do not replace this line nor any remaining ones in this file\ne - edit this replacement\n? - show help\n\x1B[0m\n";

/// What the operator is told when an edit is given up.
pub const SKIPPED_NOTICE: &'static str = "... skipped ...\n";

/// What closes the display of an edited replacement.
pub const EDITED_NOTICE: &'static str = "--\n";

/// What the operator is told when the run ends on their word.
pub const EXITING_NOTICE: &'static str = "exiting!\n";

/// What a replacer waits for.
#[derive(Debug, Copy, Clone, PartialEq, Eq, Structural)]
pub enum Progress {
    /// The operator's decision on the match last shown.
    AwaitDecision,
    /// The text that the operator writes for the match last shown.
    AwaitEdit,
    /// Nothing: the file is done with.
    Finished,
}

/// From which replacers are made, one per worker.
pub struct ReplacerFactory {
    regex_matcher: Arc<RegexMatcher>,
    replacement_template: Arc<String>,
    replacement_decider: ReplacementDecider,
}

/// Walks the matches of a file: proposes a replacement for each, shows it,
/// has it decided and stages what was accepted.
pub struct Replacer {
    regex_matcher: Arc<RegexMatcher>,
    replacement_template: Arc<String>,
    replacement_decider: ReplacementDecider,
    path: String,
    matches: Vec<Match>,
    next: usize,
    proposal: String,
    staged: Vec<MatchReplacement>,
    should_quit: bool,
    progress: Progress,
}

/// The value of a [`Replacer`].
pub struct ReplacerView {
    /// The compiled pattern.
    pub matcher: RegexMatcher,
    /// The replacement template.
    pub template: Seq<char>,
    /// The decision policy, with the operator's override for this file.
    pub decider: ReplacementDecider,
    /// The path of the file, as it is shown.
    pub path: Seq<char>,
    /// The matches of the file.
    pub matches: Seq<MatchView>,
    /// How many of the matches are done with.
    pub next: nat,
    /// The replacement proposed for the match last shown.
    pub proposal: Seq<char>,
    /// The replacements staged so far.
    pub staged: Seq<MatchReplacementView>,
    /// The operator has ended the run.
    pub should_quit: bool,
    /// What the replacer waits for.
    pub progress: Progress,
}

impl ReplacerView {
    /// The replacement proposed for a line.
    pub open spec fn proposed(self, line: Seq<char>) -> Seq<char> {
        substituted(self.matcher, self.template, line)
    }

    /// The replacer as it starts on a file.
    pub open spec fn opened(self, path: Seq<char>, matches: Seq<MatchView>) -> ReplacerView {
        ReplacerView {
            path,
            matches,
            next: 0,
            proposal: Seq::empty(),
            staged: Seq::empty(),
            should_quit: false,
            progress: Progress::Finished,
            ..self
        }
    }

    /// The replacer after the match in turn was staged with this text.
    pub open spec fn staging(self, text: Seq<char>) -> ReplacerView {
        ReplacerView {
            staged: self.staged.push(
                MatchReplacementView {
                    search_match: self.matches[self.next as int],
                    replacement: text,
                },
            ),
            next: self.next + 1,
            ..self
        }
    }

    /// The replacer after the match in turn was passed over.
    pub open spec fn skipping(self) -> ReplacerView {
        ReplacerView { next: self.next + 1, ..self }
    }

    /// The replacer after the operator ended the run: what was staged for
    /// this file is dropped.
    pub open spec fn terminated(self) -> ReplacerView {
        ReplacerView {
            staged: Seq::empty(),
            should_quit: true,
            progress: Progress::Finished,
            ..self
        }
    }

    /// Takes up the matches from the one in turn: each is shown with its
    /// proposed replacement and decided, for as long as a decision stands
    /// without asking. Stops where the operator must be asked, where the
    /// run is ended, or when no match is left.
    pub open spec fn settle(self, printer: PrinterView) -> (ReplacerView, PrinterView)
        decreases self.matches.len() - self.next, 1nat,
    {
        if self.next >= self.matches.len() {
            (ReplacerView { progress: Progress::Finished, ..self }, printer)
        } else {
            let m = self.matches[self.next as int];
            let proposal = self.proposed(m.line.text);
            let shown = printer.display_match(self.path, m, proposal);
            let current = ReplacerView { proposal, ..self };
            match self.decider.standing() {
                None => (ReplacerView { progress: Progress::AwaitDecision, ..current }, shown),
                Some(decision) => current.resolve(decision, shown),
            }
        }
    }

    /// Carries out a decision on the match in turn, which was shown with
    /// the proposal that the replacer holds, and takes up the matches after
    /// it.
    pub open spec fn resolve(self, decision: ReplacementDecision, printer: PrinterView) -> (
        ReplacerView,
        PrinterView,
    )
        decreases self.matches.len() - self.next, 0nat,
    {
        if self.next >= self.matches.len() {
            (ReplacerView { progress: Progress::Finished, ..self }, printer)
        } else {
            match decision {
                ReplacementDecision::Accept => self.staging(self.proposal).settle(printer),
                ReplacementDecision::Ignore => self.skipping().settle(printer),
                ReplacementDecision::Edit => (
                    ReplacerView { progress: Progress::AwaitEdit, ..self },
                    printer,
                ),
                ReplacementDecision::Terminate => (
                    self.terminated(),
                    printer.notice(EXITING_NOTICE@),
                ),
            }
        }
    }

    /// Takes the text that the operator wrote for the match in turn. An
    /// empty text passes the match over; any other text is staged with a
    /// line terminator behind it, after it was shown in place of the
    /// proposal. A closed channel ends the run.
    pub open spec fn edited(self, line: Option<Seq<char>>, printer: PrinterView) -> (
        ReplacerView,
        PrinterView,
    ) {
        if self.next >= self.matches.len() {
            (ReplacerView { progress: Progress::Finished, ..self }, printer)
        } else {
            match line {
                None => self.resolve(ReplacementDecision::Terminate, printer),
                Some(text) => if text.len() == 0 {
                    self.skipping().settle(printer.notice(SKIPPED_NOTICE@))
                } else {
                    let replacement = text + "\n"@;
                    let shown = printer.display_match(
                        self.path,
                        self.matches[self.next as int],
                        replacement,
                    ).notice(EDITED_NOTICE@);
                    self.staging(replacement).settle(shown)
                },
            }
        }
    }

    /// Takes the operator's answer to what the replacer waits for; `None`
    /// stands for a closed channel.
    pub open spec fn respond(self, line: Option<Seq<char>>, printer: PrinterView) -> (
        ReplacerView,
        PrinterView,
    ) {
        match self.progress {
            Progress::AwaitDecision => {
                let answered = ReplacerView { decider: self.decider.answered(line), ..self };
                match self.decider.verdict(line) {
                    Some(decision) => answered.resolve(decision, printer),
                    None => (answered, printer.notice(HELP_NOTICE@)),
                }
            },
            Progress::AwaitEdit => self.edited(line, printer),
            Progress::Finished => (self, printer),
        }
    }

    /// Starts on a file. Without matches nothing happens. Otherwise the
    /// header is shown, the operator's override of the file before is
    /// forgotten, and the matches are taken up from the first.
    pub open spec fn consume_matches(
        self,
        path: Seq<char>,
        matches: Seq<MatchView>,
        printer: PrinterView,
    ) -> (ReplacerView, PrinterView) {
        if matches.len() == 0 {
            (self.opened(path, matches), printer)
        } else {
            (ReplacerView { decider: self.decider.cleared(), ..self.opened(path, matches) }).settle(
                printer.display_header(path, matches.len()),
            )
        }
    }
}

impl ReplacerFactory {
    /// A factory for replacers that share a pattern, a template and a
    /// decision policy.
    pub fn new(
        regex_matcher: Arc<RegexMatcher>,
        replacement_template: Arc<String>,
        replacement_decider: ReplacementDecider,
    ) -> (factory: ReplacerFactory)
        ensures
            factory.matcher() == *regex_matcher,
            factory.template() == replacement_template@,
            factory.decider() == replacement_decider,
    {
        ReplacerFactory { regex_matcher, replacement_template, replacement_decider }
    }

    /// The compiled pattern.
    pub closed spec fn matcher(&self) -> RegexMatcher {
        *self.regex_matcher
    }

    /// The replacement template.
    pub closed spec fn template(&self) -> Seq<char> {
        self.replacement_template@
    }

    /// The decision policy.
    pub closed spec fn decider(&self) -> ReplacementDecider {
        self.replacement_decider
    }

    /// A replacer with the factory's pattern, template and policy, which
    /// has no file yet.
    pub fn build(&self) -> (replacer: Replacer)
        ensures
            replacer@ == (ReplacerView {
                matcher: self.matcher(),
                template: self.template(),
                decider: self.decider(),
                path: Seq::empty(),
                matches: Seq::empty(),
                next: 0,
                proposal: Seq::empty(),
                staged: Seq::empty(),
                should_quit: false,
                progress: Progress::Finished,
            }),
    {
        let replacer = Replacer {
            regex_matcher: share(&self.regex_matcher),
            replacement_template: share(&self.replacement_template),
            replacement_decider: self.replacement_decider,
            path: String::new(),
            matches: Vec::new(),
            next: 0,
            proposal: String::new(),
            staged: Vec::new(),
            should_quit: false,
            progress: Progress::Finished,
        };
        assert(replacer@.matches =~= Seq::empty());
        assert(replacer@.staged =~= Seq::empty());
        replacer
    }
}

impl View for Replacer {
    type V = ReplacerView;

    closed spec fn view(&self) -> ReplacerView {
        ReplacerView {
            matcher: *self.regex_matcher,
            template: self.replacement_template@,
            decider: self.replacement_decider,
            path: self.path@,
            matches: view_matches(self.matches@),
            next: self.next as nat,
            proposal: self.proposal@,
            staged: view_replacements(self.staged@),
            should_quit: self.should_quit,
            progress: self.progress,
        }
    }
}

impl Replacer {
    /// What the replacer waits for.
    pub fn progress(&self) -> (progress: Progress)
        ensures
            progress == self@.progress,
    {
        self.progress
    }

    /// Whether the operator has ended the run.
    pub fn should_quit(&self) -> (quit: bool)
        ensures
            quit == self@.should_quit,
    {
        self.should_quit
    }

    /// The replacement that the pattern and the template give for a line.
    pub fn replace_with_captures(&self, input: &str) -> (replacement: String)
        ensures
            replacement@ == self@.proposed(input@),
    {
        replace_matches(&self.regex_matcher, self.replacement_template.as_str(), input)
    }

    /// Starts on a file: takes its matches and decides them as far as no
    /// answer of the operator is needed. What is to be shown goes to the
    /// printer.
    pub fn consume_matches(&mut self, path: &str, matches: Vec<Match>, match_printer: &mut MatchPrinter)
        ensures
            (final(self)@, final(match_printer)@) == old(self)@.consume_matches(
                path@,
                view_matches(matches@),
                old(match_printer)@,
            ),
    {
        self.path = String::from_str(path);
        self.matches = matches;
        self.next = 0;
        self.proposal = String::new();
        self.staged = Vec::new();
        self.should_quit = false;
        self.progress = Progress::Finished;
        assert(self@.staged =~= Seq::empty());
        assert(self@ == old(self)@.opened(path@, view_matches(matches@)));
        if self.matches.len() == 0 {
            return ;
        }
        match_printer.display_header(path, self.matches.len());
        self.replacement_decider.reset();
        self.settle(match_printer);
    }

    /// Takes the operator's answer to what the replacer waits for; `None`
    /// stands for a closed channel. Then goes on with the matches as far as
    /// no further answer is needed.
    pub fn respond(&mut self, line: Option<&str>, match_printer: &mut MatchPrinter)
        ensures
            (final(self)@, final(match_printer)@) == old(self)@.respond(
                text_of(line),
                old(match_printer)@,
            ),
    {
        match self.progress {
            Progress::AwaitDecision => {
                match self.replacement_decider.answer(line) {
                    Some(decision) => self.resolve(decision, match_printer),
                    None => match_printer.notice(HELP_NOTICE),
                }
            },
            Progress::AwaitEdit => self.edited(line, match_printer),
            Progress::Finished => {},
        }
    }

    /// Takes up the matches from the one in turn, as far as decisions stand
    /// without asking.
    pub fn settle(&mut self, match_printer: &mut MatchPrinter)
        ensures
            (final(self)@, final(match_printer)@) == old(self)@.settle(old(match_printer)@),
    {
        loop
            invariant
                self@.settle(match_printer@) == old(self)@.settle(old(match_printer)@),
            decreases self.matches.len() - self.next,
        {
            if self.next >= self.matches.len() {
                self.progress = Progress::Finished;
                return ;
            }
            let proposal = self.replace_with_captures(self.matches[self.next].line.1.as_str());
            match_printer.display_match(
                self.path.as_str(),
                &self.matches[self.next],
                proposal.as_str(),
            );
            self.proposal = proposal;
            match self.replacement_decider.decide() {
                None => {
                    self.progress = Progress::AwaitDecision;
                    return ;
                },
                Some(ReplacementDecision::Accept) => {
                    self.stage_proposal();
                },
                Some(ReplacementDecision::Ignore) => {
                    self.next = self.next + 1;
                },
                Some(ReplacementDecision::Edit) => {
                    self.progress = Progress::AwaitEdit;
                    return ;
                },
                Some(ReplacementDecision::Terminate) => {
                    self.terminate(match_printer);
                    return ;
                },
            }
        }
    }

    /// Carries out a decision on the match in turn and goes on with the
    /// matches after it.
    pub fn resolve(&mut self, decision: ReplacementDecision, match_printer: &mut MatchPrinter)
        ensures
            (final(self)@, final(match_printer)@) == old(self)@.resolve(
                decision,
                old(match_printer)@,
            ),
    {
        if self.next >= self.matches.len() {
            self.progress = Progress::Finished;
            return ;
        }
        match decision {
            ReplacementDecision::Accept => {
                self.stage_proposal();
                self.settle(match_printer);
            },
            ReplacementDecision::Ignore => {
                self.next = self.next + 1;
                self.settle(match_printer);
            },
            ReplacementDecision::Edit => {
                self.progress = Progress::AwaitEdit;
            },
            ReplacementDecision::Terminate => {
                self.terminate(match_printer);
            },
        }
    }

    /// Takes the text that the operator wrote for the match in turn.
    pub fn edited(&mut self, line: Option<&str>, match_printer: &mut MatchPrinter)
        ensures
            (final(self)@, final(match_printer)@) == old(self)@.edited(
                text_of(line),
                old(match_printer)@,
            ),
    {
        if self.next >= self.matches.len() {
            self.progress = Progress::Finished;
            return ;
        }
        match line {
            None => self.resolve(ReplacementDecision::Terminate, match_printer),
            Some(text) => {
                if text.is_empty() {
                    match_printer.notice(SKIPPED_NOTICE);
                    self.next = self.next + 1;
                    self.settle(match_printer);
                } else {
                    let mut replacement = String::from_str(text);
                    replacement.append("\n");
                    match_printer.display_match(
                        self.path.as_str(),
                        &self.matches[self.next],
                        replacement.as_str(),
                    );
                    match_printer.notice(EDITED_NOTICE);
                    self.stage(replacement);
                    self.settle(match_printer);
                }
            },
        }
    }

    /// Stages the match in turn with the proposal that the replacer holds.
    fn stage_proposal(&mut self)
        requires
            old(self)@.next < old(self)@.matches.len(),
        ensures
            final(self)@ == old(self)@.staging(old(self)@.proposal),
    {
        let text = self.proposal.clone();
        self.stage(text);
    }

    /// Stages the match in turn with the given text and moves on to the
    /// next; where no match is left, nothing happens.
    pub fn stage(&mut self, text: String)
        ensures
            final(self)@ == if old(self)@.next < old(self)@.matches.len() {
                old(self)@.staging(text@)
            } else {
                old(self)@
            },
    {
        if self.next < self.matches.len() {
            let search_match = self.matches[self.next].clone();
            self.staged.push(MatchReplacement { search_match, replacement: text });
            self.next = self.next + 1;
            assert(self@.staged =~= old(self)@.staging(text@).staged);
        }
    }

    /// Ends the run on the operator's word.
    fn terminate(&mut self, match_printer: &mut MatchPrinter)
        ensures
            final(self)@ == old(self)@.terminated(),
            final(match_printer)@ == old(match_printer)@.notice(EXITING_NOTICE@),
    {
        match_printer.notice(EXITING_NOTICE);
        self.staged = Vec::new();
        self.should_quit = true;
        self.progress = Progress::Finished;
        assert(self@.staged =~= Seq::empty());
    }

    /// Hands out the replacements staged for the file, in the order of its
    /// matches, and keeps none.
    pub fn take_staged(&mut self) -> (staged: Vec<MatchReplacement>)
        ensures
            view_replacements(staged@) == old(self)@.staged,
            final(self)@ == (ReplacerView { staged: Seq::empty(), ..old(self)@ }),
    {
        let mut staged: Vec<MatchReplacement> = Vec::new();
        core::mem::swap(&mut self.staged, &mut staged);
        assert(self@.staged =~= Seq::empty());
        staged
    }
}

} // verus!
