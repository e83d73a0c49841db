//! What holds of a replacer as it walks the matches of a file.

use vstd::prelude::*;
use crate::printer::PrinterView;
use crate::replace::{MatchReplacementView, Progress, ReplacementDecision, ReplacerView};
use crate::rewrite::applicable;
use crate::search::{collected, LineEventView, MatchView};
use crate::stream::{lemma_records_from_stream, lemma_records_ordered, ordered};

verus! {

/// The matched lines of the records strictly ascend.
pub open spec fn matches_ascend(matches: Seq<MatchView>) -> bool {
    forall|i: int, j: int|
        0 <= i < j < matches.len() ==> (#[trigger] matches[i]).line.number < (
        #[trigger] matches[j]).line.number
}

impl ReplacerView {
    /// The matches ascend, what is staged was taken from the matches done
    /// with, and it ascends as they do.
    pub open spec fn orderly(self) -> bool {
        &&& matches_ascend(self.matches)
        &&& forall|a: int, b: int|
            0 <= a < b < self.staged.len() ==> (#[trigger] self.staged[a]).number() < (
            #[trigger] self.staged[b]).number()
        &&& forall|a: int, j: int|
            0 <= a < self.staged.len() && self.next <= j < self.matches.len() ==> (
            #[trigger] self.staged[a]).number() < (#[trigger] self.matches[j]).line.number
        &&& forall|a: int|
            0 <= a < self.staged.len() ==> self.matches.contains(
                (#[trigger] self.staged[a]).search_match,
            )
    }

    /// The replacer waits for the operator.
    pub open spec fn waiting(self) -> bool {
        self.progress == Progress::AwaitDecision || self.progress == Progress::AwaitEdit
    }

    /// What the replacer waits for fits what it holds: while it waits, a
    /// match is in turn, and the proposal it holds is the one for that
    /// match; it asks for a decision only where none stands; it is done
    /// with the file only when no match is left or the run was ended; and
    /// it has staged no more than it has decided.
    pub open spec fn coherent(self) -> bool {
        &&& self.next <= self.matches.len()
        &&& self.staged.len() <= self.next
        &&& (self.waiting() ==> self.next < self.matches.len())
        &&& (self.waiting() ==> self.proposal == self.proposed(
            self.matches[self.next as int].line.text,
        ))
        &&& (self.progress == Progress::AwaitDecision ==> self.decider.standing() is None)
        &&& (self.progress == Progress::Finished ==> self.next == self.matches.len()
            || self.should_quit)
    }

    /// The proposals for the matches from the one in turn on, each staged.
    pub open spec fn rest_proposed(self) -> Seq<MatchReplacementView> {
        Seq::new(
            (self.matches.len() - self.next) as nat,
            |i: int|
                MatchReplacementView {
                    search_match: self.matches[self.next + i],
                    replacement: self.proposed(self.matches[self.next + i].line.text),
                },
        )
    }
}

proof fn lemma_staging_orderly(r: ReplacerView, text: Seq<char>)
    requires
        r.orderly(),
        r.next < r.matches.len(),
    ensures
        r.staging(text).orderly(),
{
    let s = r.staging(text);
    let m = r.matches[r.next as int];
    assert forall|a: int, b: int| 0 <= a < b < s.staged.len() implies (
    #[trigger] s.staged[a]).number() < (#[trigger] s.staged[b]).number() by {
        assert(s.staged[a] == r.staged[a]);
        if b < r.staged.len() {
            assert(s.staged[b] == r.staged[b]);
        } else {
            assert(r.staged[a].number() < m.line.number);
        }
    }
    assert forall|a: int, j: int|
        0 <= a < s.staged.len() && s.next <= j < s.matches.len() implies (
    #[trigger] s.staged[a]).number() < (#[trigger] s.matches[j]).line.number by {
        if a < r.staged.len() {
            assert(s.staged[a] == r.staged[a]);
        } else {
            assert(m.line.number < r.matches[j].line.number);
        }
    }
    assert forall|a: int| 0 <= a < s.staged.len() implies s.matches.contains(
        (#[trigger] s.staged[a]).search_match,
    ) by {
        if a < r.staged.len() {
            assert(s.staged[a] == r.staged[a]);
        } else {
            assert(s.matches[r.next as int] == m);
        }
    }
}

proof fn lemma_settle_orderly(r: ReplacerView, printer: PrinterView)
    requires
        r.orderly(),
    ensures
        r.settle(printer).0.orderly(),
    decreases r.matches.len() - r.next, 1nat,
{
    if r.next < r.matches.len() {
        let m = r.matches[r.next as int];
        let proposal = r.proposed(m.line.text);
        let current = ReplacerView { proposal, ..r };
        match r.decider.standing() {
            None => {},
            Some(decision) => {
                lemma_resolve_orderly(current, decision, printer.display_match(r.path, m, proposal));
            },
        }
    }
}

proof fn lemma_resolve_orderly(
    r: ReplacerView,
    decision: ReplacementDecision,
    printer: PrinterView,
)
    requires
        r.orderly(),
    ensures
        r.resolve(decision, printer).0.orderly(),
    decreases r.matches.len() - r.next, 0nat,
{
    if r.next < r.matches.len() {
        match decision {
            ReplacementDecision::Accept => {
                lemma_staging_orderly(r, r.proposal);
                lemma_settle_orderly(r.staging(r.proposal), printer);
            },
            ReplacementDecision::Ignore => {
                lemma_settle_orderly(r.skipping(), printer);
            },
            ReplacementDecision::Edit => {},
            ReplacementDecision::Terminate => {},
        }
    }
}

/// Walking the matches changes neither the pattern, nor the template, nor
/// the decision policy, nor the file.
pub proof fn lemma_settle_keeps_policy(r: ReplacerView, printer: PrinterView)
    ensures
        r.settle(printer).0.decider == r.decider,
        r.settle(printer).0.matcher == r.matcher,
        r.settle(printer).0.template == r.template,
        r.settle(printer).0.path == r.path,
        r.settle(printer).0.matches == r.matches,
    decreases r.matches.len() - r.next, 1nat,
{
    if r.next < r.matches.len() {
        let m = r.matches[r.next as int];
        let proposal = r.proposed(m.line.text);
        let current = ReplacerView { proposal, ..r };
        match r.decider.standing() {
            None => {},
            Some(decision) => {
                lemma_resolve_keeps_policy(
                    current,
                    decision,
                    printer.display_match(r.path, m, proposal),
                );
            },
        }
    }
}

/// Carrying out a decision changes neither the pattern, nor the template,
/// nor the decision policy, nor the file.
pub proof fn lemma_resolve_keeps_policy(
    r: ReplacerView,
    decision: ReplacementDecision,
    printer: PrinterView,
)
    ensures
        r.resolve(decision, printer).0.decider == r.decider,
        r.resolve(decision, printer).0.matcher == r.matcher,
        r.resolve(decision, printer).0.template == r.template,
        r.resolve(decision, printer).0.path == r.path,
        r.resolve(decision, printer).0.matches == r.matches,
    decreases r.matches.len() - r.next, 0nat,
{
    if r.next < r.matches.len() {
        match decision {
            ReplacementDecision::Accept => {
                lemma_settle_keeps_policy(r.staging(r.proposal), printer);
            },
            ReplacementDecision::Ignore => {
                lemma_settle_keeps_policy(r.skipping(), printer);
            },
            ReplacementDecision::Edit => {},
            ReplacementDecision::Terminate => {},
        }
    }
}

proof fn lemma_settle_coherent(r: ReplacerView, printer: PrinterView)
    requires
        r.next <= r.matches.len(),
        r.staged.len() <= r.next,
    ensures
        r.settle(printer).0.coherent(),
    decreases r.matches.len() - r.next, 1nat,
{
    if r.next < r.matches.len() {
        let m = r.matches[r.next as int];
        let proposal = r.proposed(m.line.text);
        let current = ReplacerView { proposal, ..r };
        match r.decider.standing() {
            None => {},
            Some(decision) => {
                lemma_resolve_coherent(
                    current,
                    decision,
                    printer.display_match(r.path, m, proposal),
                );
            },
        }
    }
}

proof fn lemma_resolve_coherent(
    r: ReplacerView,
    decision: ReplacementDecision,
    printer: PrinterView,
)
    requires
        r.next <= r.matches.len(),
        r.staged.len() <= r.next,
        r.next < r.matches.len() ==> r.proposal == r.proposed(
            r.matches[r.next as int].line.text,
        ),
    ensures
        r.resolve(decision, printer).0.coherent(),
    decreases r.matches.len() - r.next, 0nat,
{
    if r.next < r.matches.len() {
        match decision {
            ReplacementDecision::Accept => {
                lemma_settle_coherent(r.staging(r.proposal), printer);
            },
            ReplacementDecision::Ignore => {
                lemma_settle_coherent(r.skipping(), printer);
            },
            ReplacementDecision::Edit => {},
            ReplacementDecision::Terminate => {},
        }
    }
}

/// A replacer that has started on a file is coherent when it stops.
pub proof fn lemma_consume_coherent(
    r: ReplacerView,
    path: Seq<char>,
    matches: Seq<MatchView>,
    printer: PrinterView,
)
    ensures
        r.consume_matches(path, matches, printer).0.coherent(),
{
    if matches.len() > 0 {
        let start = ReplacerView { decider: r.decider.cleared(), ..r.opened(path, matches) };
        lemma_settle_coherent(start, printer.display_header(path, matches.len()));
    }
}

/// A coherent replacer stays coherent over every answer of the operator.
pub proof fn lemma_respond_coherent(r: ReplacerView, line: Option<Seq<char>>, printer: PrinterView)
    requires
        r.coherent(),
    ensures
        r.respond(line, printer).0.coherent(),
{
    match r.progress {
        Progress::AwaitDecision => {
            let answered = ReplacerView { decider: r.decider.answered(line), ..r };
            match r.decider.verdict(line) {
                Some(decision) => {
                    lemma_resolve_coherent(answered, decision, printer);
                },
                None => {},
            }
        },
        Progress::AwaitEdit => {
            match line {
                None => {
                    lemma_resolve_coherent(r, ReplacementDecision::Terminate, printer);
                },
                Some(text) => {
                    if text.len() == 0 {
                        lemma_settle_coherent(
                            r.skipping(),
                            printer.notice(crate::replace::SKIPPED_NOTICE@),
                        );
                    } else {
                        let replacement = text + "\n"@;
                        lemma_settle_coherent(
                            r.staging(replacement),
                            printer.display_match(
                                r.path,
                                r.matches[r.next as int],
                                replacement,
                            ).notice(crate::replace::EDITED_NOTICE@),
                        );
                    }
                },
            }
        },
        Progress::Finished => {},
    }
}

/// A replacer that starts on a file whose matches ascend is orderly when it
/// stops, whether it waits for the operator or is done.
pub proof fn lemma_consume_orderly(
    r: ReplacerView,
    path: Seq<char>,
    matches: Seq<MatchView>,
    printer: PrinterView,
)
    requires
        matches_ascend(matches),
    ensures
        r.consume_matches(path, matches, printer).0.orderly(),
{
    if matches.len() > 0 {
        let start = ReplacerView { decider: r.decider.cleared(), ..r.opened(path, matches) };
        lemma_settle_orderly(start, printer.display_header(path, matches.len()));
    }
}

/// An orderly replacer stays orderly over every answer of the operator.
pub proof fn lemma_respond_orderly(r: ReplacerView, line: Option<Seq<char>>, printer: PrinterView)
    requires
        r.orderly(),
    ensures
        r.respond(line, printer).0.orderly(),
{
    match r.progress {
        Progress::AwaitDecision => {
            let answered = ReplacerView { decider: r.decider.answered(line), ..r };
            match r.decider.verdict(line) {
                Some(decision) => {
                    lemma_resolve_orderly(answered, decision, printer);
                },
                None => {},
            }
        },
        Progress::AwaitEdit => {
            if r.next < r.matches.len() {
                match line {
                    None => {
                        lemma_resolve_orderly(r, ReplacementDecision::Terminate, printer);
                    },
                    Some(text) => {
                        if text.len() == 0 {
                            lemma_settle_orderly(
                                r.skipping(),
                                printer.notice(crate::replace::SKIPPED_NOTICE@),
                            );
                        } else {
                            let replacement = text + "\n"@;
                            lemma_staging_orderly(r, replacement);
                            lemma_settle_orderly(
                                r.staging(replacement),
                                printer.display_match(
                                    r.path,
                                    r.matches[r.next as int],
                                    replacement,
                                ).notice(crate::replace::EDITED_NOTICE@),
                            );
                        }
                    },
                }
            }
        },
        Progress::Finished => {},
    }
}

/// What an orderly replacer has staged can be applied to every file that
/// has the lines of its matches: the list ascends strictly and names only
/// lines of the file.
pub proof fn lemma_staged_applicable(r: ReplacerView, line_count: nat)
    requires
        r.orderly(),
        forall|j: int|
            0 <= j < r.matches.len() ==> 1 <= (#[trigger] r.matches[j]).line.number <= line_count,
    ensures
        applicable(r.staged, line_count),
{
    assert forall|a: int| 0 <= a < r.staged.len() implies 1 <= (#[trigger] r.staged[a]).number()
        <= line_count by {
        let m = r.staged[a].search_match;
        assert(r.matches.contains(m));
        let j = choose|j: int| 0 <= j < r.matches.len() && r.matches[j] == m;
        assert(1 <= r.matches[j].line.number <= line_count);
    }
}

impl ReplacerView {
    /// The replacer after a series of answers of the operator, each taken
    /// when the replacer had stopped after the one before. What is shown
    /// meanwhile is left out.
    pub open spec fn after_answers(
        self,
        answers: Seq<Option<Seq<char>>>,
        printer: PrinterView,
    ) -> ReplacerView
        decreases answers.len(),
    {
        if answers.len() == 0 {
            self
        } else {
            self.after_answers(answers.drop_last(), printer).respond(answers.last(), printer).0
        }
    }
}

/// An answer of the operator changes nothing about the file that the
/// replacer walks.
pub proof fn lemma_respond_keeps_matches(
    r: ReplacerView,
    line: Option<Seq<char>>,
    printer: PrinterView,
)
    ensures
        r.respond(line, printer).0.matches == r.matches,
{
    match r.progress {
        Progress::AwaitDecision => {
            let answered = ReplacerView { decider: r.decider.answered(line), ..r };
            match r.decider.verdict(line) {
                Some(decision) => {
                    lemma_resolve_keeps_policy(answered, decision, printer);
                },
                None => {},
            }
        },
        Progress::AwaitEdit => {
            if r.next < r.matches.len() {
                match line {
                    None => {
                        lemma_resolve_keeps_policy(r, ReplacementDecision::Terminate, printer);
                    },
                    Some(text) => {
                        if text.len() == 0 {
                            lemma_settle_keeps_policy(
                                r.skipping(),
                                printer.notice(crate::replace::SKIPPED_NOTICE@),
                            );
                        } else {
                            let replacement = text + "\n"@;
                            lemma_settle_keeps_policy(
                                r.staging(replacement),
                                printer.display_match(
                                    r.path,
                                    r.matches[r.next as int],
                                    replacement,
                                ).notice(crate::replace::EDITED_NOTICE@),
                            );
                        }
                    },
                }
            }
        },
        Progress::Finished => {},
    }
}

/// From the search to the rewrite: where the line numbers of a file's event
/// stream strictly increase and name lines of the file, what a replacer has
/// staged from the records of that stream can be applied to the file,
/// whatever the decision policy and whatever the operator has answered so
/// far. A rewrite of that file from that list leaves no replacement over.
pub proof fn lemma_search_to_rewrite(
    events: Seq<LineEventView>,
    line_count: nat,
    r: ReplacerView,
    path: Seq<char>,
    printer: PrinterView,
    answers: Seq<Option<Seq<char>>>,
)
    requires
        ordered(events),
        forall|i: int|
            0 <= i < events.len() ==> 1 <= (#[trigger] events[i]).line().number <= line_count,
    ensures
        applicable(
            r.consume_matches(path, collected(events), printer).0.after_answers(
                answers,
                printer,
            ).staged,
            line_count,
        ),
{
    let matches = collected(events);
    let start = r.consume_matches(path, matches, printer).0;
    lemma_records_ordered(events);
    lemma_records_from_stream(events, line_count);
    lemma_consume_orderly(r, path, matches, printer);
    if matches.len() > 0 {
        lemma_settle_keeps_policy(
            ReplacerView { decider: r.decider.cleared(), ..r.opened(path, matches) },
            printer.display_header(path, matches.len()),
        );
    }
    assert(start.matches == matches);
    lemma_answers_orderly(start, answers, printer);
    lemma_staged_applicable(start.after_answers(answers, printer), line_count);
}

proof fn lemma_answers_orderly(
    r: ReplacerView,
    answers: Seq<Option<Seq<char>>>,
    printer: PrinterView,
)
    requires
        r.orderly(),
    ensures
        r.after_answers(answers, printer).orderly(),
        r.after_answers(answers, printer).matches == r.matches,
    decreases answers.len(),
{
    if answers.len() > 0 {
        lemma_answers_orderly(r, answers.drop_last(), printer);
        let before = r.after_answers(answers.drop_last(), printer);
        lemma_respond_orderly(before, answers.last(), printer);
        lemma_respond_keeps_matches(before, answers.last(), printer);
    }
}

/// Where the decision to accept stands, every match from the one in turn on
/// is staged with the replacement proposed for it, in order, and the file
/// is done with, without a question to the operator.
pub proof fn lemma_accept_stages_rest(r: ReplacerView, printer: PrinterView)
    requires
        r.decider.standing() == Some(ReplacementDecision::Accept),
        r.next <= r.matches.len(),
    ensures
        r.settle(printer).0.progress == Progress::Finished,
        r.settle(printer).0.staged == r.staged + r.rest_proposed(),
        r.settle(printer).0.next == r.matches.len(),
        r.settle(printer).0.should_quit == r.should_quit,
    decreases r.matches.len() - r.next,
{
    if r.next < r.matches.len() {
        let m = r.matches[r.next as int];
        let proposal = r.proposed(m.line.text);
        let current = ReplacerView { proposal, ..r };
        let step = current.staging(proposal);
        lemma_accept_stages_rest(step, printer.display_match(r.path, m, proposal));
        assert(step.staged + step.rest_proposed() =~= r.staged + r.rest_proposed());
    } else {
        assert(r.staged + r.rest_proposed() =~= r.staged);
    }
}

/// Where the decision to ignore stands, nothing more is staged, and the
/// file is done with, without a question to the operator.
pub proof fn lemma_ignore_stages_nothing(r: ReplacerView, printer: PrinterView)
    requires
        r.decider.standing() == Some(ReplacementDecision::Ignore),
    ensures
        r.settle(printer).0.progress == Progress::Finished,
        r.settle(printer).0.staged == r.staged,
        r.settle(printer).0.should_quit == r.should_quit,
    decreases r.matches.len() - r.next,
{
    if r.next < r.matches.len() {
        let m = r.matches[r.next as int];
        let proposal = r.proposed(m.line.text);
        let current = ReplacerView { proposal, ..r };
        lemma_ignore_stages_nothing(current.skipping(), printer.display_match(r.path, m, proposal));
    }
}

/// When the operator ends the run, whether by the answer `q` or by closing
/// the channel, nothing that was staged for the file is kept, the file is
/// done with, and the replacer says that the run is to stop.
pub proof fn lemma_terminate_drops_staged(
    r: ReplacerView,
    line: Option<Seq<char>>,
    printer: PrinterView,
)
    requires
        r.progress == Progress::AwaitDecision,
        r.decider is WithPrompt,
        r.next < r.matches.len(),
        line is None || line == Some(seq!['q']),
    ensures
        r.respond(line, printer).0.staged.len() == 0,
        r.respond(line, printer).0.should_quit,
        r.respond(line, printer).0.progress == Progress::Finished,
{
}

/// The answer `a` accepts the match in turn and every match after it in
/// the file without a further question; the answer `d` ignores them all.
/// At the next file the operator is asked again.
pub proof fn lemma_rest_of_file(
    r: ReplacerView,
    printer: PrinterView,
    path: Seq<char>,
    matches: Seq<MatchView>,
)
    requires
        r.progress == Progress::AwaitDecision,
        r.decider is WithPrompt,
        r.next < r.matches.len(),
        matches.len() > 0,
    ensures
        r.respond(Some(seq!['a']), printer).0.progress == Progress::Finished,
        r.respond(Some(seq!['a']), printer).0.staged.len() == r.staged.len() + r.matches.len()
            - r.next,
        r.respond(Some(seq!['a']), printer).0.decider.standing() == Some(
            ReplacementDecision::Accept,
        ),
        r.respond(Some(seq!['d']), printer).0.progress == Progress::Finished,
        r.respond(Some(seq!['d']), printer).0.staged == r.staged,
        r.respond(Some(seq!['a']), printer).0.consume_matches(path, matches, printer).0.progress
            == Progress::AwaitDecision,
        r.respond(Some(seq!['d']), printer).0.consume_matches(path, matches, printer).0.progress
            == Progress::AwaitDecision,
{
    let accepting = ReplacerView { decider: r.decider.answered(Some(seq!['a'])), ..r };
    let staged = accepting.staging(accepting.proposal);
    lemma_accept_stages_rest(staged, printer);
    lemma_settle_keeps_policy(staged, printer);
    let ignoring = ReplacerView { decider: r.decider.answered(Some(seq!['d'])), ..r };
    lemma_ignore_stages_nothing(ignoring.skipping(), printer);
    lemma_settle_keeps_policy(ignoring.skipping(), printer);
}

} // verus!
