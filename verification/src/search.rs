//! Match records and the collector that builds them from line events.

use vstd::prelude::*;

verus! {

/// One physical line of a file: its number, counted from 1, and its full
/// text, terminator included.
#[derive(Debug)]
pub struct Line(pub u64, pub String);

/// The value of a [`Line`]: its number and the characters of its text.
pub struct LineView {
    pub number: u64,
    pub text: Seq<char>,
}

impl View for Line {
    type V = LineView;

    open spec fn view(&self) -> LineView {
        LineView { number: self.0, text: self.1@ }
    }
}

impl Clone for Line {
    fn clone(&self) -> (out: Line)
        ensures
            out@ == self@,
    {
        Line(self.0, self.1.clone())
    }
}

/// A matched line together with the context lines reported around it.
#[derive(Debug)]
pub struct Match {
    pub line: Line,
    pub context_pre: Vec<Line>,
    pub context_post: Vec<Line>,
}

/// The value of a [`Match`].
pub struct MatchView {
    pub line: LineView,
    pub context_pre: Seq<LineView>,
    pub context_post: Seq<LineView>,
}

/// The values of a sequence of lines, in order.
pub open spec fn view_lines(lines: Seq<Line>) -> Seq<LineView> {
    lines.map_values(|l: Line| l@)
}

/// The values of a sequence of match records, in order.
pub open spec fn view_matches(matches: Seq<Match>) -> Seq<MatchView> {
    matches.map_values(|m: Match| m@)
}

impl View for Match {
    type V = MatchView;

    open spec fn view(&self) -> MatchView {
        MatchView {
            line: self.line@,
            context_pre: view_lines(self.context_pre@),
            context_post: view_lines(self.context_post@),
        }
    }
}

/// Line numbers of `lines` strictly increase.
pub open spec fn ascending(lines: Seq<LineView>) -> bool {
    forall|i: int, j: int| 0 <= i < j < lines.len() ==> lines[i].number < lines[j].number
}

impl MatchView {
    /// The lines of the record in file order: context before, the matched
    /// line, context after.
    pub open spec fn region(self) -> Seq<LineView> {
        self.context_pre.push(self.line) + self.context_post
    }

    /// The context before the match lies strictly before it, the context
    /// after it strictly after, and line numbers strictly increase.
    pub open spec fn well_formed(self) -> bool {
        ascending(self.region())
    }
}

impl Clone for Match {
    fn clone(&self) -> (out: Match)
        ensures
            out@ == self@,
    {
        let out = Match {
            line: self.line.clone(),
            context_pre: clone_lines(&self.context_pre),
            context_post: clone_lines(&self.context_post),
        };
        out
    }
}

/// Copies a list of lines.
pub fn clone_lines(lines: &Vec<Line>) -> (out: Vec<Line>)
    ensures
        view_lines(out@) == view_lines(lines@),
{
    let mut out: Vec<Line> = Vec::new();
    let mut i: usize = 0;
    while i < lines.len()
        invariant
            i <= lines.len(),
            out.len() == i,
            forall|k: int| 0 <= k < i ==> out[k]@ == lines[k]@,
        decreases lines.len() - i,
    {
        out.push(lines[i].clone());
        i += 1;
    }
    assert(view_lines(out@) =~= view_lines(lines@));
    out
}

/// Kind of a reported line.
#[derive(Debug, Clone, Copy)]
pub enum LineKind {
    /// A line shown before a match.
    BeforeContext,
    /// A line that matched.
    Match,
    /// A line shown after a match.
    AfterContext,
}

/// Kind of a context line as the search engine tags it.
#[derive(Debug, Clone, Copy)]
pub enum ContextKind {
    Before,
    After,
    /// A line that belongs to no match; the collector drops it.
    Other,
}

/// One notification of the search engine about a line of the file.
#[derive(Debug)]
pub enum LineEvent {
    Match(Line),
    ContextBefore(Line),
    ContextAfter(Line),
}

/// The value of a [`LineEvent`].
pub enum LineEventView {
    Match(LineView),
    ContextBefore(LineView),
    ContextAfter(LineView),
}

impl LineEventView {
    /// The line that the event reports.
    pub open spec fn line(self) -> LineView {
        match self {
            LineEventView::Match(l) => l,
            LineEventView::ContextBefore(l) => l,
            LineEventView::ContextAfter(l) => l,
        }
    }

    /// The kind of line that the event reports.
    pub open spec fn kind(self) -> LineKind {
        match self {
            LineEventView::Match(_) => LineKind::Match,
            LineEventView::ContextBefore(_) => LineKind::BeforeContext,
            LineEventView::ContextAfter(_) => LineKind::AfterContext,
        }
    }
}

impl View for LineEvent {
    type V = LineEventView;

    open spec fn view(&self) -> LineEventView {
        match self {
            LineEvent::Match(l) => LineEventView::Match(l@),
            LineEvent::ContextBefore(l) => LineEventView::ContextBefore(l@),
            LineEvent::ContextAfter(l) => LineEventView::ContextAfter(l@),
        }
    }
}

/// The values of a sequence of events, in order.
pub open spec fn view_events(events: Seq<LineEvent>) -> Seq<LineEventView> {
    events.map_values(|e: LineEvent| e@)
}

/// Where the collector stands in the event stream.
#[derive(Debug, Clone, Copy, PartialEq, Eq, Structural)]
pub enum MatchState {
    /// No match is pending; context lines seen belong to a match to come.
    Seeking,
    /// A match line was just seen.
    InMatch,
    /// Context after the pending match is being gathered.
    InAfterContext,
}

/// The value of a [`MatchCollector`]: its state, the lines buffered for the
/// record under construction, and the records finished so far.
pub struct CollectorView {
    pub state: MatchState,
    pub context_pre: Seq<LineView>,
    pub context_post: Seq<LineView>,
    pub match_line: Option<LineView>,
    pub matches: Seq<MatchView>,
}

impl CollectorView {
    /// The collector before any event: seeking, with nothing buffered.
    pub open spec fn initial() -> CollectorView {
        CollectorView {
            state: MatchState::Seeking,
            context_pre: Seq::empty(),
            context_post: Seq::empty(),
            match_line: None,
            matches: Seq::empty(),
        }
    }

    /// Finishes the pending record, if there is one: the matched line and
    /// both context buffers move to the output, the buffers are cleared and
    /// the collector seeks again. Without a pending match nothing changes.
    pub open spec fn emit(self) -> CollectorView {
        match self.match_line {
            Some(line) => CollectorView {
                state: MatchState::Seeking,
                context_pre: Seq::empty(),
                context_post: Seq::empty(),
                match_line: None,
                matches: self.matches.push(
                    MatchView {
                        line,
                        context_pre: self.context_pre,
                        context_post: self.context_post,
                    },
                ),
            },
            None => self,
        }
    }

    /// The state change that a line of the given kind causes, with the
    /// emission that goes with it; the line itself is not stored yet.
    pub open spec fn shift(self, input: LineKind) -> CollectorView {
        match (self.state, input) {
            (MatchState::Seeking, LineKind::BeforeContext) => self,
            (MatchState::Seeking, LineKind::Match) => CollectorView {
                state: MatchState::InMatch,
                ..self
            },
            (MatchState::Seeking, LineKind::AfterContext) => self,
            (_, LineKind::BeforeContext) => CollectorView {
                state: MatchState::Seeking,
                ..self.emit()
            },
            (_, LineKind::Match) => CollectorView { state: MatchState::InMatch, ..self.emit() },
            (_, LineKind::AfterContext) => CollectorView {
                state: MatchState::InAfterContext,
                ..self
            },
        }
    }

    /// The collector after a match line.
    pub open spec fn matched(self, line: LineView) -> CollectorView {
        CollectorView { match_line: Some(line), ..self.shift(LineKind::Match) }
    }

    /// The collector after a context line of the given kind. A line after a
    /// match is dropped when no match is pending.
    pub open spec fn context(self, kind: ContextKind, line: LineView) -> CollectorView {
        match kind {
            ContextKind::Before => {
                let next = self.shift(LineKind::BeforeContext);
                CollectorView { context_pre: next.context_pre.push(line), ..next }
            },
            ContextKind::After => {
                let next = self.shift(LineKind::AfterContext);
                match next.state {
                    MatchState::InAfterContext => CollectorView {
                        context_post: next.context_post.push(line),
                        ..next
                    },
                    _ => next,
                }
            },
            ContextKind::Other => self,
        }
    }

    /// The collector after one event.
    pub open spec fn feed(self, event: LineEventView) -> CollectorView {
        match event {
            LineEventView::Match(line) => self.matched(line),
            LineEventView::ContextBefore(line) => self.context(ContextKind::Before, line),
            LineEventView::ContextAfter(line) => self.context(ContextKind::After, line),
        }
    }

    /// The collector after a sequence of events, fed in order.
    pub open spec fn feed_all(self, events: Seq<LineEventView>) -> CollectorView
        decreases events.len(),
    {
        if events.len() == 0 {
            self
        } else {
            self.feed_all(events.drop_last()).feed(events.last())
        }
    }
}

/// The records that one file's event stream yields: every event is fed to a
/// fresh collector, and the record still pending at the end is finished.
pub open spec fn collected(events: Seq<LineEventView>) -> Seq<MatchView> {
    CollectorView::initial().feed_all(events).emit().matches
}

/// Turns the line events of one file into match records.
#[derive(Debug)]
pub struct MatchCollector {
    state: MatchState,
    cur_context_pre: Vec<Line>,
    cur_context_post: Vec<Line>,
    cur_match_line: Option<Line>,
    matches: Vec<Match>,
}

impl View for MatchCollector {
    type V = CollectorView;

    closed spec fn view(&self) -> CollectorView {
        CollectorView {
            state: self.state,
            context_pre: view_lines(self.cur_context_pre@),
            context_post: view_lines(self.cur_context_post@),
            match_line: match self.cur_match_line {
                Some(line) => Some(line@),
                None => None,
            },
            matches: view_matches(self.matches@),
        }
    }
}

impl MatchCollector {
    /// A collector that has seen no event.
    pub fn new() -> (collector: MatchCollector)
        ensures
            collector@ == CollectorView::initial(),
    {
        let collector = MatchCollector {
            state: MatchState::Seeking,
            cur_match_line: None,
            cur_context_pre: Vec::new(),
            cur_context_post: Vec::new(),
            matches: Vec::new(),
        };
        assert(collector@.context_pre =~= Seq::empty());
        assert(collector@.context_post =~= Seq::empty());
        assert(collector@.matches =~= Seq::empty());
        collector
    }

    /// Where the collector stands.
    pub fn state(&self) -> (state: MatchState)
        ensures
            state == self@.state,
    {
        self.state
    }

    /// Finishes the pending record, if there is one.
    pub fn maybe_emit(&mut self)
        ensures
            final(self)@ == old(self)@.emit(),
    {
        let cur_match_line = self.cur_match_line.take();
        if let Some(line) = cur_match_line {
            let mut context_pre: Vec<Line> = Vec::new();
            let mut context_post: Vec<Line> = Vec::new();
            core::mem::swap(&mut context_pre, &mut self.cur_context_pre);
            core::mem::swap(&mut context_post, &mut self.cur_context_post);
            let search_match = Match { line, context_pre, context_post };
            self.matches.push(search_match);
            self.state = MatchState::Seeking;
            assert(self@.context_pre =~= Seq::empty());
            assert(self@.context_post =~= Seq::empty());
            assert(self@.matches =~= old(self)@.emit().matches);
        }
    }

    /// Moves to the state that a line of the given kind leads to, finishing
    /// the pending record where the table of transitions asks for it.
    pub fn transition(&mut self, input: LineKind)
        ensures
            final(self)@ == old(self)@.shift(input),
    {
        match (self.state, input) {
            (MatchState::Seeking, LineKind::BeforeContext) => {},
            (MatchState::Seeking, LineKind::Match) => {
                self.state = MatchState::InMatch;
            },
            (MatchState::Seeking, LineKind::AfterContext) => {},
            (_, LineKind::BeforeContext) => {
                self.maybe_emit();
                self.state = MatchState::Seeking;
            },
            (_, LineKind::Match) => {
                self.maybe_emit();
                self.state = MatchState::InMatch;
            },
            (_, LineKind::AfterContext) => {
                self.state = MatchState::InAfterContext;
            },
        }
    }

    /// Takes a match line: the record pending before it, if any, is
    /// finished, and the line starts a new one.
    pub fn matched(&mut self, line: Line)
        ensures
            final(self)@ == old(self)@.matched(line@),
    {
        self.transition(LineKind::Match);
        self.cur_match_line = Some(line);
    }

    /// Takes a context line of the given kind.
    pub fn context(&mut self, kind: ContextKind, line: Line)
        ensures
            final(self)@ == old(self)@.context(kind, line@),
    {
        match kind {
            ContextKind::Before => {
                self.transition(LineKind::BeforeContext);
                self.cur_context_pre.push(line);
                assert(self@.context_pre =~= old(self)@.shift(LineKind::BeforeContext).context_pre.push(line@));
            },
            ContextKind::After => {
                self.transition(LineKind::AfterContext);
                match self.state {
                    MatchState::InAfterContext => {
                        self.cur_context_post.push(line);
                        assert(self@.context_post =~= old(self)@.shift(LineKind::AfterContext).context_post.push(line@));
                    },
                    _ => {},
                }
            },
            ContextKind::Other => {},
        }
    }

    /// Takes one event.
    pub fn feed(&mut self, event: LineEvent)
        ensures
            final(self)@ == old(self)@.feed(event@),
    {
        match event {
            LineEvent::Match(line) => self.matched(line),
            LineEvent::ContextBefore(line) => self.context(ContextKind::Before, line),
            LineEvent::ContextAfter(line) => self.context(ContextKind::After, line),
        }
    }

    /// Ends the stream: finishes the pending record and hands out all
    /// records, leaving the collector empty and seeking.
    pub fn collect(&mut self) -> (matches: Vec<Match>)
        ensures
            view_matches(matches@) == old(self)@.emit().matches,
            final(self)@ == (CollectorView { matches: Seq::empty(), ..old(self)@.emit() }),
    {
        self.maybe_emit();
        let mut matches: Vec<Match> = Vec::new();
        core::mem::swap(&mut self.matches, &mut matches);
        assert(self@.matches =~= Seq::empty());
        matches
    }
}

/// Collects the match records of one file from its events, given in the
/// order in which the search engine reported them.
pub fn collect_events(events: Vec<LineEvent>) -> (matches: Vec<Match>)
    ensures
        view_matches(matches@) == collected(view_events(events@)),
{
    let ghost all = events@;
    let mut collector = MatchCollector::new();
    proof {
        assert(all.take(0) =~= Seq::empty());
        assert(view_events(all.take(0)) =~= Seq::empty());
    }
    for event in it: events.into_iter()
        invariant
            it.seq() == all,
            collector@ == CollectorView::initial().feed_all(
                view_events(all.take(it.index() as int)),
            ),
    {
        proof {
            let i = it.index() as int;
            let fed = view_events(all.take(i + 1));
            assert(fed.drop_last() =~= view_events(all.take(i)));
            assert(fed.last() == event@);
        }
        collector.feed(event);
    }
    proof {
        assert(all.take(all.len() as int) =~= all);
    }
    collector.collect()
}

} // verus!
