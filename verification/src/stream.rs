//! What holds of the records that the collector builds, given what holds of
//! the event stream it was fed.

use vstd::prelude::*;
use crate::search::{ascending, collected, CollectorView, LineEventView, LineView, MatchView};

verus! {

/// Line numbers strictly increase along the stream.
pub open spec fn ordered(events: Seq<LineEventView>) -> bool {
    forall|i: int, j: int|
        0 <= i < j < events.len() ==> events[i].line().number < events[j].line().number
}

/// How many before-context lines the stream reports after its last match
/// line (in the whole stream, where it has no match line).
pub open spec fn before_since_match(events: Seq<LineEventView>) -> nat
    decreases events.len(),
{
    if events.len() == 0 {
        0
    } else {
        match events.last() {
            LineEventView::Match(_) => 0,
            LineEventView::ContextBefore(_) => before_since_match(events.drop_last()) + 1,
            LineEventView::ContextAfter(_) => before_since_match(events.drop_last()),
        }
    }
}

/// How many after-context lines the stream reports after its last match
/// line (in the whole stream, where it has no match line).
pub open spec fn after_since_match(events: Seq<LineEventView>) -> nat
    decreases events.len(),
{
    if events.len() == 0 {
        0
    } else {
        match events.last() {
            LineEventView::Match(_) => 0,
            LineEventView::ContextBefore(_) => after_since_match(events.drop_last()),
            LineEventView::ContextAfter(_) => after_since_match(events.drop_last()) + 1,
        }
    }
}

/// The stream respects a context window of `before` lines ahead of a match
/// and `after` lines behind it: at no point has it reported more than
/// `before` before-context lines, or more than `after` after-context lines,
/// since the last match line.
pub open spec fn windowed(events: Seq<LineEventView>, before: nat, after: nat) -> bool {
    forall|n: int|
        0 <= n <= events.len() ==> before_since_match(#[trigger] events.take(n)) <= before
            && after_since_match(events.take(n)) <= after
}

/// The lines of the match events of the stream, in order.
pub open spec fn match_lines(events: Seq<LineEventView>) -> Seq<LineView>
    decreases events.len(),
{
    if events.len() == 0 {
        Seq::empty()
    } else {
        match events.last() {
            LineEventView::Match(line) => match_lines(events.drop_last()).push(line),
            _ => match_lines(events.drop_last()),
        }
    }
}

/// The lines of a sequence of records, record after record, each in file
/// order.
pub open spec fn regions(matches: Seq<MatchView>) -> Seq<LineView>
    decreases matches.len(),
{
    if matches.len() == 0 {
        Seq::empty()
    } else {
        regions(matches.drop_last()) + matches.last().region()
    }
}

/// A match is pending at the end of the stream: the last line that is no
/// after-context line is a match line.
pub open spec fn pending(events: Seq<LineEventView>) -> bool
    decreases events.len(),
{
    if events.len() == 0 {
        false
    } else {
        match events.last() {
            LineEventView::Match(_) => true,
            LineEventView::ContextBefore(_) => false,
            LineEventView::ContextAfter(_) => pending(events.drop_last()),
        }
    }
}

/// The lines of the stream that are kept, in order: all but the
/// after-context lines that arrive while no match is pending.
pub open spec fn kept_lines(events: Seq<LineEventView>) -> Seq<LineView>
    decreases events.len(),
{
    if events.len() == 0 {
        Seq::empty()
    } else {
        let kept = kept_lines(events.drop_last());
        match events.last() {
            LineEventView::ContextAfter(line) => if pending(events.drop_last()) {
                kept.push(line)
            } else {
                kept
            },
            LineEventView::Match(line) => kept.push(line),
            LineEventView::ContextBefore(line) => kept.push(line),
        }
    }
}

/// The before-context lines at the end of the stream that no match follows.
pub open spec fn unclaimed(events: Seq<LineEventView>) -> Seq<LineView> {
    CollectorView::initial().feed_all(events).emit().context_pre
}

/// The matched lines of a sequence of records, in order.
pub open spec fn primary_lines(matches: Seq<MatchView>) -> Seq<LineView> {
    matches.map_values(|m: MatchView| m.line)
}

impl CollectorView {
    /// A match is pending exactly when the collector is not seeking, and
    /// after-context is buffered only while it is being gathered.
    pub open spec fn sound(self) -> bool {
        &&& (self.state is Seeking <==> self.match_line is None)
        &&& (!(self.state is InAfterContext) ==> self.context_post.len() == 0)
    }

    /// The lines buffered for the record under construction, in file order.
    pub open spec fn current(self) -> Seq<LineView> {
        match self.match_line {
            Some(line) => self.context_pre.push(line) + self.context_post,
            None => self.context_pre + self.context_post,
        }
    }

    /// The matched lines taken so far: those of the finished records, then
    /// the pending one.
    pub open spec fn taken(self) -> Seq<LineView> {
        match self.match_line {
            Some(line) => primary_lines(self.matches).push(line),
            None => primary_lines(self.matches),
        }
    }

    spec fn within(self, events: Seq<LineEventView>, before: nat, after: nat) -> bool {
        &&& self.sound()
        &&& (self.match_line is None ==> self.context_pre.len() <= before_since_match(events))
        &&& (self.match_line is Some ==> self.context_pre.len() <= before)
        &&& self.context_post.len() <= after_since_match(events)
        &&& forall|i: int|
            0 <= i < self.matches.len() ==> (#[trigger] self.matches[i]).context_pre.len()
                <= before && self.matches[i].context_post.len() <= after
    }

    spec fn sorted_below(self, hi: int) -> bool {
        &&& self.sound()
        &&& ascending(self.current())
        &&& forall|i: int| 0 <= i < self.current().len() ==> (#[trigger] self.current()[i]).number <= hi
        &&& forall|i: int|
            0 <= i < self.matches.len() ==> (#[trigger] self.matches[i]).well_formed()
        &&& forall|i: int, j: int|
            0 <= i < j < self.matches.len() ==> (#[trigger] self.matches[i]).line.number < (
            #[trigger] self.matches[j]).line.number
        &&& forall|i: int| 0 <= i < self.matches.len() ==> (#[trigger] self.matches[i]).line.number <= hi
        &&& forall|i: int, j: int|
            0 <= i < self.matches.len() && 0 <= j < self.current().len() ==> (
            #[trigger] self.matches[i]).line.number < (#[trigger] self.current()[j]).number
    }
}

/// The number of the last line that the stream reports, or -1 for the empty
/// stream.
spec fn last_number(events: Seq<LineEventView>) -> int {
    if events.len() == 0 {
        -1
    } else {
        events.last().line().number as int
    }
}

proof fn lemma_prefix_windowed(events: Seq<LineEventView>, before: nat, after: nat)
    requires
        windowed(events, before, after),
        events.len() > 0,
    ensures
        windowed(events.drop_last(), before, after),
        before_since_match(events) <= before,
        after_since_match(events) <= after,
        before_since_match(events.drop_last()) <= before,
        after_since_match(events.drop_last()) <= after,
{
    let prev = events.drop_last();
    assert forall|n: int| 0 <= n <= prev.len() implies before_since_match(
        #[trigger] prev.take(n),
    ) <= before && after_since_match(prev.take(n)) <= after by {
        assert(prev.take(n) =~= events.take(n));
    }
    assert(events.take(events.len() as int) =~= events);
    assert(events.take(events.len() - 1) =~= prev);
}

proof fn lemma_emit_current(c: CollectorView)
    requires
        c.match_line is Some,
    ensures
        c.emit().matches.last().region() == c.current(),
        c.emit().matches.last().line == c.match_line->0,
        c.emit().matches.drop_last() == c.matches,
        c.emit().current() == Seq::<LineView>::empty(),
        c.emit().sound(),
{
    assert(c.emit().matches.drop_last() =~= c.matches);
    assert(c.emit().current() =~= Seq::<LineView>::empty());
}

proof fn lemma_within(events: Seq<LineEventView>, before: nat, after: nat)
    requires
        windowed(events, before, after),
    ensures
        CollectorView::initial().feed_all(events).within(events, before, after),
    decreases events.len(),
{
    if events.len() > 0 {
        let prev = events.drop_last();
        lemma_prefix_windowed(events, before, after);
        lemma_within(prev, before, after);
        let c = CollectorView::initial().feed_all(prev);
        let d = c.feed(events.last());
        assert(d == CollectorView::initial().feed_all(events));
        if c.match_line is Some {
            lemma_emit_current(c);
        }
    }
}

proof fn lemma_sorted(events: Seq<LineEventView>)
    requires
        ordered(events),
    ensures
        CollectorView::initial().feed_all(events).sorted_below(last_number(events)),
    decreases events.len(),
{
    if events.len() == 0 {
        assert(CollectorView::initial().current() =~= Seq::<LineView>::empty());
    } else {
        let prev = events.drop_last();
        let e = events.last();
        assert(ordered(prev));
        lemma_sorted(prev);
        let c = CollectorView::initial().feed_all(prev);
        let hi = last_number(prev);
        assert(hi < e.line().number) by {
            if prev.len() > 0 {
                assert(prev.last() == events[events.len() - 2]);
            }
        }
        lemma_feed_sorted(c, e, hi);
    }
}

proof fn lemma_push_sorted(lines: Seq<LineView>, line: LineView, hi: int)
    requires
        ascending(lines),
        forall|i: int| 0 <= i < lines.len() ==> (#[trigger] lines[i]).number <= hi,
        hi < line.number,
    ensures
        ascending(lines.push(line)),
        forall|i: int|
            0 <= i < lines.push(line).len() ==> (#[trigger] lines.push(line)[i]).number
                <= line.number,
{
}

proof fn lemma_feed_sorted(c: CollectorView, e: LineEventView, hi: int)
    requires
        c.sorted_below(hi),
        hi < e.line().number,
    ensures
        c.feed(e).sorted_below(e.line().number as int),
{
    let d = c.feed(e);
    let line = e.line();
    match e {
        LineEventView::Match(_) => {
            if c.match_line is Some {
                lemma_emit_current(c);
                let s = c.emit();
                assert(c.current()[c.context_pre.len() as int] == c.match_line->0);
                assert(d.current() =~= seq![line]);
                assert(d.matches == s.matches);
                assert forall|i: int| 0 <= i < d.matches.len() implies (
                #[trigger] d.matches[i]).well_formed() && d.matches[i].line.number <= hi by {
                    if i < c.matches.len() {
                        assert(d.matches[i] == c.matches[i]);
                    }
                }
                assert forall|i: int, j: int| 0 <= i < j < d.matches.len() implies (
                #[trigger] d.matches[i]).line.number < (#[trigger] d.matches[j]).line.number by {
                    assert(d.matches[i] == c.matches[i]);
                    if j < c.matches.len() {
                        assert(d.matches[j] == c.matches[j]);
                    }
                }
            } else {
                assert(c.context_post.len() == 0);
                assert(c.current() =~= c.context_pre);
                lemma_push_sorted(c.context_pre, line, hi);
                assert(d.current() =~= c.context_pre.push(line));
            }
        },
        LineEventView::ContextBefore(_) => {
            if c.match_line is Some {
                lemma_emit_current(c);
                let s = c.emit();
                assert(c.current()[c.context_pre.len() as int] == c.match_line->0);
                assert(d.current() =~= seq![line]);
                assert(d.matches == s.matches);
                assert forall|i: int| 0 <= i < d.matches.len() implies (
                #[trigger] d.matches[i]).well_formed() && d.matches[i].line.number <= hi by {
                    if i < c.matches.len() {
                        assert(d.matches[i] == c.matches[i]);
                    }
                }
                assert forall|i: int, j: int| 0 <= i < j < d.matches.len() implies (
                #[trigger] d.matches[i]).line.number < (#[trigger] d.matches[j]).line.number by {
                    assert(d.matches[i] == c.matches[i]);
                    if j < c.matches.len() {
                        assert(d.matches[j] == c.matches[j]);
                    }
                }
            } else {
                assert(c.context_post.len() == 0);
                assert(c.current() =~= c.context_pre);
                lemma_push_sorted(c.context_pre, line, hi);
                assert(d.current() =~= c.context_pre.push(line));
            }
        },
        LineEventView::ContextAfter(_) => {
            if c.match_line is Some {
                lemma_push_sorted(c.current(), line, hi);
                assert(d.current() =~= c.current().push(line));
            } else {
                assert(d == c);
            }
        },
    }
}

proof fn lemma_partition(events: Seq<LineEventView>)
    ensures
        CollectorView::initial().feed_all(events).sound(),
        CollectorView::initial().feed_all(events).match_line is Some <==> pending(events),
        regions(CollectorView::initial().feed_all(events).matches) + CollectorView::initial().feed_all(
            events,
        ).current() == kept_lines(events),
    decreases events.len(),
{
    let d = CollectorView::initial().feed_all(events);
    if events.len() == 0 {
        assert(regions(d.matches) + d.current() =~= kept_lines(events));
    } else {
        let prev = events.drop_last();
        let e = events.last();
        lemma_partition(prev);
        let c = CollectorView::initial().feed_all(prev);
        let line = e.line();
        assert(d == c.feed(e));
        if c.match_line is Some {
            lemma_emit_current(c);
            assert(regions(c.emit().matches) == regions(c.matches) + c.current());
        } else {
            assert(c.current() =~= c.context_pre);
        }
        match e {
            LineEventView::Match(_) => {
                if c.match_line is Some {
                    assert(d.current() =~= seq![line]);
                } else {
                    assert(d.current() =~= c.context_pre.push(line));
                }
                assert(regions(d.matches) + d.current() =~= kept_lines(prev).push(line));
            },
            LineEventView::ContextBefore(_) => {
                if c.match_line is Some {
                    assert(d.current() =~= seq![line]);
                } else {
                    assert(d.current() =~= c.context_pre.push(line));
                }
                assert(regions(d.matches) + d.current() =~= kept_lines(prev).push(line));
            },
            LineEventView::ContextAfter(_) => {
                if c.match_line is Some {
                    assert(d.current() =~= c.current().push(line));
                    assert(regions(d.matches) + d.current() =~= kept_lines(prev).push(line));
                } else {
                    assert(d == c);
                }
            },
        }
    }
}

proof fn lemma_kept_sorted(events: Seq<LineEventView>)
    requires
        ordered(events),
    ensures
        ascending(kept_lines(events)),
        forall|i: int|
            0 <= i < kept_lines(events).len() ==> (#[trigger] kept_lines(events)[i]).number
                <= last_number(events),
    decreases events.len(),
{
    if events.len() > 0 {
        let prev = events.drop_last();
        let e = events.last();
        assert(ordered(prev));
        lemma_kept_sorted(prev);
        let hi = last_number(prev);
        assert(hi < e.line().number) by {
            if prev.len() > 0 {
                assert(prev.last() == events[events.len() - 2]);
            }
        }
        lemma_push_sorted(kept_lines(prev), e.line(), hi);
    }
}

/// Every line of the stream that is kept lands in exactly one place, and
/// the order of the stream is kept: the records, one after the other, and
/// behind them the before-context lines that no match follows, are the kept
/// lines of the stream. No line is lost, none stands in two records, and no
/// record holds a line that the stream did not report.
pub proof fn lemma_lines_partitioned(events: Seq<LineEventView>)
    ensures
        regions(collected(events)) + unclaimed(events) == kept_lines(events),
{
    lemma_partition(events);
    let c = CollectorView::initial().feed_all(events);
    if c.match_line is Some {
        lemma_emit_current(c);
        assert(regions(c.emit().matches) == regions(c.matches) + c.current());
        assert(regions(collected(events)) + unclaimed(events) =~= kept_lines(events));
    } else {
        assert(c.current() =~= c.context_pre);
    }
}

/// Where the line numbers of the stream strictly increase, so do the line
/// numbers of the records read one after the other: no line number occurs
/// twice, neither within a record nor in two of them.
pub proof fn lemma_no_line_twice(events: Seq<LineEventView>)
    requires
        ordered(events),
    ensures
        ascending(regions(collected(events))),
{
    lemma_lines_partitioned(events);
    lemma_kept_sorted(events);
    let all = kept_lines(events);
    let head = regions(collected(events));
    assert forall|i: int, j: int| 0 <= i < j < head.len() implies head[i].number
        < head[j].number by {
        assert(head[i] == all[i]);
        assert(head[j] == all[j]);
    }
}

/// A stream that respects a context window yields records that respect it
/// too: the context before a match holds no more lines than the window has
/// ahead of a match, the context after it no more than the window has
/// behind. With a window of `k` lines on both sides, each context holds at
/// most `k` lines.
pub proof fn lemma_context_within_window(events: Seq<LineEventView>, before: nat, after: nat)
    requires
        windowed(events, before, after),
    ensures
        forall|i: int|
            0 <= i < collected(events).len() ==> (#[trigger] collected(events)[i]).context_pre.len()
                <= before && collected(events)[i].context_post.len() <= after,
{
    lemma_within(events, before, after);
    let c = CollectorView::initial().feed_all(events);
    if events.len() > 0 {
        lemma_prefix_windowed(events, before, after);
    }
    if c.match_line is Some {
        lemma_emit_current(c);
        assert forall|i: int| 0 <= i < collected(events).len() implies (
        #[trigger] collected(events)[i]).context_pre.len() <= before
            && collected(events)[i].context_post.len() <= after by {
            if i < c.matches.len() {
                assert(collected(events)[i] == c.matches[i]);
            }
        }
    }
}

/// A stream whose line numbers strictly increase yields well-formed records:
/// in each, the context before the match lies strictly before the matched
/// line and the context after it strictly after, in increasing order. The
/// matched lines of the records strictly increase too, so no two records
/// claim the same line.
pub proof fn lemma_records_ordered(events: Seq<LineEventView>)
    requires
        ordered(events),
    ensures
        forall|i: int|
            0 <= i < collected(events).len() ==> (#[trigger] collected(events)[i]).well_formed(),
        forall|i: int, j: int|
            0 <= i < j < collected(events).len() ==> (#[trigger] collected(events)[i]).line.number
                < (#[trigger] collected(events)[j]).line.number,
{
    lemma_sorted(events);
    let c = CollectorView::initial().feed_all(events);
    let out = collected(events);
    if c.match_line is Some {
        lemma_emit_current(c);
        assert(c.current()[c.context_pre.len() as int] == c.match_line->0);
        assert forall|i: int| 0 <= i < out.len() implies (#[trigger] out[i]).well_formed() by {
            if i < c.matches.len() {
                assert(out[i] == c.matches[i]);
            }
        }
        assert forall|i: int, j: int| 0 <= i < j < out.len() implies (#[trigger] out[i]).line.number
            < (#[trigger] out[j]).line.number by {
            assert(out[i] == c.matches[i]);
            if j < c.matches.len() {
                assert(out[j] == c.matches[j]);
            }
        }
    }
}

/// After any stream the collector holds a pending match exactly when it is
/// not seeking, and buffers after-context only while gathering it.
pub proof fn lemma_collector_sound(events: Seq<LineEventView>)
    ensures
        CollectorView::initial().feed_all(events).sound(),
    decreases events.len(),
{
    if events.len() > 0 {
        lemma_collector_sound(events.drop_last());
    }
}

/// Every match line of the stream becomes the matched line of one record,
/// and the records keep the order of the stream: there are as many records
/// as match events, and the n-th record is built around the n-th match line.
pub proof fn lemma_one_record_per_match(events: Seq<LineEventView>)
    ensures
        primary_lines(collected(events)) == match_lines(events),
{
    lemma_taken(events);
    let c = CollectorView::initial().feed_all(events);
    assert(primary_lines(c.emit().matches) =~= c.taken());
}

/// Every record is built around a line that the stream reported as a
/// match: a bound on the line numbers of the stream bounds the matched
/// lines of the records.
pub proof fn lemma_records_from_stream(events: Seq<LineEventView>, line_count: nat)
    requires
        forall|i: int|
            0 <= i < events.len() ==> 1 <= (#[trigger] events[i]).line().number <= line_count,
    ensures
        forall|i: int|
            0 <= i < collected(events).len() ==> 1 <= (#[trigger] collected(events)[i]).line.number
                <= line_count,
{
    lemma_one_record_per_match(events);
    lemma_match_lines_bounded(events, line_count);
    let out = collected(events);
    assert forall|i: int| 0 <= i < out.len() implies 1 <= (#[trigger] out[i]).line.number
        <= line_count by {
        assert(primary_lines(out)[i] == out[i].line);
        assert(match_lines(events)[i] == out[i].line);
    }
}

proof fn lemma_match_lines_bounded(events: Seq<LineEventView>, line_count: nat)
    requires
        forall|i: int|
            0 <= i < events.len() ==> 1 <= (#[trigger] events[i]).line().number <= line_count,
    ensures
        forall|i: int|
            0 <= i < match_lines(events).len() ==> 1 <= (#[trigger] match_lines(events)[i]).number
                <= line_count,
    decreases events.len(),
{
    if events.len() > 0 {
        let prev = events.drop_last();
        assert forall|i: int| 0 <= i < prev.len() implies 1 <= (#[trigger] prev[i]).line().number
            <= line_count by {
            assert(prev[i] == events[i]);
        }
        lemma_match_lines_bounded(prev, line_count);
        assert(1 <= events[events.len() - 1].line().number <= line_count);
        let all = match_lines(events);
        assert forall|i: int| 0 <= i < all.len() implies 1 <= (#[trigger] all[i]).number
            <= line_count by {
            if i < match_lines(prev).len() {
                assert(all[i] == match_lines(prev)[i]);
            } else {
                assert(all[i] == events.last().line());
            }
        }
    }
}

proof fn lemma_taken(events: Seq<LineEventView>)
    ensures
        CollectorView::initial().feed_all(events).sound(),
        CollectorView::initial().feed_all(events).taken() == match_lines(events),
    decreases events.len(),
{
    if events.len() == 0 {
        assert(CollectorView::initial().taken() =~= Seq::<LineView>::empty());
    } else {
        let prev = events.drop_last();
        lemma_taken(prev);
        let c = CollectorView::initial().feed_all(prev);
        let d = c.feed(events.last());
        assert(primary_lines(c.emit().matches) =~= c.taken());
        match events.last() {
            LineEventView::Match(line) => {
                assert(d.taken() =~= c.taken().push(line));
            },
            LineEventView::ContextBefore(_) => {
                assert(d.taken() =~= c.taken());
            },
            LineEventView::ContextAfter(_) => {
                assert(d.taken() =~= c.taken());
            },
        }
    }
}

} // verus!
