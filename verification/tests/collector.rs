use fnr::search::{
    collect_events, ContextKind, Line, LineEvent, LineKind, Match, MatchCollector, MatchState,
};

fn line(number: u64) -> Line {
    Line(number, format!("line {}\n", number))
}

fn numbers(lines: &[Line]) -> Vec<u64> {
    lines.iter().map(|l| l.0).collect()
}

fn shape(m: &Match) -> (Vec<u64>, u64, Vec<u64>) {
    (numbers(&m.context_pre), m.line.0, numbers(&m.context_post))
}

#[test]
fn two_matches_with_one_line_of_context() {
    let events = vec![
        LineEvent::ContextBefore(line(2)),
        LineEvent::Match(line(3)),
        LineEvent::ContextAfter(line(4)),
        LineEvent::ContextBefore(line(7)),
        LineEvent::Match(line(8)),
        LineEvent::ContextAfter(line(9)),
    ];
    let matches = collect_events(events);
    assert_eq!(matches.len(), 2);
    assert_eq!(shape(&matches[0]), (vec![2], 3, vec![4]));
    assert_eq!(shape(&matches[1]), (vec![7], 8, vec![9]));
    assert_eq!(matches[0].line.1, "line 3\n");
    assert_eq!(matches[0].context_pre[0].1, "line 2\n");
    assert_eq!(matches[1].context_post[0].1, "line 9\n");
}

#[test]
fn adjacent_matches_are_separate_records() {
    let events = vec![
        LineEvent::ContextBefore(line(3)),
        LineEvent::ContextBefore(line(4)),
        LineEvent::Match(line(5)),
        LineEvent::Match(line(6)),
        LineEvent::ContextAfter(line(7)),
        LineEvent::ContextAfter(line(8)),
    ];
    let matches = collect_events(events);
    assert_eq!(matches.len(), 2);
    assert_eq!(shape(&matches[0]), (vec![3, 4], 5, vec![]));
    assert_eq!(shape(&matches[1]), (vec![], 6, vec![7, 8]));
}

#[test]
fn three_adjacent_matches_lose_none() {
    let events = vec![
        LineEvent::Match(line(5)),
        LineEvent::Match(line(6)),
        LineEvent::Match(line(7)),
    ];
    let matches = collect_events(events);
    assert_eq!(matches.len(), 3);
    assert_eq!(shape(&matches[0]), (vec![], 5, vec![]));
    assert_eq!(shape(&matches[1]), (vec![], 6, vec![]));
    assert_eq!(shape(&matches[2]), (vec![], 7, vec![]));
}

#[test]
fn match_after_adjacent_matches_keeps_the_pending_one() {
    let events = vec![
        LineEvent::Match(line(5)),
        LineEvent::Match(line(6)),
        LineEvent::ContextBefore(line(9)),
        LineEvent::ContextBefore(line(10)),
        LineEvent::Match(line(11)),
    ];
    let matches = collect_events(events);
    assert_eq!(matches.len(), 3);
    assert_eq!(shape(&matches[0]), (vec![], 5, vec![]));
    assert_eq!(shape(&matches[1]), (vec![], 6, vec![]));
    assert_eq!(shape(&matches[2]), (vec![9, 10], 11, vec![]));
}

#[test]
fn post_context_is_cut_where_the_next_context_begins() {
    let events = vec![
        LineEvent::Match(line(1)),
        LineEvent::ContextAfter(line(2)),
        LineEvent::ContextBefore(line(3)),
        LineEvent::Match(line(4)),
    ];
    let matches = collect_events(events);
    assert_eq!(matches.len(), 2);
    assert_eq!(shape(&matches[0]), (vec![], 1, vec![2]));
    assert_eq!(shape(&matches[1]), (vec![3], 4, vec![]));
}

#[test]
fn no_events_no_records() {
    assert_eq!(collect_events(Vec::new()).len(), 0);
}

#[test]
fn context_without_a_match_gives_no_record() {
    let events = vec![LineEvent::ContextBefore(line(1)), LineEvent::ContextBefore(line(2))];
    assert_eq!(collect_events(events).len(), 0);
}

#[test]
fn after_context_without_a_pending_match_is_dropped() {
    let events = vec![
        LineEvent::ContextAfter(line(1)),
        LineEvent::ContextBefore(line(2)),
        LineEvent::ContextAfter(line(3)),
        LineEvent::Match(line(4)),
        LineEvent::ContextAfter(line(5)),
    ];
    let matches = collect_events(events);
    assert_eq!(matches.len(), 1);
    assert_eq!(shape(&matches[0]), (vec![2], 4, vec![5]));
}

#[test]
fn a_new_collector_seeks() {
    let mut collector = MatchCollector::new();
    assert_eq!(collector.state(), MatchState::Seeking);
    assert_eq!(collector.collect().len(), 0);
}

#[test]
fn transitions_from_seeking() {
    let mut collector = MatchCollector::new();
    collector.context(ContextKind::Before, line(1));
    assert_eq!(collector.state(), MatchState::Seeking);
    collector.context(ContextKind::After, line(2));
    assert_eq!(collector.state(), MatchState::Seeking);
    collector.matched(line(3));
    assert_eq!(collector.state(), MatchState::InMatch);
    let matches = collector.collect();
    assert_eq!(matches.len(), 1);
    assert_eq!(shape(&matches[0]), (vec![1], 3, vec![]));
}

#[test]
fn transitions_from_in_match() {
    let mut collector = MatchCollector::new();
    collector.matched(line(1));
    collector.matched(line(2));
    assert_eq!(collector.state(), MatchState::InMatch);
    collector.context(ContextKind::After, line(3));
    assert_eq!(collector.state(), MatchState::InAfterContext);

    let mut collector = MatchCollector::new();
    collector.matched(line(1));
    collector.context(ContextKind::Before, line(2));
    assert_eq!(collector.state(), MatchState::Seeking);
    let matches = collector.collect();
    assert_eq!(matches.len(), 1);
    assert_eq!(shape(&matches[0]), (vec![], 1, vec![]));
}

#[test]
fn transitions_from_in_after_context() {
    let mut collector = MatchCollector::new();
    collector.matched(line(1));
    collector.context(ContextKind::After, line(2));
    collector.context(ContextKind::After, line(3));
    assert_eq!(collector.state(), MatchState::InAfterContext);
    collector.matched(line(4));
    assert_eq!(collector.state(), MatchState::InMatch);
    collector.context(ContextKind::After, line(5));
    collector.context(ContextKind::Before, line(6));
    assert_eq!(collector.state(), MatchState::Seeking);
    let matches = collector.collect();
    assert_eq!(matches.len(), 2);
    assert_eq!(shape(&matches[0]), (vec![], 1, vec![2, 3]));
    assert_eq!(shape(&matches[1]), (vec![], 4, vec![5]));
}

#[test]
fn transition_alone_stores_no_line() {
    let mut collector = MatchCollector::new();
    collector.transition(LineKind::Match);
    assert_eq!(collector.state(), MatchState::InMatch);
    collector.transition(LineKind::AfterContext);
    assert_eq!(collector.state(), MatchState::InAfterContext);
    collector.transition(LineKind::BeforeContext);
    assert_eq!(collector.state(), MatchState::Seeking);
    assert_eq!(collector.collect().len(), 0);
}

#[test]
fn maybe_emit_without_a_pending_match_changes_nothing() {
    let mut collector = MatchCollector::new();
    collector.context(ContextKind::Before, line(1));
    collector.maybe_emit();
    collector.matched(line(2));
    collector.maybe_emit();
    assert_eq!(collector.state(), MatchState::Seeking);
    collector.maybe_emit();
    let matches = collector.collect();
    assert_eq!(matches.len(), 1);
    assert_eq!(shape(&matches[0]), (vec![1], 2, vec![]));
}

#[test]
fn lines_of_other_kind_are_dropped() {
    let mut collector = MatchCollector::new();
    collector.matched(line(1));
    collector.context(ContextKind::Other, line(2));
    assert_eq!(collector.state(), MatchState::InMatch);
    collector.context(ContextKind::After, line(3));
    let matches = collector.collect();
    assert_eq!(matches.len(), 1);
    assert_eq!(shape(&matches[0]), (vec![], 1, vec![3]));
}

#[test]
fn collect_empties_the_collector() {
    let mut collector = MatchCollector::new();
    collector.feed(LineEvent::Match(line(1)));
    assert_eq!(collector.collect().len(), 1);
    assert_eq!(collector.state(), MatchState::Seeking);
    assert_eq!(collector.collect().len(), 0);
    collector.feed(LineEvent::ContextBefore(line(4)));
    collector.feed(LineEvent::Match(line(5)));
    let matches = collector.collect();
    assert_eq!(matches.len(), 1);
    assert_eq!(shape(&matches[0]), (vec![4], 5, vec![]));
}

#[test]
fn contexts_stay_within_the_window_and_bracket_the_match() {
    // Matches on lines 4, 9 and 10 of a file of 14 lines, window of 2.
    let events = vec![
        LineEvent::ContextBefore(line(2)),
        LineEvent::ContextBefore(line(3)),
        LineEvent::Match(line(4)),
        LineEvent::ContextAfter(line(5)),
        LineEvent::ContextAfter(line(6)),
        LineEvent::ContextBefore(line(7)),
        LineEvent::ContextBefore(line(8)),
        LineEvent::Match(line(9)),
        LineEvent::Match(line(10)),
        LineEvent::ContextAfter(line(11)),
        LineEvent::ContextAfter(line(12)),
    ];
    let matches = collect_events(events);
    assert_eq!(matches.len(), 3);
    let mut last_primary = 0;
    for m in &matches {
        assert!(m.context_pre.len() <= 2);
        assert!(m.context_post.len() <= 2);
        let mut previous = 0;
        for l in &m.context_pre {
            assert!(l.0 > previous && l.0 < m.line.0);
            previous = l.0;
        }
        previous = m.line.0;
        for l in &m.context_post {
            assert!(l.0 > previous);
            previous = l.0;
        }
        assert!(m.line.0 > last_primary);
        last_primary = m.line.0;
    }
    assert_eq!(shape(&matches[1]), (vec![7, 8], 9, vec![]));
    assert_eq!(shape(&matches[2]), (vec![], 10, vec![11, 12]));
}

#[test]
fn cloning_keeps_a_record() {
    let m = Match {
        line: Line(7, "seven\n".to_string()),
        context_pre: vec![Line(6, "six\n".to_string())],
        context_post: vec![Line(8, "eight\n".to_string()), Line(9, "nine".to_string())],
    };
    let copy = m.clone();
    assert_eq!(shape(&copy), (vec![6], 7, vec![8, 9]));
    assert_eq!(copy.line.1, "seven\n");
    assert_eq!(copy.context_post[1].1, "nine");
    let copied = fnr::search::clone_lines(&m.context_post);
    assert_eq!(numbers(&copied), vec![8, 9]);
}
