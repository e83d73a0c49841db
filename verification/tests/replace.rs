use std::sync::Arc;

use fnr::printer::{MatchPrintMode, MatchPrinter, MatchPrinterBuilder, Span};
use fnr::replace::{
    parse_response, DecisionScope, Progress, ReplacementDecider, ReplacementDecision, Replacer,
    ReplacerFactory, Response, DECISION_PROMPT, EDITED_NOTICE, EDIT_PROMPT, EXITING_NOTICE,
    HELP_NOTICE, SKIPPED_NOTICE,
};
use fnr::search::{Line, Match};
use grep::regex::RegexMatcher;

fn replacer(pattern: &str, template: &str, decider: ReplacementDecider) -> Replacer {
    let matcher = RegexMatcher::new(pattern).unwrap();
    ReplacerFactory::new(Arc::new(matcher), Arc::new(template.to_string()), decider).build()
}

fn printer(print_mode: MatchPrintMode) -> MatchPrinter {
    MatchPrinterBuilder { print_mode, writes_enabled: true }.build()
}

fn found(lines: &[(u64, &str)]) -> Vec<Match> {
    lines
        .iter()
        .map(|(number, text)| Match {
            line: Line(*number, text.to_string()),
            context_pre: Vec::new(),
            context_post: Vec::new(),
        })
        .collect()
}

fn texts(spans: Vec<Span>) -> Vec<String> {
    spans
        .into_iter()
        .map(|span| match span {
            Span::Underline => "<underline>".to_string(),
            Span::Text(text) => text,
        })
        .collect()
}

fn staged(replacer: &mut Replacer) -> Vec<(u64, String)> {
    replacer.take_staged().into_iter().map(|r| (r.search_match.line.0, r.replacement)).collect()
}

#[test]
fn answers_are_single_letters() {
    assert_eq!(parse_response("y"), Response::Accept);
    assert_eq!(parse_response("n"), Response::Ignore);
    assert_eq!(parse_response("q"), Response::Terminate);
    assert_eq!(parse_response("a"), Response::AcceptRest);
    assert_eq!(parse_response("d"), Response::IgnoreRest);
    assert_eq!(parse_response("e"), Response::Edit);
    assert_eq!(parse_response("?"), Response::Help);
    assert_eq!(parse_response(""), Response::Help);
    assert_eq!(parse_response("Y"), Response::Help);
    assert_eq!(parse_response("yes"), Response::Help);
    assert_eq!(parse_response(" y"), Response::Help);
    assert_eq!(parse_response("é"), Response::Help);
}

#[test]
fn fixed_policy_decides_without_asking() {
    for decision in [
        ReplacementDecision::Accept,
        ReplacementDecision::Ignore,
        ReplacementDecision::Edit,
        ReplacementDecision::Terminate,
    ] {
        let mut decider = ReplacementDecider::constantly(decision);
        assert_eq!(decider.decide(), Some(decision));
        assert_eq!(decider.answer(Some("n")), Some(decision));
        decider.reset();
        assert_eq!(decider.decide(), Some(decision));
    }
}

#[test]
fn operator_is_asked_until_the_scope_is_set() {
    let mut decider = ReplacementDecider::with_prompt();
    assert_eq!(decider.decide(), None);
    assert_eq!(decider.answer(Some("y")), Some(ReplacementDecision::Accept));
    assert_eq!(decider.decide(), None);
    assert_eq!(decider.answer(Some("n")), Some(ReplacementDecision::Ignore));
    assert_eq!(decider.decide(), None);
    assert_eq!(decider.answer(Some("e")), Some(ReplacementDecision::Edit));
    assert_eq!(decider.decide(), None);
    assert_eq!(decider.answer(Some("?")), None);
    assert_eq!(decider.answer(Some("what")), None);
    assert_eq!(decider.decide(), None);
    assert_eq!(decider.answer(Some("q")), Some(ReplacementDecision::Terminate));
    assert_eq!(decider.decide(), None);
}

#[test]
fn accept_remaining_holds_until_the_next_file() {
    let mut decider = ReplacementDecider::with_prompt();
    assert_eq!(decider.answer(Some("a")), Some(ReplacementDecision::Accept));
    assert_eq!(decider.decide(), Some(ReplacementDecision::Accept));
    assert_eq!(decider.decide(), Some(ReplacementDecision::Accept));
    decider.reset();
    assert_eq!(decider.decide(), None);
}

#[test]
fn ignore_remaining_holds_until_the_next_file() {
    let mut decider = ReplacementDecider::with_prompt();
    assert_eq!(decider.answer(Some("d")), Some(ReplacementDecision::Ignore));
    assert_eq!(decider.decide(), Some(ReplacementDecision::Ignore));
    decider.reset();
    assert_eq!(decider.decide(), None);
}

#[test]
fn closed_channel_ends_the_run() {
    let mut decider = ReplacementDecider::with_prompt();
    assert_eq!(decider.answer(None), Some(ReplacementDecision::Terminate));
    assert_eq!(decider.decide(), None);
}

#[test]
fn one_exchange_sets_the_scope() {
    let mut scope = DecisionScope::Unset;
    assert_eq!(
        ReplacementDecider::prompt_for_decision(&mut scope, Some("y")),
        Some(ReplacementDecision::Accept)
    );
    assert_eq!(scope, DecisionScope::Unset);
    assert_eq!(
        ReplacementDecider::prompt_for_decision(&mut scope, Some("a")),
        Some(ReplacementDecision::Accept)
    );
    assert_eq!(scope, DecisionScope::ForceAccept);
    assert_eq!(
        ReplacementDecider::prompt_for_decision(&mut scope, Some("d")),
        Some(ReplacementDecision::Ignore)
    );
    assert_eq!(scope, DecisionScope::ForceIgnore);
    assert_eq!(ReplacementDecider::prompt_for_decision(&mut scope, Some("x")), None);
    assert_eq!(scope, DecisionScope::ForceIgnore);
    assert_eq!(
        ReplacementDecider::prompt_for_decision(&mut scope, None),
        Some(ReplacementDecision::Terminate)
    );
    assert_eq!(scope, DecisionScope::ForceIgnore);
}

#[test]
fn template_refers_to_capture_groups() {
    let r = replacer("(foo)bar", "${1}baz", ReplacementDecider::with_prompt());
    assert_eq!(r.replace_with_captures("foobar"), "foobaz");
    let r = replacer("(foo)bar", "$1 baz", ReplacementDecider::with_prompt());
    assert_eq!(r.replace_with_captures("foobar"), "foo baz");
    let r = replacer("(?P<head>foo)bar", "$head-baz", ReplacementDecider::with_prompt());
    assert_eq!(r.replace_with_captures("foobar"), "foo-baz");
}

#[test]
fn a_reference_takes_the_longest_name() {
    // The engine reads `$1baz` as the group named `1baz`, which the pattern
    // does not have, and fills in nothing for it.
    let r = replacer("(foo)bar", "$1baz", ReplacementDecider::with_prompt());
    assert_eq!(r.replace_with_captures("foobar"), "");
    assert_eq!(r.replace_with_captures("a foobar b\n"), "a  b\n");
}

#[test]
fn every_match_in_a_line_is_replaced() {
    let r = replacer("(a)(b)", "${2}$1", ReplacementDecider::with_prompt());
    assert_eq!(r.replace_with_captures("ab-ab cd\n"), "ba-ba cd\n");
    assert_eq!(r.replace_with_captures("nothing here\n"), "nothing here\n");
    let r = replacer("x", "$$", ReplacementDecider::with_prompt());
    assert_eq!(r.replace_with_captures("axb"), "a$b");
}

#[test]
fn write_all_stages_every_match() {
    let mut r = replacer(
        "(foo)bar",
        "${1}baz",
        ReplacementDecider::constantly(ReplacementDecision::Accept),
    );
    let mut p = printer(MatchPrintMode::Compact);
    r.consume_matches("f.txt", found(&[(2, "foobar\n"), (5, "a foobar b\n")]), &mut p);
    assert_eq!(r.progress(), Progress::Finished);
    assert!(!r.should_quit());
    assert_eq!(
        staged(&mut r),
        vec![(2, "foobaz\n".to_string()), (5, "a foobaz b\n".to_string())]
    );
    assert_eq!(
        texts(p.take_output()),
        vec![
            "\x1B[31mf.txt:2-foobar\n\x1B[0m\x1B[32mf.txt:2+foobaz\n\x1B[0m",
            "\x1B[31mf.txt:5-a foobar b\n\x1B[0m\x1B[32mf.txt:5+a foobaz b\n\x1B[0m",
        ]
    );
    assert!(staged(&mut r).is_empty());
}

#[test]
fn dry_run_stages_nothing_and_shows_everything() {
    let mut r =
        replacer("foo", "bar", ReplacementDecider::constantly(ReplacementDecision::Ignore));
    let mut p = printer(MatchPrintMode::Full);
    r.consume_matches("f.txt", found(&[(1, "foo\n"), (2, "foo foo\n")]), &mut p);
    assert_eq!(r.progress(), Progress::Finished);
    assert!(!r.should_quit());
    assert!(staged(&mut r).is_empty());
    assert_eq!(
        texts(p.take_output()),
        vec![
            "<underline>",
            "f.txt\x1B[0m 2 matches\n",
            "\x1B[31m-   1 foo\n\x1B[0m\x1B[32m+   1 bar\n\x1B[0m",
            "\x1B[31m-   2 foo foo\n\x1B[0m\x1B[32m+   2 bar bar\n\x1B[0m",
        ]
    );
}

#[test]
fn a_file_without_matches_is_a_no_op() {
    let mut r =
        replacer("foo", "bar", ReplacementDecider::constantly(ReplacementDecision::Accept));
    let mut p = printer(MatchPrintMode::Full);
    r.consume_matches("f.txt", Vec::new(), &mut p);
    assert_eq!(r.progress(), Progress::Finished);
    assert!(staged(&mut r).is_empty());
    assert!(p.take_output().is_empty());
}

#[test]
fn accept_remaining_stops_the_questions_for_one_file() {
    let mut r = replacer("foo", "bar", ReplacementDecider::with_prompt());
    let mut p = printer(MatchPrintMode::Silent);
    r.consume_matches("one.txt", found(&[(1, "foo 1\n"), (2, "foo 2\n"), (3, "foo 3\n")]), &mut p);
    assert_eq!(r.progress(), Progress::AwaitDecision);
    r.respond(Some("a"), &mut p);
    assert_eq!(r.progress(), Progress::Finished);
    assert_eq!(
        staged(&mut r),
        vec![(1, "bar 1\n".to_string()), (2, "bar 2\n".to_string()), (3, "bar 3\n".to_string())]
    );
    r.consume_matches("two.txt", found(&[(7, "foo 7\n")]), &mut p);
    assert_eq!(r.progress(), Progress::AwaitDecision);
    r.respond(Some("n"), &mut p);
    assert_eq!(r.progress(), Progress::Finished);
    assert!(staged(&mut r).is_empty());
}

#[test]
fn accept_remaining_keeps_earlier_decisions() {
    let mut r = replacer("foo", "bar", ReplacementDecider::with_prompt());
    let mut p = printer(MatchPrintMode::Silent);
    r.consume_matches(
        "one.txt",
        found(&[(1, "foo 1\n"), (2, "foo 2\n"), (3, "foo 3\n"), (4, "foo 4\n")]),
        &mut p,
    );
    r.respond(Some("n"), &mut p);
    assert_eq!(r.progress(), Progress::AwaitDecision);
    r.respond(Some("y"), &mut p);
    assert_eq!(r.progress(), Progress::AwaitDecision);
    r.respond(Some("a"), &mut p);
    assert_eq!(r.progress(), Progress::Finished);
    assert_eq!(
        staged(&mut r),
        vec![(2, "bar 2\n".to_string()), (3, "bar 3\n".to_string()), (4, "bar 4\n".to_string())]
    );
}

#[test]
fn ignore_remaining_stages_only_what_was_accepted_before() {
    let mut r = replacer("foo", "bar", ReplacementDecider::with_prompt());
    let mut p = printer(MatchPrintMode::Silent);
    r.consume_matches("one.txt", found(&[(1, "foo 1\n"), (2, "foo 2\n"), (3, "foo 3\n")]), &mut p);
    r.respond(Some("y"), &mut p);
    r.respond(Some("d"), &mut p);
    assert_eq!(r.progress(), Progress::Finished);
    assert!(!r.should_quit());
    assert_eq!(staged(&mut r), vec![(1, "bar 1\n".to_string())]);
}

#[test]
fn terminate_discards_what_was_staged() {
    let mut r = replacer("foo", "bar", ReplacementDecider::with_prompt());
    let mut p = printer(MatchPrintMode::Silent);
    r.consume_matches("one.txt", found(&[(1, "foo 1\n"), (2, "foo 2\n"), (3, "foo 3\n")]), &mut p);
    r.respond(Some("y"), &mut p);
    assert!(p.take_output().is_empty());
    r.respond(Some("q"), &mut p);
    assert_eq!(r.progress(), Progress::Finished);
    assert!(r.should_quit());
    assert!(staged(&mut r).is_empty());
    assert_eq!(texts(p.take_output()), vec![EXITING_NOTICE]);
}

#[test]
fn closed_channel_discards_what_was_staged() {
    let mut r = replacer("foo", "bar", ReplacementDecider::with_prompt());
    let mut p = printer(MatchPrintMode::Silent);
    r.consume_matches("one.txt", found(&[(1, "foo 1\n"), (2, "foo 2\n")]), &mut p);
    r.respond(Some("y"), &mut p);
    r.respond(None, &mut p);
    assert_eq!(r.progress(), Progress::Finished);
    assert!(r.should_quit());
    assert!(staged(&mut r).is_empty());
}

#[test]
fn fixed_terminate_stops_at_the_first_match() {
    let mut r =
        replacer("foo", "bar", ReplacementDecider::constantly(ReplacementDecision::Terminate));
    let mut p = printer(MatchPrintMode::Compact);
    r.consume_matches("one.txt", found(&[(1, "foo 1\n"), (2, "foo 2\n")]), &mut p);
    assert_eq!(r.progress(), Progress::Finished);
    assert!(r.should_quit());
    assert!(staged(&mut r).is_empty());
    assert_eq!(
        texts(p.take_output()),
        vec!["\x1B[31mone.txt:1-foo 1\n\x1B[0m\x1B[32mone.txt:1+bar 1\n\x1B[0m", "exiting!\n"]
    );
}

#[test]
fn unknown_answer_shows_the_help_and_asks_again() {
    let mut r = replacer("foo", "bar", ReplacementDecider::with_prompt());
    let mut p = printer(MatchPrintMode::Silent);
    r.consume_matches("one.txt", found(&[(1, "foo 1\n")]), &mut p);
    r.respond(Some("?"), &mut p);
    assert_eq!(r.progress(), Progress::AwaitDecision);
    assert_eq!(texts(p.take_output()), vec![HELP_NOTICE]);
    r.respond(Some("maybe"), &mut p);
    assert_eq!(r.progress(), Progress::AwaitDecision);
    assert_eq!(texts(p.take_output()), vec![HELP_NOTICE]);
    r.respond(Some("y"), &mut p);
    assert_eq!(r.progress(), Progress::Finished);
    assert_eq!(staged(&mut r), vec![(1, "bar 1\n".to_string())]);
}

#[test]
fn edited_text_is_staged_with_a_terminator() {
    let mut r = replacer("foo", "bar", ReplacementDecider::with_prompt());
    let mut p = printer(MatchPrintMode::Compact);
    r.consume_matches("one.txt", found(&[(4, "foo 4\n"), (9, "foo 9\n")]), &mut p);
    p.take_output();
    r.respond(Some("e"), &mut p);
    assert_eq!(r.progress(), Progress::AwaitEdit);
    assert!(p.take_output().is_empty());
    r.respond(Some("by hand"), &mut p);
    assert_eq!(r.progress(), Progress::AwaitDecision);
    assert_eq!(
        texts(p.take_output()),
        vec![
            "\x1B[31mone.txt:4-foo 4\n\x1B[0m\x1B[32mone.txt:4+by hand\n\x1B[0m",
            EDITED_NOTICE,
            "\x1B[31mone.txt:9-foo 9\n\x1B[0m\x1B[32mone.txt:9+bar 9\n\x1B[0m",
        ]
    );
    r.respond(Some("y"), &mut p);
    assert_eq!(r.progress(), Progress::Finished);
    assert_eq!(staged(&mut r), vec![(4, "by hand\n".to_string()), (9, "bar 9\n".to_string())]);
}

#[test]
fn empty_edit_skips_the_match() {
    let mut r = replacer("foo", "bar", ReplacementDecider::with_prompt());
    let mut p = printer(MatchPrintMode::Silent);
    r.consume_matches("one.txt", found(&[(4, "foo 4\n"), (9, "foo 9\n")]), &mut p);
    r.respond(Some("e"), &mut p);
    r.respond(Some(""), &mut p);
    assert_eq!(r.progress(), Progress::AwaitDecision);
    assert_eq!(texts(p.take_output()), vec![SKIPPED_NOTICE]);
    r.respond(Some("y"), &mut p);
    assert_eq!(staged(&mut r), vec![(9, "bar 9\n".to_string())]);
}

#[test]
fn closed_channel_during_an_edit_ends_the_run() {
    let mut r = replacer("foo", "bar", ReplacementDecider::with_prompt());
    let mut p = printer(MatchPrintMode::Silent);
    r.consume_matches("one.txt", found(&[(4, "foo 4\n"), (9, "foo 9\n")]), &mut p);
    r.respond(Some("y"), &mut p);
    r.respond(Some("e"), &mut p);
    r.respond(None, &mut p);
    assert_eq!(r.progress(), Progress::Finished);
    assert!(r.should_quit());
    assert!(staged(&mut r).is_empty());
}

#[test]
fn fixed_edit_asks_for_every_text() {
    let mut r = replacer("foo", "bar", ReplacementDecider::constantly(ReplacementDecision::Edit));
    let mut p = printer(MatchPrintMode::Silent);
    r.consume_matches("one.txt", found(&[(4, "foo 4\n"), (9, "foo 9\n")]), &mut p);
    assert_eq!(r.progress(), Progress::AwaitEdit);
    r.respond(Some("first"), &mut p);
    assert_eq!(r.progress(), Progress::AwaitEdit);
    r.respond(Some("second"), &mut p);
    assert_eq!(r.progress(), Progress::Finished);
    assert_eq!(staged(&mut r), vec![(4, "first\n".to_string()), (9, "second\n".to_string())]);
}

#[test]
fn answers_to_a_finished_replacer_change_nothing() {
    let mut r =
        replacer("foo", "bar", ReplacementDecider::constantly(ReplacementDecision::Accept));
    let mut p = printer(MatchPrintMode::Silent);
    r.consume_matches("one.txt", found(&[(4, "foo 4\n")]), &mut p);
    r.respond(Some("q"), &mut p);
    assert_eq!(r.progress(), Progress::Finished);
    assert!(!r.should_quit());
    assert_eq!(staged(&mut r), vec![(4, "bar 4\n".to_string())]);
    assert!(p.take_output().is_empty());
}

#[test]
fn steps_of_a_walk_can_be_taken_one_by_one() {
    let mut r = replacer("foo", "bar", ReplacementDecider::with_prompt());
    let mut p = printer(MatchPrintMode::Silent);
    r.consume_matches("one.txt", found(&[(1, "foo 1\n"), (2, "foo 2\n"), (3, "foo 3\n")]), &mut p);
    r.resolve(ReplacementDecision::Ignore, &mut p);
    assert_eq!(r.progress(), Progress::AwaitDecision);
    r.resolve(ReplacementDecision::Edit, &mut p);
    assert_eq!(r.progress(), Progress::AwaitEdit);
    r.edited(Some("two"), &mut p);
    assert_eq!(r.progress(), Progress::AwaitDecision);
    r.resolve(ReplacementDecision::Accept, &mut p);
    assert_eq!(r.progress(), Progress::Finished);
    r.settle(&mut p);
    assert_eq!(r.progress(), Progress::Finished);
    assert_eq!(staged(&mut r), vec![(2, "two\n".to_string()), (3, "bar 3\n".to_string())]);
}

#[test]
fn staged_replacements_keep_their_match() {
    let mut r =
        replacer("foo", "bar", ReplacementDecider::constantly(ReplacementDecision::Accept));
    let mut p = printer(MatchPrintMode::Silent);
    let m = Match {
        line: Line(3, "foo\n".to_string()),
        context_pre: vec![Line(2, "before\n".to_string())],
        context_post: vec![Line(4, "after\n".to_string())],
    };
    r.consume_matches("one.txt", vec![m], &mut p);
    let list = r.take_staged();
    assert_eq!(list.len(), 1);
    assert_eq!(list[0].replacement, "bar\n");
    assert_eq!(list[0].search_match.line.1, "foo\n");
    assert_eq!(list[0].search_match.context_pre[0].0, 2);
    assert_eq!(list[0].search_match.context_post[0].1, "after\n");
}

#[test]
fn a_given_text_can_be_staged() {
    let mut r = replacer("foo", "bar", ReplacementDecider::with_prompt());
    let mut p = printer(MatchPrintMode::Silent);
    r.consume_matches("one.txt", found(&[(1, "foo 1\n"), (2, "foo 2\n")]), &mut p);
    r.stage("first\n".to_string());
    r.stage("second\n".to_string());
    r.stage("third\n".to_string());
    assert_eq!(staged(&mut r), vec![(1, "first\n".to_string()), (2, "second\n".to_string())]);
}

#[test]
fn replacers_of_one_factory_share_pattern_and_template() {
    let matcher = RegexMatcher::new("(a+)").unwrap();
    let factory = ReplacerFactory::new(
        Arc::new(matcher),
        Arc::new("<$1>".to_string()),
        ReplacementDecider::constantly(ReplacementDecision::Accept),
    );
    let first = factory.build();
    let mut second = factory.build();
    assert_eq!(first.replace_with_captures("caab"), "c<aa>b");
    assert_eq!(second.replace_with_captures("a-a"), "<a>-<a>");
    assert_eq!(second.progress(), Progress::Finished);
    assert!(!second.should_quit());
    assert!(staged(&mut second).is_empty());
}

#[test]
fn questions_and_notices() {
    assert_eq!(DECISION_PROMPT, "Stage this replacement [y,n,q,a,e,d,?] ");
    assert_eq!(EDIT_PROMPT, "Replace with [empty to skip] ");
    assert_eq!(SKIPPED_NOTICE, "... skipped ...\n");
    assert_eq!(EDITED_NOTICE, "--\n");
    assert_eq!(EXITING_NOTICE, "exiting!\n");
    assert!(HELP_NOTICE.starts_with("\x1B[31m\nY - replace this line\n"));
    assert!(HELP_NOTICE.ends_with("? - show help\n\x1B[0m\n"));
    assert_eq!(HELP_NOTICE.lines().count(), 9);
}
