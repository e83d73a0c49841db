//! Physical lines: how a text falls into lines at its terminators, and why
//! a rewrite that puts one line in the place of another keeps their number.

use vstd::prelude::*;
use crate::replace::MatchReplacementView;
use crate::rewrite::{applicable, replacement_for, replaces, rewritten};

verus! {

/// The line ends in a terminator and holds no other.
pub open spec fn terminated(line: Seq<char>) -> bool {
    &&& line.len() > 0
    &&& line.last() == '\n'
    &&& forall|i: int| 0 <= i < line.len() - 1 ==> line[i] != '\n'
}

/// The line is not empty and holds no terminator.
pub open spec fn unterminated(line: Seq<char>) -> bool {
    &&& line.len() > 0
    &&& forall|i: int| 0 <= i < line.len() ==> line[i] != '\n'
}

/// The lines are the physical lines of a text: each ends in its terminator
/// and holds no other, but for the last, which may lack one.
pub open spec fn physical_lines(lines: Seq<Seq<char>>) -> bool {
    forall|i: int|
        0 <= i < lines.len() ==> terminated(#[trigger] lines[i]) || (i == lines.len() - 1
            && unterminated(lines[i]))
}

/// The text that the lines make up, one after the other.
pub open spec fn content(lines: Seq<Seq<char>>) -> Seq<char>
    decreases lines.len(),
{
    if lines.len() == 0 {
        Seq::empty()
    } else {
        content(lines.drop_last()) + lines.last()
    }
}

/// The number of terminators in a text.
pub open spec fn terminators(text: Seq<char>) -> nat
    decreases text.len(),
{
    if text.len() == 0 {
        0
    } else {
        terminators(text.drop_last()) + if text.last() == '\n' {
            1nat
        } else {
            0nat
        }
    }
}

/// The number of physical lines of a text: one for each terminator, and one
/// more for what follows the last terminator, if anything does.
pub open spec fn line_count(text: Seq<char>) -> nat {
    terminators(text) + if text.len() > 0 && text.last() != '\n' {
        1nat
    } else {
        0nat
    }
}

proof fn lemma_terminators_add(a: Seq<char>, b: Seq<char>)
    ensures
        terminators(a + b) == terminators(a) + terminators(b),
    decreases b.len(),
{
    if b.len() == 0 {
        assert(a + b =~= a);
    } else {
        lemma_terminators_add(a, b.drop_last());
        assert((a + b).drop_last() =~= a + b.drop_last());
        assert((a + b).last() == b.last());
    }
}

proof fn lemma_terminators_none(line: Seq<char>)
    requires
        forall|i: int| 0 <= i < line.len() ==> line[i] != '\n',
    ensures
        terminators(line) == 0,
    decreases line.len(),
{
    if line.len() > 0 {
        lemma_terminators_none(line.drop_last());
    }
}

proof fn lemma_terminators_one(line: Seq<char>)
    requires
        terminated(line),
    ensures
        terminators(line) == 1,
{
    lemma_terminators_none(line.drop_last());
}

proof fn lemma_terminated_content(lines: Seq<Seq<char>>)
    requires
        forall|i: int| 0 <= i < lines.len() ==> terminated(#[trigger] lines[i]),
    ensures
        terminators(content(lines)) == lines.len(),
        content(lines).len() > 0 ==> content(lines).last() == '\n',
    decreases lines.len(),
{
    if lines.len() > 0 {
        let front = lines.drop_last();
        assert forall|i: int| 0 <= i < front.len() implies terminated(#[trigger] front[i]) by {
            assert(front[i] == lines[i]);
        }
        lemma_terminated_content(front);
        assert(terminated(lines[lines.len() - 1]));
        lemma_terminators_add(content(front), lines.last());
        lemma_terminators_one(lines.last());
    }
}

/// A text has as many physical lines as the list of its physical lines is
/// long.
pub proof fn lemma_line_count_of_lines(lines: Seq<Seq<char>>)
    requires
        physical_lines(lines),
    ensures
        line_count(content(lines)) == lines.len(),
{
    if lines.len() > 0 {
        let front = lines.drop_last();
        let last = lines.last();
        assert forall|i: int| 0 <= i < front.len() implies terminated(#[trigger] front[i]) by {
            assert(front[i] == lines[i]);
        }
        lemma_terminated_content(front);
        lemma_terminators_add(content(front), last);
        assert(terminated(lines[lines.len() - 1]) || unterminated(lines[lines.len() - 1]));
        if terminated(last) {
            lemma_terminators_one(last);
        } else {
            lemma_terminators_none(last);
        }
    }
}

/// Rewriting keeps the number of physical lines: where the file is given by
/// its physical lines and every replacement of an applicable list is one
/// line with its terminator, the rewritten lines are the physical lines of
/// the rewritten text, and that text has as many lines as the file had.
pub proof fn lemma_physical_lines_kept(
    lines: Seq<Seq<char>>,
    replacements: Seq<MatchReplacementView>,
)
    requires
        physical_lines(lines),
        applicable(replacements, lines.len()),
        forall|k: int|
            0 <= k < replacements.len() ==> terminated((#[trigger] replacements[k]).replacement),
    ensures
        physical_lines(rewritten(lines, replacements)),
        line_count(content(rewritten(lines, replacements))) == line_count(content(lines)),
{
    let out = rewritten(lines, replacements);
    assert forall|i: int| 0 <= i < out.len() implies terminated(#[trigger] out[i]) || (i
        == out.len() - 1 && unterminated(out[i])) by {
        if replaces(replacements, i + 1) {
            let k = choose|k: int|
                0 <= k < replacements.len() && (#[trigger] replacements[k]).number() == i + 1;
            assert(replacement_for(replacements, i + 1) == replacements[k]);
            assert(terminated(replacements[k].replacement));
        } else {
            assert(out[i] == lines[i]);
            assert(terminated(lines[i]) || (i == lines.len() - 1 && unterminated(lines[i])));
        }
    }
    lemma_line_count_of_lines(lines);
    lemma_line_count_of_lines(out);
}

} // verus!
