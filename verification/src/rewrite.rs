//! Line-exact rewriting of a file from a list of staged replacements.
//!
//! The file is taken as the sequence of its physical lines, each with its
//! terminator. A replacement stands for exactly one line and takes its place
//! whole; every other line is kept as it is. How the lines are read, and how
//! the result reaches the disk, is the caller's business: the rewritten
//! lines go to a temporary file that takes the file's place only after
//! [`LineRewriter::finish`] has succeeded.
//!
//! A replacement is written as it is given. One that holds a terminator
//! inside, or lacks the one at its end, changes how the text falls into
//! physical lines afterwards; [`crate::lines`] says what is kept where every
//! replacement is one line with its terminator.

use vstd::prelude::*;
use crate::replace::{view_replacements, MatchReplacement, MatchReplacementView};

verus! {

/// Why a rewrite must not reach the disk.
#[derive(Debug, Clone, Copy, PartialEq, Eq, Structural)]
pub enum RewriteError {
    /// The end of the file was reached while replacements were left over:
    /// one of them names a line that the file does not have, or the list
    /// is not in strictly ascending line order.
    UnconsumedReplacements,
}

/// The extension that marks the temporary file of a rewrite: the rewritten
/// lines are written beside the file, under its name with this extension
/// in place of its own.
pub const TEMPORARY_EXTENSION: &'static str = "~";

/// The values of a list of lines of text.
pub open spec fn view_texts(lines: Seq<String>) -> Seq<Seq<char>> {
    lines.map_values(|l: String| l@)
}

/// The list can be applied to a file of `line_count` lines: its line
/// numbers strictly ascend and each names a line of the file.
pub open spec fn applicable(replacements: Seq<MatchReplacementView>, line_count: nat) -> bool {
    &&& forall|i: int, j: int|
        0 <= i < j < replacements.len() ==> (#[trigger] replacements[i]).number() < (
        #[trigger] replacements[j]).number()
    &&& forall|i: int|
        0 <= i < replacements.len() ==> 1 <= (#[trigger] replacements[i]).number() <= line_count
}

/// Some replacement of the list stands for the line with this number.
pub open spec fn replaces(replacements: Seq<MatchReplacementView>, number: int) -> bool {
    exists|k: int| 0 <= k < replacements.len() && (#[trigger] replacements[k]).number() == number
}

/// A replacement of the list that stands for the line with this number.
pub open spec fn replacement_for(
    replacements: Seq<MatchReplacementView>,
    number: int,
) -> MatchReplacementView {
    let k = choose|k: int|
        0 <= k < replacements.len() && (#[trigger] replacements[k]).number() == number;
    replacements[k]
}

/// The rewritten file: line for line the file as it was, but for the lines that a
/// replacement stands for, which hold the replacement text.
pub open spec fn rewritten(
    lines: Seq<Seq<char>>,
    replacements: Seq<MatchReplacementView>,
) -> Seq<Seq<char>> {
    Seq::new(
        lines.len(),
        |i: int|
            if replaces(replacements, i + 1) {
                replacement_for(replacements, i + 1).replacement
            } else {
                lines[i]
            },
    )
}

/// The state of one pass over a file: how many lines were read and how many
/// replacements of the list were written so far.
#[derive(Debug)]
pub struct LineRewriter {
    line_num: u64,
    num_replaced: usize,
}

impl LineRewriter {
    /// The number of lines taken so far.
    pub closed spec fn lines_seen(&self) -> nat {
        self.line_num as nat
    }

    /// The number of replacements written so far; it is also the position
    /// in the list of the replacement that comes next.
    pub closed spec fn replaced(&self) -> nat {
        self.num_replaced as nat
    }

    /// The head of the list stands for the line that comes next.
    pub open spec fn head_is_next(&self, replacements: Seq<MatchReplacementView>) -> bool {
        self.replaced() < replacements.len() && replacements[self.replaced() as int].number()
            == self.lines_seen() + 1
    }

    /// A pass that has read nothing yet.
    pub fn new() -> (rewriter: LineRewriter)
        ensures
            rewriter.lines_seen() == 0,
            rewriter.replaced() == 0,
    {
        LineRewriter { line_num: 0, num_replaced: 0 }
    }

    /// The number of lines taken so far.
    pub fn line_number(&self) -> (n: u64)
        ensures
            n == self.lines_seen(),
    {
        self.line_num
    }

    /// Takes the next line of the file and returns what is written in its
    /// place: the text of the replacement at the head of the list, if that
    /// one stands for this line, and the line itself otherwise.
    pub fn next_line<'a>(
        &mut self,
        replacements: &'a Vec<MatchReplacement>,
        line: &'a String,
    ) -> (out: &'a String)
        requires
            old(self).lines_seen() < u64::MAX,
        ensures
            final(self).lines_seen() == old(self).lines_seen() + 1,
            old(self).head_is_next(view_replacements(replacements@)) ==> {
                &&& final(self).replaced() == old(self).replaced() + 1
                &&& out@ == replacements[old(self).replaced() as int].replacement@
            },
            !old(self).head_is_next(view_replacements(replacements@)) ==> {
                &&& final(self).replaced() == old(self).replaced()
                &&& out@ == line@
            },
    {
        self.line_num = self.line_num + 1;
        if self.num_replaced < replacements.len()
            && replacements[self.num_replaced].search_match.line.0 == self.line_num {
            let out = &replacements[self.num_replaced].replacement;
            self.num_replaced = self.num_replaced + 1;
            out
        } else {
            line
        }
    }

    /// Ends the pass. Gives the number of replacements written if the whole
    /// list was consumed; otherwise the rewrite is void and nothing may
    /// take the file's place.
    pub fn finish(&self, replacements: &Vec<MatchReplacement>) -> (result: Result<
        usize,
        RewriteError,
    >)
        ensures
            result == if self.replaced() >= replacements.len() {
                Ok::<usize, RewriteError>(self.replaced() as usize)
            } else {
                Err::<usize, RewriteError>(RewriteError::UnconsumedReplacements)
            },
    {
        if self.num_replaced >= replacements.len() {
            Ok(self.num_replaced)
        } else {
            Err(RewriteError::UnconsumedReplacements)
        }
    }
}

/// Rewrites a file given as the list of its lines, in one pass. The result
/// is the rewritten file and the number of lines replaced. It is owed
/// exactly when the list of replacements can be applied to the file; a list
/// that cannot leaves replacements over at the end, which voids the rewrite.
pub fn apply(lines: &Vec<String>, replacements: &Vec<MatchReplacement>) -> (result: Result<
    (Vec<String>, usize),
    RewriteError,
>)
    ensures
        result is Ok <==> applicable(view_replacements(replacements@), lines.len() as nat),
        result matches Ok((out, count)) ==> {
            &&& view_texts(out@) == rewritten(view_texts(lines@), view_replacements(replacements@))
            &&& count == replacements.len()
        },
        result matches Err(e) ==> e == RewriteError::UnconsumedReplacements,
{
    let ghost list = view_replacements(replacements@);
    let ghost file = view_texts(lines@);
    let mut rewriter = LineRewriter::new();
    let mut out: Vec<String> = Vec::new();
    let mut i: usize = 0;
    while i < lines.len()
        invariant
            i <= lines.len(),
            list == view_replacements(replacements@),
            file == view_texts(lines@),
            rewriter.lines_seen() == i,
            rewriter.replaced() <= list.len(),
            out.len() == i,
            forall|a: int, b: int|
                0 <= a < b < rewriter.replaced() ==> (#[trigger] list[a]).number() < (
                #[trigger] list[b]).number(),
            forall|a: int| 0 <= a < rewriter.replaced() ==> 1 <= (#[trigger] list[a]).number() <= i,
            applicable(list, lines.len() as nat) ==> forall|a: int|
                rewriter.replaced() <= a < list.len() ==> (#[trigger] list[a]).number() > i,
            applicable(list, lines.len() as nat) ==> forall|j: int|
                0 <= j < i ==> (#[trigger] out[j])@ == rewritten(file, list)[j],
        decreases lines.len() - i,
    {
        let ghost head = rewriter.replaced() as int;
        let ghost taken = rewriter.head_is_next(list);
        let text = rewriter.next_line(replacements, &lines[i]);
        proof {
            if applicable(list, lines.len() as nat) {
                if taken {
                    assert(replaces(list, i + 1));
                    assert(replacement_for(list, i + 1) == list[head]);
                } else {
                    if replaces(list, i + 1) {
                        let a = choose|a: int|
                            0 <= a < list.len() && (#[trigger] list[a]).number() == i + 1;
                        if a > head {
                            assert(list[head].number() < list[a].number());
                        }
                    }
                    assert(text@ == file[i as int]);
                }
                assert(text@ == rewritten(file, list)[i as int]);
            }
        }
        out.push(text.clone());
        i = i + 1;
    }
    match rewriter.finish(replacements) {
        Ok(count) => {
            proof {
                assert(rewriter.replaced() == list.len());
                assert(applicable(list, lines.len() as nat));
                assert(view_texts(out@) =~= rewritten(file, list));
            }
            Ok((out, count))
        },
        Err(e) => {
            proof {
                let head = rewriter.replaced() as int;
                if applicable(list, lines.len() as nat) {
                    assert(list[head].number() > lines.len());
                    assert(list[head].number() <= lines.len());
                }
            }
            Err(e)
        },
    }
}

/// Rewriting with no replacement leaves every line of the file as it was.
pub proof fn lemma_nothing_staged_nothing_changed(lines: Seq<Seq<char>>)
    ensures
        applicable(Seq::<MatchReplacementView>::empty(), lines.len()),
        rewritten(lines, Seq::<MatchReplacementView>::empty()) == lines,
{
    assert(rewritten(lines, Seq::<MatchReplacementView>::empty()) =~= lines);
}

/// The rewritten file has exactly as many lines as the file had: each
/// replacement takes the place of one line, and no line is added or dropped.
pub proof fn lemma_line_count_kept(lines: Seq<Seq<char>>, replacements: Seq<MatchReplacementView>)
    ensures
        rewritten(lines, replacements).len() == lines.len(),
{
}

/// In the rewritten file, a line that an applicable list names holds the
/// text of the replacement that names it, and every other line is the
/// file's own.
pub proof fn lemma_rewritten_lines(
    lines: Seq<Seq<char>>,
    replacements: Seq<MatchReplacementView>,
    k: int,
)
    requires
        applicable(replacements, lines.len()),
        0 <= k < replacements.len(),
    ensures
        rewritten(lines, replacements)[replacements[k].number() - 1] == replacements[k].replacement,
        forall|i: int|
            0 <= i < lines.len() && !replaces(replacements, i + 1) ==> #[trigger] rewritten(
                lines,
                replacements,
            )[i] == lines[i],
{
    let number = replacements[k].number();
    assert(replaces(replacements, number));
    let chosen = choose|c: int|
        0 <= c < replacements.len() && (#[trigger] replacements[c]).number() == number;
    if chosen < k {
        assert(replacements[chosen].number() < replacements[k].number());
    } else if chosen > k {
        assert(replacements[k].number() < replacements[chosen].number());
    }
}

} // verus!
