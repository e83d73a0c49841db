//! What the operator is shown: a header per file, each match with its
//! proposed replacement, and a closing summary.
//!
//! The printer renders into a list of spans that it keeps until the caller
//! takes it; bringing the spans to a terminal is the caller's business.

use vstd::prelude::*;
use vstd::string::*;
use crate::search::{Line, LineView, Match, MatchView};

verus! {

/// How matches are shown.
#[derive(Debug, Copy, Clone)]
pub enum MatchPrintMode {
    /// Nothing is shown.
    Silent,
    /// One line per context line, match and replacement, each with the path
    /// and line number in front.
    Compact,
    /// A header per file, then numbered lines, with a separator where line
    /// numbers jump.
    Full,
}

/// A piece of rendered output.
#[derive(Debug)]
pub enum Span {
    /// The text that follows is underlined, up to the next reset sequence.
    Underline,
    /// Text to write as it is.
    Text(String),
}

/// The value of a [`Span`].
pub enum SpanView {
    Underline,
    Text(Seq<char>),
}

impl View for Span {
    type V = SpanView;

    open spec fn view(&self) -> SpanView {
        match self {
            Span::Underline => SpanView::Underline,
            Span::Text(text) => SpanView::Text(text@),
        }
    }
}

/// The values of a list of spans, in order.
pub open spec fn view_spans(spans: Seq<Span>) -> Seq<SpanView> {
    spans.map_values(|s: Span| s@)
}

/// The character of a decimal digit.
pub open spec fn digit(d: int) -> char {
    if d == 0 {
        '0'
    } else if d == 1 {
        '1'
    } else if d == 2 {
        '2'
    } else if d == 3 {
        '3'
    } else if d == 4 {
        '4'
    } else if d == 5 {
        '5'
    } else if d == 6 {
        '6'
    } else if d == 7 {
        '7'
    } else if d == 8 {
        '8'
    } else {
        '9'
    }
}

/// A number in decimal, without sign or leading zeros.
pub open spec fn decimal(n: nat) -> Seq<char>
    decreases n,
{
    if n < 10 {
        seq![digit(n as int)]
    } else {
        decimal(n / 10).push(digit((n % 10) as int))
    }
}

/// As many spaces as `count` says.
pub open spec fn spaces(count: nat) -> Seq<char> {
    Seq::new(count, |i: int| ' ')
}

/// A number in decimal, right-aligned in a column of four characters; a
/// longer number is not cut.
pub open spec fn column(n: nat) -> Seq<char> {
    if decimal(n).len() < 4 {
        spaces((4 - decimal(n).len()) as nat) + decimal(n)
    } else {
        decimal(n)
    }
}

/// The header of a file in full mode, after the underline span.
pub open spec fn header_text(path: Seq<char>, num_matches: nat) -> Seq<char> {
    path + "\x1B[0m "@ + decimal(num_matches) + " match"@ + (if num_matches == 1 {
        ""@
    } else {
        "es"@
    }) + "\n"@
}

/// A context line in full mode.
pub open spec fn full_context_line(line: LineView) -> Seq<char> {
    " "@ + column(line.number as nat) + " "@ + line.text
}

/// Context lines in full mode, one after the other.
pub open spec fn full_context(lines: Seq<LineView>) -> Seq<char>
    decreases lines.len(),
{
    if lines.len() == 0 {
        Seq::empty()
    } else {
        full_context(lines.drop_last()) + full_context_line(lines.last())
    }
}

/// The matched line and its replacement in full mode.
pub open spec fn full_change(line: LineView, replacement: Seq<char>) -> Seq<char> {
    "\x1B[31m-"@ + column(line.number as nat) + " "@ + line.text + "\x1B[0m"@ + "\x1B[32m+"@
        + column(line.number as nat) + " "@ + replacement + "\x1B[0m"@
}

/// A gap lies between the last line shown and the first line of the record.
pub open spec fn has_line_break(last_line_num: Option<u64>, m: MatchView) -> bool {
    match last_line_num {
        Some(last) => if m.context_pre.len() > 0 {
            m.context_pre[0].number > last + 1
        } else {
            m.line.number > last + 1
        },
        None => false,
    }
}

/// A match in full mode.
pub open spec fn full_text(
    last_line_num: Option<u64>,
    m: MatchView,
    replacement: Seq<char>,
) -> Seq<char> {
    (if has_line_break(last_line_num, m) {
        "  ---\n"@
    } else {
        ""@
    }) + full_context(m.context_pre) + full_change(m.line, replacement) + full_context(
        m.context_post,
    )
}

/// The number of the last line that a record shows.
pub open spec fn last_shown(m: MatchView) -> u64 {
    if m.context_post.len() > 0 {
        m.context_post.last().number
    } else {
        m.line.number
    }
}

/// A context line in compact mode.
pub open spec fn compact_context_line(path: Seq<char>, line: LineView) -> Seq<char> {
    path + ":"@ + decimal(line.number as nat) + ":"@ + line.text
}

/// Context lines in compact mode, one after the other.
pub open spec fn compact_context(path: Seq<char>, lines: Seq<LineView>) -> Seq<char>
    decreases lines.len(),
{
    if lines.len() == 0 {
        Seq::empty()
    } else {
        compact_context(path, lines.drop_last()) + compact_context_line(path, lines.last())
    }
}

/// The matched line and its replacement in compact mode.
pub open spec fn compact_change(path: Seq<char>, line: LineView, replacement: Seq<char>) -> Seq<
    char,
> {
    "\x1B[31m"@ + path + ":"@ + decimal(line.number as nat) + "-"@ + line.text + "\x1B[0m"@
        + "\x1B[32m"@ + path + ":"@ + decimal(line.number as nat) + "+"@ + replacement
        + "\x1B[0m"@
}

/// A match in compact mode.
pub open spec fn compact_text(path: Seq<char>, m: MatchView, replacement: Seq<char>) -> Seq<char> {
    compact_context(path, m.context_pre) + compact_change(path, m.line, replacement)
        + compact_context(path, m.context_post)
}

/// The closing summary in full mode.
pub open spec fn footer_text(
    total_replacements: nat,
    total_matches: nat,
    writes_enabled: bool,
) -> Seq<char> {
    "All done. Replaced "@ + decimal(total_replacements) + " of "@ + decimal(total_matches)
        + " matches\n"@ + (if writes_enabled {
        ""@
    } else {
        "Use -w, --write to modify files in place.\n"@
    })
}

/// The text of one decimal digit.
fn digit_text(d: u64) -> (text: &'static str)
    requires
        d < 10,
    ensures
        text@ == seq![digit(d as int)],
{
    proof {
        reveal_strlit("0");
        reveal_strlit("1");
        reveal_strlit("2");
        reveal_strlit("3");
        reveal_strlit("4");
        reveal_strlit("5");
        reveal_strlit("6");
        reveal_strlit("7");
        reveal_strlit("8");
        reveal_strlit("9");
    }
    let text = if d == 0 {
        "0"
    } else if d == 1 {
        "1"
    } else if d == 2 {
        "2"
    } else if d == 3 {
        "3"
    } else if d == 4 {
        "4"
    } else if d == 5 {
        "5"
    } else if d == 6 {
        "6"
    } else if d == 7 {
        "7"
    } else if d == 8 {
        "8"
    } else {
        "9"
    };
    assert(text@ =~= seq![digit(d as int)]);
    text
}

/// Appends a number in decimal.
pub fn push_decimal(text: &mut String, n: u64)
    ensures
        final(text)@ == old(text)@ + decimal(n as nat),
    decreases n,
{
    if n >= 10 {
        push_decimal(text, n / 10);
    }
    text.append(digit_text(n % 10));
    assert(text@ =~= old(text)@ + decimal(n as nat));
}

/// The number of characters of a number in decimal.
pub fn decimal_width(n: u64) -> (width: u64)
    ensures
        width == decimal(n as nat).len(),
        1 <= width,
{
    let mut width: u64 = 1;
    let mut rest: u64 = n;
    while rest >= 10
        invariant
            1 <= width,
            width + rest <= n + 1,
            decimal(n as nat).len() == decimal(rest as nat).len() + width - 1,
        decreases rest,
    {
        rest = rest / 10;
        width = width + 1;
    }
    width
}

/// Appends a number in decimal, right-aligned in a column of four.
pub fn push_column(text: &mut String, n: u64)
    ensures
        final(text)@ == old(text)@ + column(n as nat),
{
    let width = decimal_width(n);
    let mut pad: u64 = width;
    while pad < 4
        invariant
            width <= pad,
            width < 4 ==> pad <= 4,
            width >= 4 ==> pad == width,
            text@ == old(text)@ + spaces((pad - width) as nat),
        decreases 4 - pad,
    {
        text.append(" ");
        pad = pad + 1;
        proof {
            reveal_strlit(" ");
            assert(text@ =~= old(text)@ + spaces((pad - width) as nat));
        }
    }
    let ghost padded = text@;
    push_decimal(text, n);
    proof {
        if width < 4 {
            assert(pad == 4);
            assert(padded == old(text)@ + spaces((4 - decimal(n as nat).len()) as nat));
        } else {
            assert(pad == width);
            assert(padded =~= old(text)@);
        }
        assert(text@ =~= old(text)@ + column(n as nat));
    }
}

/// Appends context lines as full mode shows them.
fn push_full_context(text: &mut String, lines: &Vec<Line>)
    ensures
        final(text)@ == old(text)@ + full_context(crate::search::view_lines(lines@)),
{
    let ghost all = crate::search::view_lines(lines@);
    let mut i: usize = 0;
    proof {
        assert(all.take(0) =~= Seq::empty());
        assert(text@ =~= old(text)@ + full_context(all.take(0)));
    }
    while i < lines.len()
        invariant
            i <= lines.len(),
            all == crate::search::view_lines(lines@),
            text@ == old(text)@ + full_context(all.take(i as int)),
        decreases lines.len() - i,
    {
        let ghost before = text@;
        let line = &lines[i];
        text.append(" ");
        push_column(text, line.0);
        text.append(" ");
        text.append(line.1.as_str());
        i = i + 1;
        proof {
            assert(all.take(i as int).drop_last() =~= all.take(i - 1));
            assert(all.take(i as int).last() == line@);
            assert(text@ =~= before + full_context_line(line@));
            assert(text@ =~= old(text)@ + full_context(all.take(i as int)));
        }
    }
    proof {
        assert(all.take(lines.len() as int) =~= all);
    }
}

/// Appends the matched line and its replacement as full mode shows them.
fn push_full_change(text: &mut String, line: &Line, replacement: &str)
    ensures
        final(text)@ == old(text)@ + full_change(line@, replacement@),
{
    text.append("\x1B[31m-");
    push_column(text, line.0);
    text.append(" ");
    text.append(line.1.as_str());
    text.append("\x1B[0m");
    text.append("\x1B[32m+");
    push_column(text, line.0);
    text.append(" ");
    text.append(replacement);
    text.append("\x1B[0m");
    assert(text@ =~= old(text)@ + full_change(line@, replacement@));
}

/// Appends context lines as compact mode shows them.
fn push_compact_context(text: &mut String, path: &str, lines: &Vec<Line>)
    ensures
        final(text)@ == old(text)@ + compact_context(path@, crate::search::view_lines(lines@)),
{
    let ghost all = crate::search::view_lines(lines@);
    let mut i: usize = 0;
    proof {
        assert(all.take(0) =~= Seq::empty());
        assert(text@ =~= old(text)@ + compact_context(path@, all.take(0)));
    }
    while i < lines.len()
        invariant
            i <= lines.len(),
            all == crate::search::view_lines(lines@),
            text@ == old(text)@ + compact_context(path@, all.take(i as int)),
        decreases lines.len() - i,
    {
        let ghost before = text@;
        let line = &lines[i];
        text.append(path);
        text.append(":");
        push_decimal(text, line.0);
        text.append(":");
        text.append(line.1.as_str());
        i = i + 1;
        proof {
            assert(all.take(i as int).drop_last() =~= all.take(i - 1));
            assert(all.take(i as int).last() == line@);
            assert(text@ =~= before + compact_context_line(path@, line@));
            assert(text@ =~= old(text)@ + compact_context(path@, all.take(i as int)));
        }
    }
    proof {
        assert(all.take(lines.len() as int) =~= all);
    }
}

/// Appends the matched line and its replacement as compact mode shows them.
fn push_compact_change(text: &mut String, path: &str, line: &Line, replacement: &str)
    ensures
        final(text)@ == old(text)@ + compact_change(path@, line@, replacement@),
{
    text.append("\x1B[31m");
    text.append(path);
    text.append(":");
    push_decimal(text, line.0);
    text.append("-");
    text.append(line.1.as_str());
    text.append("\x1B[0m");
    text.append("\x1B[32m");
    text.append(path);
    text.append(":");
    push_decimal(text, line.0);
    text.append("+");
    text.append(replacement);
    text.append("\x1B[0m");
    assert(text@ =~= old(text)@ + compact_change(path@, line@, replacement@));
}

/// Settings from which printers are made.
#[derive(Debug)]
pub struct MatchPrinterBuilder {
    pub print_mode: MatchPrintMode,
    pub writes_enabled: bool,
}

/// Renders headers, matches and the closing summary in one mode.
#[derive(Debug)]
pub struct MatchPrinter {
    writer: Vec<Span>,
    print_mode: MatchPrintMode,
    writes_enabled: bool,
    last_line_num: Option<u64>,
}

/// The value of a [`MatchPrinter`]: its settings, the number of the last
/// line it showed since the last header, and the output not yet taken.
pub struct PrinterView {
    pub print_mode: MatchPrintMode,
    pub writes_enabled: bool,
    pub last_line_num: Option<u64>,
    pub output: Seq<SpanView>,
}

impl PrinterView {
    /// The printer after the header of a file with `num_matches` matches.
    /// Only full mode shows one; it also forgets the last line shown.
    pub open spec fn display_header(self, path: Seq<char>, num_matches: nat) -> PrinterView {
        match self.print_mode {
            MatchPrintMode::Full => PrinterView {
                last_line_num: None,
                output: self.output.push(SpanView::Underline).push(
                    SpanView::Text(header_text(path, num_matches)),
                ),
                ..self
            },
            _ => self,
        }
    }

    /// The printer after a match and its proposed replacement.
    pub open spec fn display_match(
        self,
        path: Seq<char>,
        m: MatchView,
        replacement: Seq<char>,
    ) -> PrinterView {
        match self.print_mode {
            MatchPrintMode::Silent => self,
            MatchPrintMode::Compact => PrinterView {
                output: self.output.push(SpanView::Text(compact_text(path, m, replacement))),
                ..self
            },
            MatchPrintMode::Full => PrinterView {
                last_line_num: Some(last_shown(m)),
                output: self.output.push(
                    SpanView::Text(full_text(self.last_line_num, m, replacement)),
                ),
                ..self
            },
        }
    }

    /// The printer after the closing summary, which only full mode shows.
    pub open spec fn display_footer(
        self,
        total_replacements: nat,
        total_matches: nat,
    ) -> PrinterView {
        match self.print_mode {
            MatchPrintMode::Full => PrinterView {
                output: self.output.push(
                    SpanView::Text(
                        footer_text(total_replacements, total_matches, self.writes_enabled),
                    ),
                ),
                ..self
            },
            _ => self,
        }
    }

    /// The printer after a notice, which every mode shows.
    pub open spec fn notice(self, text: Seq<char>) -> PrinterView {
        PrinterView { output: self.output.push(SpanView::Text(text)), ..self }
    }
}

impl MatchPrinterBuilder {
    /// A printer with these settings that has shown nothing.
    pub fn build(&self) -> (printer: MatchPrinter)
        ensures
            printer@ == (PrinterView {
                print_mode: self.print_mode,
                writes_enabled: self.writes_enabled,
                last_line_num: None,
                output: Seq::empty(),
            }),
    {
        let printer = MatchPrinter {
            writer: Vec::new(),
            print_mode: self.print_mode,
            writes_enabled: self.writes_enabled,
            last_line_num: None,
        };
        assert(printer@.output =~= Seq::empty());
        printer
    }
}

impl View for MatchPrinter {
    type V = PrinterView;

    closed spec fn view(&self) -> PrinterView {
        PrinterView {
            print_mode: self.print_mode,
            writes_enabled: self.writes_enabled,
            last_line_num: self.last_line_num,
            output: view_spans(self.writer@),
        }
    }
}

impl MatchPrinter {
    /// Shows the header of a file.
    pub fn display_header(&mut self, path: &str, num_matches: usize)
        ensures
            final(self)@ == old(self)@.display_header(path@, num_matches as nat),
    {
        match self.print_mode {
            MatchPrintMode::Silent => {},
            MatchPrintMode::Compact => {},
            MatchPrintMode::Full => self.display_header_full(path, num_matches),
        }
    }

    fn display_header_full(&mut self, path: &str, num_matches: usize)
        requires
            old(self)@.print_mode is Full,
        ensures
            final(self)@ == old(self)@.display_header(path@, num_matches as nat),
    {
        self.writer.push(Span::Underline);
        let mut text = String::new();
        text.append(path);
        text.append("\x1B[0m ");
        push_decimal(&mut text, num_matches as u64);
        text.append(" match");
        text.append(if num_matches == 1 { "" } else { "es" });
        text.append("\n");
        assert(text@ =~= header_text(path@, num_matches as nat));
        self.writer.push(Span::Text(text));
        self.last_line_num = None;
        assert(self@.output =~= old(self)@.display_header(path@, num_matches as nat).output);
    }

    /// Shows a match and the replacement proposed for its line.
    pub fn display_match(&mut self, path: &str, search_match: &Match, replacement: &str)
        ensures
            final(self)@ == old(self)@.display_match(path@, search_match@, replacement@),
    {
        match self.print_mode {
            MatchPrintMode::Silent => {},
            MatchPrintMode::Compact => self.display_match_compact(path, search_match, replacement),
            MatchPrintMode::Full => self.display_match_full(search_match, replacement),
        }
    }

    fn display_match_compact(&mut self, path: &str, search_match: &Match, replacement: &str)
        requires
            old(self)@.print_mode is Compact,
        ensures
            final(self)@ == old(self)@.display_match(path@, search_match@, replacement@),
    {
        let mut text = String::new();
        push_compact_context(&mut text, path, &search_match.context_pre);
        push_compact_change(&mut text, path, &search_match.line, replacement);
        push_compact_context(&mut text, path, &search_match.context_post);
        assert(text@ =~= compact_text(path@, search_match@, replacement@));
        self.writer.push(Span::Text(text));
        assert(self@.output =~= old(self)@.display_match(
            path@,
            search_match@,
            replacement@,
        ).output);
    }

    fn display_match_full(&mut self, m: &Match, replacement: &str)
        requires
            old(self)@.print_mode is Full,
        ensures
            final(self)@ == (PrinterView {
                last_line_num: Some(last_shown(m@)),
                output: old(self)@.output.push(
                    SpanView::Text(full_text(old(self)@.last_line_num, m@, replacement@)),
                ),
                ..old(self)@
            }),
    {
        let first: u64 = if m.context_pre.len() > 0 {
            m.context_pre[0].0
        } else {
            m.line.0
        };
        let gap = match self.last_line_num {
            Some(last_line_num) => first > last_line_num && first - last_line_num > 1,
            None => false,
        };
        assert(gap == has_line_break(self.last_line_num, m@));
        let mut text = String::new();
        text.append(if gap { "  ---\n" } else { "" });
        push_full_context(&mut text, &m.context_pre);
        push_full_change(&mut text, &m.line, replacement);
        push_full_context(&mut text, &m.context_post);
        assert(text@ =~= full_text(self.last_line_num, m@, replacement@));
        let last: u64 = if m.context_post.len() > 0 {
            m.context_post[m.context_post.len() - 1].0
        } else {
            m.line.0
        };
        assert(last == last_shown(m@));
        self.last_line_num = Some(last);
        self.writer.push(Span::Text(text));
        assert(self@.output =~= old(self)@.output.push(
            SpanView::Text(full_text(old(self)@.last_line_num, m@, replacement@)),
        ));
    }

    /// Shows the closing summary of a run.
    pub fn display_footer(&mut self, total_replacements: usize, total_matches: usize)
        ensures
            final(self)@ == old(self)@.display_footer(
                total_replacements as nat,
                total_matches as nat,
            ),
    {
        match self.print_mode {
            MatchPrintMode::Silent => {},
            MatchPrintMode::Compact => {},
            MatchPrintMode::Full => self.display_footer_full(total_replacements, total_matches),
        }
    }

    fn display_footer_full(&mut self, total_replacements: usize, total_matches: usize)
        requires
            old(self)@.print_mode is Full,
        ensures
            final(self)@ == old(self)@.display_footer(
                total_replacements as nat,
                total_matches as nat,
            ),
    {
        let mut text = String::new();
        text.append("All done. Replaced ");
        push_decimal(&mut text, total_replacements as u64);
        text.append(" of ");
        push_decimal(&mut text, total_matches as u64);
        text.append(" matches\n");
        text.append(
            if self.writes_enabled {
                ""
            } else {
                "Use -w, --write to modify files in place.\n"
            },
        );
        assert(text@ =~= footer_text(
            total_replacements as nat,
            total_matches as nat,
            self.writes_enabled,
        ));
        self.writer.push(Span::Text(text));
        assert(self@.output =~= old(self)@.display_footer(
            total_replacements as nat,
            total_matches as nat,
        ).output);
    }

    /// Shows a notice, whatever the mode.
    pub fn notice(&mut self, text: &str)
        ensures
            final(self)@ == old(self)@.notice(text@),
    {
        self.writer.push(Span::Text(String::from_str(text)));
        assert(self@.output =~= old(self)@.notice(text@).output);
    }

    /// Hands out what was rendered since the output was last taken.
    pub fn take_output(&mut self) -> (output: Vec<Span>)
        ensures
            view_spans(output@) == old(self)@.output,
            final(self)@ == (PrinterView { output: Seq::empty(), ..old(self)@ }),
    {
        let mut output: Vec<Span> = Vec::new();
        core::mem::swap(&mut self.writer, &mut output);
        assert(self@.output =~= Seq::empty());
        output
    }
}

} // verus!
