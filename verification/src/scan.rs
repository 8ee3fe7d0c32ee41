//! What reading a document means: the lines of a text, the state that the scan is in after
//! each of them, and the month that is left at the end.
//!
//! The scan is strict. A day header that is met inside the day section and names no date
//! stops it: nothing is read past that line, and the line is reported. A day that was
//! passed over in silence would take the tasks and events under it along.

use crate::day::DayView;
use crate::error::ErrorKind;
use crate::error::ParseErrorView;
use crate::grammar::date_of_header;
use crate::grammar::event_of_line;
use crate::grammar::kind_of;
use crate::grammar::task_of_line;
use crate::grammar::LineKind;
use crate::grammar::Section;
use crate::task::TaskView;
use crate::text::trim;
use vstd::prelude::*;

verus! {

/// What a month stands for: its tasks and its days, each in the order of the document.
pub ghost struct MonthView {
    pub tasks: Seq<TaskView>,
    pub days: Seq<DayView>,
}

/// Where in the document the scan is.
pub ghost enum ModeView {
    /// Outside the day section.
    Normal,
    /// Inside the day section, under the given day if one was opened.
    InDaySection(Option<DayView>),
}

/// The state of a scan: what was gathered so far, and where the scan is.
pub ghost struct ScanView {
    pub tasks: Seq<TaskView>,
    pub days: Seq<DayView>,
    pub mode: ModeView,
}

/// The state before the first line.
pub open spec fn initial() -> ScanView {
    ScanView { tasks: Seq::empty(), days: Seq::empty(), mode: ModeView::Normal }
}

/// The days once the open day, if there is one, has joined them.
pub open spec fn flushed(days: Seq<DayView>, current: Option<DayView>) -> Seq<DayView> {
    match current {
        Some(day) => days.push(day),
        None => days,
    }
}

/// The state after one more line, which is given without the white space around it.
///
/// Outside the day section a checklist entry becomes a task without a date, `## Days` opens
/// the day section, and every other line is passed over. Inside the day section any section
/// header closes the open day and the section; a day header closes the open day and opens the
/// day that it names, or stops the scan if it names none; under an open day a checklist
/// entry becomes a task of that day and a freeform line one of its events; every other line
/// is passed over.
pub open spec fn step(state: ScanView, line: Seq<char>) -> Result<ScanView, ErrorKind> {
    match state.mode {
        ModeView::Normal => match kind_of(line) {
            LineKind::Task => Ok(
                ScanView { tasks: state.tasks.push(task_of_line(line)), ..state },
            ),
            LineKind::SectionHeader(Section::Days) => Ok(
                ScanView { mode: ModeView::InDaySection(None), ..state },
            ),
            _ => Ok(state),
        },
        ModeView::InDaySection(current) => match kind_of(line) {
            LineKind::SectionHeader(_) => Ok(
                ScanView {
                    tasks: state.tasks,
                    days: flushed(state.days, current),
                    mode: ModeView::Normal,
                },
            ),
            LineKind::DayHeader => match date_of_header(line) {
                Ok(date) => Ok(
                    ScanView {
                        tasks: state.tasks,
                        days: flushed(state.days, current),
                        mode: ModeView::InDaySection(
                            Some(DayView { date, events: Seq::empty() }),
                        ),
                    },
                ),
                Err(kind) => Err(kind),
            },
            LineKind::Task => match current {
                Some(day) => Ok(
                    ScanView {
                        tasks: state.tasks.push(
                            TaskView { date: Some(day.date), ..task_of_line(line) },
                        ),
                        ..state
                    },
                ),
                None => Ok(state),
            },
            LineKind::Freeform => match current {
                Some(day) => Ok(
                    ScanView {
                        mode: ModeView::InDaySection(
                            Some(
                                DayView {
                                    date: day.date,
                                    events: day.events.push(event_of_line(line)),
                                },
                            ),
                        ),
                        ..state
                    },
                ),
                None => Ok(state),
            },
            _ => Ok(state),
        },
    }
}

/// The month that a scan leaves when the document ends in the given state: the open day, if
/// there is one, joins the days.
pub open spec fn finish(state: ScanView) -> MonthView {
    match state.mode {
        ModeView::Normal => MonthView { tasks: state.tasks, days: state.days },
        ModeView::InDaySection(current) => MonthView {
            tasks: state.tasks,
            days: flushed(state.days, current),
        },
    }
}

/// The state after the first `n` of the lines, each of them trimmed before it is read, or
/// the first line among them that stopped the scan. Lines are counted from 1.
pub open spec fn state_after(lines: Seq<Seq<char>>, n: nat) -> Result<ScanView, ParseErrorView>
    decreases n,
{
    if n == 0 {
        Ok(initial())
    } else {
        match state_after(lines, (n - 1) as nat) {
            Err(error) => Err(error),
            Ok(state) => match step(state, trim(lines[n - 1])) {
                Ok(next) => Ok(next),
                Err(kind) => Err(
                    ParseErrorView { line_number: n as int, content: trim(lines[n - 1]), kind },
                ),
            },
        }
    }
}

/// The month that the lines hold, or the first line that stopped the scan.
pub open spec fn parse_lines(lines: Seq<Seq<char>>) -> Result<MonthView, ParseErrorView> {
    match state_after(lines, lines.len()) {
        Ok(state) => Ok(finish(state)),
        Err(error) => Err(error),
    }
}

/// Once a line has stopped the scan, the lines after it change nothing.
pub proof fn lemma_error_stays(lines: Seq<Seq<char>>, n: nat, m: nat)
    requires
        n <= m,
        state_after(lines, n) is Err,
    ensures
        state_after(lines, m) == state_after(lines, n),
    decreases m,
{
    if n < m {
        lemma_error_stays(lines, n, (m - 1) as nat);
    }
}

/// Where the first line of `text` ends: at its first line feed, or at its end if it has none.
pub open spec fn line_end(text: Seq<char>) -> int
    decreases text.len(),
{
    if text.len() == 0 || text[0] == '\n' {
        0
    } else {
        1 + line_end(text.drop_first())
    }
}

/// The lines of `text`: the pieces between its line feeds. A text without a line feed is one
/// line, and a text that ends in a line feed has an empty last line.
pub open spec fn split_lines(text: Seq<char>) -> Seq<Seq<char>>
    decreases text.len(),
{
    let end = line_end(text);
    if 0 <= end < text.len() {
        seq![text.take(end)] + split_lines(text.skip(end + 1))
    } else {
        seq![text]
    }
}

/// The text that the lines make when a line feed stands between each two of them.
pub open spec fn join_lines(lines: Seq<Seq<char>>) -> Seq<char>
    decreases lines.len(),
{
    if lines.len() == 0 {
        Seq::empty()
    } else if lines.len() == 1 {
        lines[0]
    } else {
        lines[0] + seq!['\n'] + join_lines(lines.drop_first())
    }
}

/// The month that `text` holds, or the first line that stopped the scan.
pub open spec fn parse(text: Seq<char>) -> Result<MonthView, ParseErrorView> {
    parse_lines(split_lines(text))
}

/// The first line of a text ends inside the text, at a line feed or at the end, and holds no
/// line feed.
pub proof fn lemma_line_end(text: Seq<char>)
    ensures
        0 <= line_end(text) <= text.len(),
        line_end(text) < text.len() ==> text[line_end(text)] == '\n',
        forall|i: int| 0 <= i < line_end(text) ==> text[i] != '\n',
    decreases text.len(),
{
    if text.len() == 0 || text[0] == '\n' {
    } else {
        let rest = text.drop_first();
        lemma_line_end(rest);
        assert forall|i: int| 0 <= i < line_end(text) implies text[i] != '\n' by {
            if i > 0 {
                assert(text[i] == rest[i - 1]);
            }
        }
    }
}

/// A text that is cut at its first line feed is cut where its first line ends.
pub proof fn lemma_first_line(text: Seq<char>, head: Seq<char>, tail: Seq<char>)
    requires
        !head.contains('\n'),
        text == head + seq!['\n'] + tail,
    ensures
        line_end(text) == head.len(),
        head == text.take(line_end(text)),
        tail == text.skip(line_end(text) + 1),
        split_lines(text) == seq![head] + split_lines(tail),
{
    lemma_line_end(text);
    let end = line_end(text);
    let n = head.len() as int;
    assert(text[n] == '\n');
    if end < n {
        assert(text[end] == head[end]);
        assert(head.contains(head[end]));
    }
    assert(end == n);
    assert(head =~= text.take(end));
    assert(tail =~= text.skip(end + 1));
}

/// A text without a line feed is a single line.
pub proof fn lemma_last_line(text: Seq<char>)
    requires
        !text.contains('\n'),
    ensures
        split_lines(text) == seq![text],
{
    lemma_line_end(text);
    let end = line_end(text);
    if end < text.len() {
        assert(text.contains(text[end]));
    }
}

/// The lines of a text are its pieces between the line feeds: none of them holds a line
/// feed, there is at least one, and with a line feed between each two of them they make the
/// text again.
pub proof fn law_lines_make_the_text(text: Seq<char>)
    ensures
        split_lines(text).len() >= 1,
        forall|k: int|
            0 <= k < split_lines(text).len() ==> !(#[trigger] split_lines(text)[k]).contains(
                '\n',
            ),
        join_lines(split_lines(text)) == text,
    decreases text.len(),
{
    lemma_line_end(text);
    let end = line_end(text);
    let lines = split_lines(text);
    if end < text.len() {
        let head = text.take(end);
        let tail = text.skip(end + 1);
        law_lines_make_the_text(tail);
        let rest = split_lines(tail);
        assert(lines == seq![head] + rest);
        assert(lines.drop_first() =~= rest);
        assert forall|k: int| 0 <= k < lines.len() implies !(#[trigger] lines[k]).contains(
            '\n',
        ) by {
            if k == 0 {
                if head.contains('\n') {
                    let i = choose|i: int| 0 <= i < head.len() && head[i] == '\n';
                    assert(text[i] == '\n');
                }
            } else {
                assert(lines[k] == rest[k - 1]);
            }
        }
        assert(join_lines(lines) =~= text);
    } else {
        if text.contains('\n') {
            let i = choose|i: int| 0 <= i < text.len() && text[i] == '\n';
            assert(text[i] == '\n');
        }
    }
}

/// No other lines make the text: lines that hold no line feed and that make a text with a
/// line feed between each two of them are the lines of that text.
pub proof fn law_lines_are_unique(lines: Seq<Seq<char>>)
    requires
        lines.len() >= 1,
        forall|k: int| 0 <= k < lines.len() ==> !(#[trigger] lines[k]).contains('\n'),
    ensures
        split_lines(join_lines(lines)) == lines,
    decreases lines.len(),
{
    let text = join_lines(lines);
    if lines.len() == 1 {
        lemma_last_line(text);
        assert(seq![text] =~= lines);
    } else {
        let rest = lines.drop_first();
        assert forall|k: int| 0 <= k < rest.len() implies !(#[trigger] rest[k]).contains(
            '\n',
        ) by {
            assert(rest[k] == lines[k + 1]);
        }
        law_lines_are_unique(rest);
        lemma_first_line(text, lines[0], join_lines(rest));
        assert(seq![lines[0]] + rest =~= lines);
    }
}

} // verus!
