//! The month that a notes document holds, and the scan that reads it.

use crate::date::DateView;
use crate::day::Day;
use crate::day::DayView;
use crate::error::ErrorKind;
use crate::extract::task_from_chars;
use crate::grammar::classify_chars;
use crate::grammar::date_of_header;
use crate::grammar::event_of_line;
use crate::grammar::kind_of;
use crate::grammar::LineKind;
use crate::grammar::Section;
use crate::error::ParseError;
use crate::error::ParseErrorView;
use crate::scan::finish;
use crate::scan::initial;
use crate::scan::lemma_error_stays;
use crate::scan::lemma_first_line;
use crate::scan::lemma_last_line;
use crate::scan::parse;
use crate::scan::split_lines;
use crate::scan::state_after;
use crate::text::lemma_trim_is_tight;
use crate::text::trimmed;
use crate::scan::step;
use crate::scan::ModeView;
use crate::scan::MonthView;
use crate::scan::ScanView;
use crate::task::Task;
use crate::task::TaskView;
use crate::text::chars_of;
use crate::text::starts_with;
use crate::text::trim;
use crate::text::trim_bounds;
use vstd::prelude::*;
use vstd::slice::slice_subrange;
use vstd::string::StrSliceExecFns;
use vstd::string::StringExecFns;

verus! {

/// What the tasks stand for, in order.
pub open spec fn task_views(tasks: Seq<Task>) -> Seq<TaskView> {
    tasks.map_values(|task: Task| task@)
}

/// What the days stand for, in order.
pub open spec fn day_views(days: Seq<Day>) -> Seq<DayView> {
    days.map_values(|day: Day| day@)
}

/// The tasks and the days of one month, each in the order of the document.
#[derive(Clone, Debug, PartialEq, Eq)]
pub struct Month {
    tasks: Vec<Task>,
    days: Vec<Day>,
}

impl View for Month {
    type V = MonthView;

    closed spec fn view(&self) -> MonthView {
        MonthView { tasks: task_views(self.tasks@), days: day_views(self.days@) }
    }
}

/// Where in the document a scan is.
#[derive(Clone, Debug, PartialEq, Eq)]
pub enum Mode {
    /// Outside the day section.
    Normal,
    /// Inside the day section, under the given day if one was opened.
    InDaySection(Option<Day>),
}

impl View for Mode {
    type V = ModeView;

    open spec fn view(&self) -> ModeView {
        match self {
            Mode::Normal => ModeView::Normal,
            Mode::InDaySection(Some(day)) => ModeView::InDaySection(Some(day@)),
            Mode::InDaySection(None) => ModeView::InDaySection(None),
        }
    }
}

/// A scan in progress: what was gathered so far from the lines it was given, and where in
/// the document it is.
#[derive(Clone, Debug, PartialEq, Eq)]
pub struct Parser {
    tasks: Vec<Task>,
    days: Vec<Day>,
    mode: Mode,
}

impl View for Parser {
    type V = ScanView;

    closed spec fn view(&self) -> ScanView {
        ScanView {
            tasks: task_views(self.tasks@),
            days: day_views(self.days@),
            mode: self.mode@,
        }
    }
}

/// The day that a day header names, for a header whose characters are at hand.
fn day_from_header(chars: &[char]) -> (r: Result<Day, ErrorKind>)
    ensures
        match r {
            Ok(day) => date_of_header(chars@) == Ok::<DateView, ErrorKind>(day@.date)
                && day@.events == Seq::<Seq<char>>::empty(),
            Err(e) => date_of_header(chars@) == Err::<DateView, ErrorKind>(e),
        },
{
    if chars.len() < 28 || !starts_with(chars, "### [[") {
        return Err(ErrorKind::MalformedDayHeader);
    }
    Day::from_link_target(slice_subrange(chars, 6, 28))
}

impl Parser {
    /// A scan that has read nothing yet.
    pub fn new() -> (parser: Parser)
        ensures
            parser@ == initial(),
    {
        let parser = Parser { tasks: Vec::new(), days: Vec::new(), mode: Mode::Normal };
        assert(parser@.tasks =~= Seq::empty());
        assert(parser@.days =~= Seq::empty());
        parser
    }

    /// Reads one more line. The white space around the line does not count. The scan that
    /// comes back has taken the line in; where the line is a day header, met inside the day
    /// section, that names no date, the scan is given up and the reason comes back.
    pub fn step(self, line: &str) -> (r: Result<Parser, ErrorKind>)
        ensures
            match r {
                Ok(parser) => step(self@, trim(line@)) == Ok::<ScanView, ErrorKind>(parser@),
                Err(kind) => step(self@, trim(line@)) == Err::<ScanView, ErrorKind>(kind),
            },
    {
        let all = chars_of(line);
        let (start, end) = trim_bounds(all.as_slice());
        let chars = slice_subrange(all.as_slice(), start, end);
        let text = line.substring_char(start, end);
        assert(chars@ == trim(line@) && text@ == chars@);
        let kind = classify_chars(chars);
        let ghost before = self@;
        let Parser { tasks, days, mode } = self;
        let mut tasks = tasks;
        let mut days = days;
        match mode {
            Mode::Normal => match kind {
                LineKind::Task => {
                    let task = task_from_chars(text, chars);
                    tasks.push(task);
                    let parser = Parser { tasks, days, mode: Mode::Normal };
                    assert(parser@.tasks =~= before.tasks.push(task@));
                    Ok(parser)
                },
                LineKind::SectionHeader(Section::Days) => Ok(
                    Parser { tasks, days, mode: Mode::InDaySection(None) },
                ),
                _ => Ok(Parser { tasks, days, mode: Mode::Normal }),
            },
            Mode::InDaySection(current) => match kind {
                LineKind::SectionHeader(_) => {
                    if let Some(day) = current {
                        days.push(day);
                        assert(day_views(days@) =~= before.days.push(day@));
                    }
                    Ok(Parser { tasks, days, mode: Mode::Normal })
                },
                LineKind::DayHeader => match day_from_header(chars) {
                    Err(kind) => Err(kind),
                    Ok(opened) => {
                        if let Some(day) = current {
                            days.push(day);
                            assert(day_views(days@) =~= before.days.push(day@));
                        }
                        Ok(Parser { tasks, days, mode: Mode::InDaySection(Some(opened)) })
                    },
                },
                LineKind::Task => match current {
                    Some(day) => {
                        let mut task = task_from_chars(text, chars);
                        task.date = Some(day.date());
                        tasks.push(task);
                        let parser = Parser { tasks, days, mode: Mode::InDaySection(Some(day)) };
                        assert(parser@.tasks =~= before.tasks.push(task@));
                        Ok(parser)
                    },
                    None => Ok(Parser { tasks, days, mode: Mode::InDaySection(None) }),
                },
                LineKind::Freeform => match current {
                    Some(day) => {
                        proof {
                            reveal_strlit("- ");
                        }
                        let mut day = day;
                        let event = text.substring_char(2, chars.len());
                        assert(event@ == event_of_line(chars@));
                        day.add_event(String::from_str(event));
                        Ok(Parser { tasks, days, mode: Mode::InDaySection(Some(day)) })
                    },
                    None => Ok(Parser { tasks, days, mode: Mode::InDaySection(None) }),
                },
                _ => Ok(Parser { tasks, days, mode: Mode::InDaySection(current) }),
            },
        }
    }

    /// Ends the scan: the day that is still open, if there is one, joins the days.
    pub fn finish(self) -> (month: Month)
        ensures
            month@ == finish(self@),
    {
        let ghost before = self@;
        let Parser { tasks, days, mode } = self;
        let mut days = days;
        if let Mode::InDaySection(Some(day)) = mode {
            days.push(day);
            assert(day_views(days@) =~= before.days.push(day@));
        }
        Month { tasks, days }
    }

    /// Where in the document the scan is.
    pub fn mode(&self) -> (mode: &Mode)
        ensures
            mode@ == self@.mode,
    {
        &self.mode
    }
}

/// Cuts a text at its first line feed, with std's `str::split_once`. The contract claims
/// what the documentation of `split_once` says: `None` if the text has no line feed; else the
/// text before the first line feed, which therefore holds none, and the text after it.
#[verifier::external_body]
fn split_at_line_feed<'a>(text: &'a str) -> (r: Option<(&'a str, &'a str)>)
    ensures
        r is None <==> !text@.contains('\n'),
        r matches Some((head, tail)) ==> !head@.contains('\n') && text@ == head@ + seq!['\n']
            + tail@,
{
    text.split_once('\n')
}

impl Month {
    /// Reads a whole document. The text is cut into lines at its line feeds, and the lines
    /// are read in order, each without the white space around it. What comes back is the
    /// month that the scan leaves after the last line, or, if a line stopped the scan, the
    /// number of the first such line, the line itself and the reason.
    pub fn new(text: &str) -> (r: Result<Month, ParseError>)
        ensures
            match r {
                Ok(month) => parse(text@) == Ok::<MonthView, ParseErrorView>(month@),
                Err(error) => parse(text@) == Err::<MonthView, ParseErrorView>(error@),
            },
    {
        let ghost lines = split_lines(text@);
        // The length of the text bounds the line numbers: a line that stops the scan is not
        // empty, so its number is no greater than the number of characters up to its end.
        let total = text.unicode_len();
        let mut parser = Parser::new();
        let mut rest = text;
        let mut count: usize = 0;
        loop
            invariant
                count + rest@.len() <= total,
                count < lines.len(),
                split_lines(rest@) == lines.skip(count as int),
                state_after(lines, count as nat) == Ok::<ScanView, ParseErrorView>(parser@),
                lines == split_lines(text@),
            decreases rest@.len(),
        {
            let cut = split_at_line_feed(rest);
            let line = match cut {
                Some((head, _)) => head,
                None => rest,
            };
            proof {
                match cut {
                    Some((head, tail)) => lemma_first_line(rest@, head@, tail@),
                    None => lemma_last_line(rest@),
                }
                assert(lines.skip(count as int)[0] == lines[count as int]);
                assert(line@ == lines[count as int]);
            }
            match parser.step(line) {
                Err(kind) => {
                    proof {
                        reveal_strlit("### [[");
                        lemma_trim_is_tight(line@);
                        assert(kind_of(trim(line@)) == LineKind::DayHeader);
                        assert(line@.len() >= 6);
                        lemma_error_stays(lines, (count + 1) as nat, lines.len());
                    }
                    return Err(ParseError { line_number: count + 1, content: trimmed(line), kind });
                },
                Ok(next) => {
                    parser = next;
                },
            }
            match cut {
                Some((_, tail)) => {
                    assert(lines.skip(count as int).skip(1) =~= lines.skip(count + 1));
                    assert((seq![line@] + split_lines(tail@)).skip(1) =~= split_lines(tail@));
                    rest = tail;
                    count += 1;
                },
                None => {
                    assert(lines.skip(count as int).len() == 1);
                    return Ok(parser.finish());
                },
            }
        }
    }

    /// The tasks, in the order of the document.
    pub fn tasks(&self) -> (tasks: &Vec<Task>)
        ensures
            task_views(tasks@) == self@.tasks,
    {
        &self.tasks
    }

    /// The days, in the order of the document.
    pub fn days(&self) -> (days: &Vec<Day>)
        ensures
            day_views(days@) == self@.days,
    {
        &self.days
    }
}

} // verus!
