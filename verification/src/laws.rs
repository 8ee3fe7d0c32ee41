//! What holds of every document: how the tasks, the days and the events of the month that a
//! scan leaves follow from the lines, and when a scan stops.
//!
//! The lines are followed here by three simple readings that know nothing of tasks and
//! events: whether the day section is open at a line, which day is open at it, and whether
//! the line is a day header that names no date. The laws say what the scan of
//! [`crate::scan`] gives in terms of these.

use crate::date::DateView;
use crate::day::DayView;
use crate::error::ErrorKind;
use crate::error::ParseErrorView;
use crate::grammar::date_of_header;
use crate::grammar::event_of_line;
use crate::grammar::is_task_line;
use crate::grammar::kind_of;
use crate::grammar::task_of_line;
use crate::grammar::LineKind;
use crate::grammar::Section;
use crate::scan::flushed;
use crate::scan::lemma_error_stays;
use crate::scan::parse_lines;
use crate::scan::state_after;
use crate::scan::step;
use crate::scan::ModeView;
use crate::scan::MonthView;
use crate::scan::ScanView;
use crate::task::TaskView;
use crate::text::trim;
use vstd::prelude::*;

verus! {

/// Whether the day section is open once the first `n` lines are read: it opens at a line
/// `## Days` met outside it, and closes at any section header met inside it.
pub open spec fn in_day_section(lines: Seq<Seq<char>>, n: nat) -> bool
    decreases n,
{
    if n == 0 {
        false
    } else {
        let kind = kind_of(trim(lines[n - 1]));
        if in_day_section(lines, (n - 1) as nat) {
            !(kind is SectionHeader)
        } else {
            kind == LineKind::SectionHeader(Section::Days)
        }
    }
}

/// Whether line `i`, counted from 0, is a day header that stands in the day section.
pub open spec fn is_header_met(lines: Seq<Seq<char>>, i: nat) -> bool {
    in_day_section(lines, i) && kind_of(trim(lines[i as int])) == LineKind::DayHeader
}

/// Whether line `i`, counted from 0, is a day header that stands in the day section and
/// names no date.
pub open spec fn is_bad_header(lines: Seq<Seq<char>>, i: nat) -> bool {
    is_header_met(lines, i) && date_of_header(trim(lines[i as int])) is Err
}

/// Whether none of the first `n` lines is a day header that stands in the day section and
/// names no date.
pub open spec fn headers_are_sound(lines: Seq<Seq<char>>, n: nat) -> bool {
    forall|i: nat| i < n ==> !#[trigger] is_bad_header(lines, i)
}

/// The date of the day that is open once the first `n` lines are read: that of the last day
/// header met in the day section, unless a section header came after it.
pub open spec fn open_day(lines: Seq<Seq<char>>, n: nat) -> Option<DateView>
    decreases n,
{
    if n == 0 {
        None
    } else if !in_day_section(lines, (n - 1) as nat) {
        None
    } else {
        let line = trim(lines[n - 1]);
        match kind_of(line) {
            LineKind::SectionHeader(_) => None,
            LineKind::DayHeader => match date_of_header(line) {
                Ok(date) => Some(date),
                Err(_) => None,
            },
            _ => open_day(lines, (n - 1) as nat),
        }
    }
}

/// The task that line `i`, counted from 0, gives: a checklist entry outside the day section
/// gives a task without a date, one under an open day gives a task of that day, and no other
/// line gives a task.
pub open spec fn task_at(lines: Seq<Seq<char>>, i: nat) -> Option<TaskView> {
    let line = trim(lines[i as int]);
    if kind_of(line) != LineKind::Task {
        None
    } else if !in_day_section(lines, i) {
        Some(task_of_line(line))
    } else {
        match open_day(lines, i) {
            Some(date) => Some(TaskView { date: Some(date), ..task_of_line(line) }),
            None => None,
        }
    }
}

/// The tasks that the first `n` lines give, in order.
pub open spec fn tasks_met(lines: Seq<Seq<char>>, n: nat) -> Seq<TaskView>
    decreases n,
{
    if n == 0 {
        Seq::empty()
    } else {
        let before = tasks_met(lines, (n - 1) as nat);
        match task_at(lines, (n - 1) as nat) {
            Some(task) => before.push(task),
            None => before,
        }
    }
}

/// The days that the first `n` lines give, in order, the open day among them: a day header
/// met in the day section gives a day without events, and a freeform line under an open day
/// gives that day, which is the last one, one more event.
pub open spec fn days_met(lines: Seq<Seq<char>>, n: nat) -> Seq<DayView>
    decreases n,
{
    if n == 0 {
        Seq::empty()
    } else {
        let before = days_met(lines, (n - 1) as nat);
        let line = trim(lines[n - 1]);
        if is_header_met(lines, (n - 1) as nat) {
            match date_of_header(line) {
                Ok(date) => before.push(DayView { date, events: Seq::empty() }),
                Err(_) => before,
            }
        } else if kind_of(line) == LineKind::Freeform && open_day(lines, (n - 1) as nat) is Some {
            before.update(
                before.len() - 1,
                DayView {
                    date: before.last().date,
                    events: before.last().events.push(event_of_line(line)),
                },
            )
        } else {
            before
        }
    }
}

/// The day under which a scan in the given mode is.
pub open spec fn current_day(mode: ModeView) -> Option<DayView> {
    match mode {
        ModeView::InDaySection(current) => current,
        ModeView::Normal => None,
    }
}

/// Whether the state of a scan is the one that the three readings of the first `n` lines
/// give.
pub open spec fn follows(lines: Seq<Seq<char>>, n: nat, state: ScanView) -> bool {
    &&& state.tasks == tasks_met(lines, n)
    &&& flushed(state.days, current_day(state.mode)) == days_met(lines, n)
    &&& (state.mode is InDaySection) == in_day_section(lines, n)
    &&& open_day(lines, n) == match current_day(state.mode) {
        Some(day) => Some(day.date),
        None => None,
    }
}

/// As long as no day header that names no date was met in the day section, the scan goes on,
/// and its state is the one that the readings of the lines give.
pub proof fn lemma_scan_follows(lines: Seq<Seq<char>>, n: nat)
    requires
        n <= lines.len(),
        headers_are_sound(lines, n),
    ensures
        state_after(lines, n) matches Ok(state) && follows(lines, n, state),
    decreases n,
{
    if n == 0 {
    } else {
        let m = (n - 1) as nat;
        assert forall|i: nat| i < m implies !#[trigger] is_bad_header(lines, i) by {}
        lemma_scan_follows(lines, m);
        let before = state_after(lines, m)->Ok_0;
        let line = trim(lines[n - 1]);
        assert(!is_bad_header(lines, m));
        let after = step(before, line)->Ok_0;
        match before.mode {
            ModeView::Normal => {},
            ModeView::InDaySection(current) => {
                match kind_of(line) {
                    LineKind::Freeform => {
                        match current {
                            Some(day) => {
                                let days = days_met(lines, m);
                                assert(days == before.days.push(day));
                                assert(days.last() == day);
                                assert(flushed(after.days, current_day(after.mode)) =~= days_met(
                                    lines,
                                    n,
                                ));
                            },
                            None => {},
                        }
                    },
                    _ => {},
                }
            },
        }
    }
}

/// The dates that the day headers among the first `n` lines name, in order: one for each day
/// header that stands in the day section.
pub open spec fn headers_met(lines: Seq<Seq<char>>, n: nat) -> Seq<DateView>
    decreases n,
{
    if n == 0 {
        Seq::empty()
    } else {
        let before = headers_met(lines, (n - 1) as nat);
        if is_header_met(lines, (n - 1) as nat) {
            match date_of_header(trim(lines[n - 1])) {
                Ok(date) => before.push(date),
                Err(_) => before,
            }
        } else {
            before
        }
    }
}

/// The open day is the last of the days that the lines gave.
pub proof fn lemma_open_day_is_the_last_day(lines: Seq<Seq<char>>, n: nat)
    ensures
        open_day(lines, n) matches Some(date) ==> days_met(lines, n).len() > 0 && days_met(
            lines,
            n,
        ).last().date == date,
    decreases n,
{
    if n > 0 {
        lemma_open_day_is_the_last_day(lines, (n - 1) as nat);
    }
}

/// The dates of the days, in order.
pub open spec fn dates_of(days: Seq<DayView>) -> Seq<DateView> {
    days.map_values(|day: DayView| day.date)
}

/// The days that the lines give have the dates that the day headers name, one day for each
/// header.
pub proof fn lemma_days_have_the_dates_of_the_headers(lines: Seq<Seq<char>>, n: nat)
    ensures
        dates_of(days_met(lines, n)) == headers_met(lines, n),
    decreases n,
{
    if n == 0 {
        assert(dates_of(days_met(lines, n)) =~= headers_met(lines, n));
    } else {
        lemma_days_have_the_dates_of_the_headers(lines, (n - 1) as nat);
        lemma_open_day_is_the_last_day(lines, (n - 1) as nat);
        let before = days_met(lines, (n - 1) as nat);
        assert(dates_of(before) == headers_met(lines, (n - 1) as nat));
        assert(dates_of(before).len() == before.len());
        assert forall|k: int| 0 <= k < before.len() implies dates_of(before)[k]
            == before[k].date by {}
        assert(dates_of(days_met(lines, n)) =~= headers_met(lines, n));
    }
}

/// If some day header among the first `n` lines stands in the day section and names no date,
/// there is a first one.
pub proof fn lemma_first_bad_header(lines: Seq<Seq<char>>, n: nat) -> (i: nat)
    requires
        !headers_are_sound(lines, n),
    ensures
        i < n,
        is_bad_header(lines, i),
        headers_are_sound(lines, i),
    decreases n,
{
    if n == 0 {
        0
    } else if headers_are_sound(lines, (n - 1) as nat) {
        (n - 1) as nat
    } else {
        lemma_first_bad_header(lines, (n - 1) as nat)
    }
}

/// A document is read to its end exactly if none of its day headers that stand in the day
/// section is out of shape or names a date that the calendar lacks. The month that is left
/// then holds the tasks and the days that the lines give, in the order of the lines.
pub proof fn law_scan_succeeds(lines: Seq<Seq<char>>)
    ensures
        parse_lines(lines) is Ok <==> headers_are_sound(lines, lines.len()),
        parse_lines(lines) matches Ok(month) ==> month.tasks == tasks_met(lines, lines.len())
            && month.days == days_met(lines, lines.len()),
{
    if headers_are_sound(lines, lines.len()) {
        lemma_scan_follows(lines, lines.len());
    } else {
        let i = lemma_first_bad_header(lines, lines.len());
        law_scan_stops_at_the_first_bad_header(lines, i);
    }
}

/// A scan stops at the first day header that stands in the day section and names no date:
/// it reports the number of that line, the line without the white space around it, and
/// whether the header is out of shape or the calendar lacks the date.
pub proof fn law_scan_stops_at_the_first_bad_header(lines: Seq<Seq<char>>, i: nat)
    requires
        i < lines.len(),
        headers_are_sound(lines, i),
        is_bad_header(lines, i),
    ensures
        parse_lines(lines) == Err::<MonthView, ParseErrorView>(
            ParseErrorView {
                line_number: (i + 1) as int,
                content: trim(lines[i as int]),
                kind: date_of_header(trim(lines[i as int]))->Err_0,
            },
        ),
{
    lemma_scan_follows(lines, i);
    assert(state_after(lines, i + 1) is Err);
    lemma_error_stays(lines, i + 1, lines.len());
}

/// A document whose day headers in the day section all name a date gives exactly one day
/// for each of them: as many days as headers, with the dates of the headers, in the order of
/// the headers.
pub proof fn law_one_day_for_each_header(lines: Seq<Seq<char>>)
    requires
        headers_are_sound(lines, lines.len()),
    ensures
        parse_lines(lines) matches Ok(month) && dates_of(month.days) == headers_met(
            lines,
            lines.len(),
        ),
        parse_lines(lines)->Ok_0.days.len() == headers_met(lines, lines.len()).len(),
{
    law_scan_succeeds(lines);
    lemma_days_have_the_dates_of_the_headers(lines, lines.len());
    assert(dates_of(days_met(lines, lines.len())).len() == days_met(lines, lines.len()).len());
}

/// Before the first line `## Days` the day section is closed.
pub proof fn lemma_closed_before_the_day_section(lines: Seq<Seq<char>>, n: nat)
    requires
        forall|j: int|
            0 <= j < n ==> kind_of(trim(#[trigger] lines[j])) != LineKind::SectionHeader(
                Section::Days,
            ),
    ensures
        !in_day_section(lines, n),
        open_day(lines, n) is None,
    decreases n,
{
    if n > 0 {
        lemma_closed_before_the_day_section(lines, (n - 1) as nat);
    }
}

/// Whether no section header and no day header stands between line `h` and line `n`, both
/// counted from 0 and neither of the two among them.
pub open spec fn no_header_between(lines: Seq<Seq<char>>, h: nat, n: nat) -> bool {
    forall|j: int|
        h < j < n ==> !(kind_of(trim(#[trigger] lines[j])) is SectionHeader) && kind_of(
            trim(lines[j]),
        ) != LineKind::DayHeader
}

/// A day that a header opened stays open until the next section header or day header, and
/// until then it is the last of the days.
pub proof fn lemma_day_stays_open(lines: Seq<Seq<char>>, h: nat, n: nat, date: DateView)
    requires
        h < n,
        is_header_met(lines, h),
        date_of_header(trim(lines[h as int])) == Ok::<DateView, ErrorKind>(date),
        no_header_between(lines, h, n),
    ensures
        in_day_section(lines, n),
        open_day(lines, n) == Some(date),
        days_met(lines, n).len() == days_met(lines, h).len() + 1,
        days_met(lines, n).last().date == date,
    decreases n,
{
    if n > h + 1 {
        lemma_day_stays_open(lines, h, (n - 1) as nat, date);
    }
}

/// A task that a line gives stays among the tasks.
pub proof fn lemma_task_stays(lines: Seq<Seq<char>>, i: nat, n: nat)
    requires
        i < n,
        task_at(lines, i) is Some,
    ensures
        tasks_met(lines, n).contains(task_at(lines, i)->Some_0),
    decreases n,
{
    let task = task_at(lines, i)->Some_0;
    let before = tasks_met(lines, (n - 1) as nat);
    if i + 1 == n {
        assert(before.push(task)[before.len() as int] == task);
    } else {
        lemma_task_stays(lines, i, (n - 1) as nat);
        let k = choose|k: int| 0 <= k < before.len() && before[k] == task;
        assert(tasks_met(lines, n)[k] == task);
    }
}

/// A day that the lines gave stays where it is among the days, with its date and with the
/// events that it has.
pub proof fn lemma_day_stays(lines: Seq<Seq<char>>, n: nat, m: nat, k: int, event: Seq<char>)
    requires
        n <= m,
        0 <= k < days_met(lines, n).len(),
    ensures
        k < days_met(lines, m).len(),
        days_met(lines, m)[k].date == days_met(lines, n)[k].date,
        days_met(lines, n)[k].events.contains(event) ==> days_met(lines, m)[k].events.contains(
            event,
        ),
    decreases m,
{
    if n < m {
        lemma_day_stays(lines, n, (m - 1) as nat, k, event);
        let before = days_met(lines, (m - 1) as nat);
        if before[k].events.contains(event) {
            let e = choose|e: int| 0 <= e < before[k].events.len() && before[k].events[e] == event;
            let line = trim(lines[m - 1]);
            assert(before[k].events.push(event_of_line(line))[e] == event);
            assert(days_met(lines, m)[k].events[e] == event);
        }
    }
}

/// A checklist entry that stands before the first line `## Days` gives a task without a
/// date.
pub proof fn law_task_before_the_day_section(lines: Seq<Seq<char>>, i: nat)
    requires
        i < lines.len(),
        headers_are_sound(lines, lines.len()),
        is_task_line(trim(lines[i as int])),
        forall|j: int|
            0 <= j < i ==> kind_of(trim(#[trigger] lines[j])) != LineKind::SectionHeader(
                Section::Days,
            ),
    ensures
        parse_lines(lines) matches Ok(month) && month.tasks.contains(
            task_of_line(trim(lines[i as int])),
        ),
        task_of_line(trim(lines[i as int])).date is None,
{
    law_check_mark_decides(trim(lines[i as int]));
    lemma_closed_before_the_day_section(lines, i);
    law_scan_succeeds(lines);
    lemma_task_stays(lines, i, lines.len());
}

/// A checklist entry that stands under a day header, with no section header and no other
/// day header between the two, gives a task with the date of that day.
pub proof fn law_task_under_a_day(lines: Seq<Seq<char>>, h: nat, i: nat, date: DateView)
    requires
        h < i < lines.len(),
        headers_are_sound(lines, lines.len()),
        is_header_met(lines, h),
        date_of_header(trim(lines[h as int])) == Ok::<DateView, ErrorKind>(date),
        no_header_between(lines, h, i),
        is_task_line(trim(lines[i as int])),
    ensures
        parse_lines(lines) matches Ok(month) && month.tasks.contains(
            TaskView { date: Some(date), ..task_of_line(trim(lines[i as int])) },
        ),
{
    law_check_mark_decides(trim(lines[i as int]));
    lemma_day_stays_open(lines, h, i, date);
    law_scan_succeeds(lines);
    lemma_task_stays(lines, i, lines.len());
}

/// A freeform line that stands under a day header, with no section header and no other day
/// header between the two, is an event of that day, which is the day that the header gave:
/// as many days come before it as headers were met before that header.
pub proof fn law_event_under_a_day(lines: Seq<Seq<char>>, h: nat, i: nat, date: DateView)
    requires
        h < i < lines.len(),
        headers_are_sound(lines, lines.len()),
        is_header_met(lines, h),
        date_of_header(trim(lines[h as int])) == Ok::<DateView, ErrorKind>(date),
        no_header_between(lines, h, i),
        kind_of(trim(lines[i as int])) == LineKind::Freeform,
    ensures
        parse_lines(lines) matches Ok(month) && ({
            let k = headers_met(lines, h).len() as int;
            &&& k < month.days.len()
            &&& month.days[k].date == date
            &&& month.days[k].events.contains(event_of_line(trim(lines[i as int])))
        }),
{
    let event = event_of_line(trim(lines[i as int]));
    let k = headers_met(lines, h).len() as int;
    lemma_days_have_the_dates_of_the_headers(lines, h);
    assert(dates_of(days_met(lines, h)).len() == days_met(lines, h).len());
    lemma_day_stays_open(lines, h, i, date);
    let before = days_met(lines, i);
    let after = days_met(lines, i + 1);
    assert(after[k].events == before[k].events.push(event));
    assert(after[k].events[before[k].events.len() as int] == event);
    law_scan_succeeds(lines);
    lemma_day_stays(lines, i + 1, lines.len(), k, event);
}

/// Nothing but a day header met inside the day section stops a scan, and it does so exactly
/// if it names no date: it is out of shape, or the calendar lacks the date.
pub proof fn law_only_a_day_header_stops_a_scan(state: ScanView, line: Seq<char>)
    ensures
        step(state, line) is Err <==> state.mode is InDaySection && kind_of(line)
            == LineKind::DayHeader && date_of_header(line) is Err,
        step(state, line) matches Err(kind) ==> date_of_header(line) == Err::<
            DateView,
            ErrorKind,
        >(kind) && (kind == ErrorKind::MalformedDayHeader || kind == ErrorKind::InvalidDate),
{
}

/// A freeform line counts under an open day only: there it becomes the last event of the
/// day, and in every other state of the scan it changes nothing.
pub proof fn law_freeform_line_counts_under_an_open_day_only(state: ScanView, line: Seq<char>)
    requires
        kind_of(line) == LineKind::Freeform,
    ensures
        match state.mode {
            ModeView::InDaySection(Some(day)) => step(state, line) == Ok::<ScanView, ErrorKind>(
                ScanView {
                    mode: ModeView::InDaySection(
                        Some(
                            DayView {
                                date: day.date,
                                events: day.events.push(event_of_line(line)),
                            },
                        ),
                    ),
                    ..state
                },
            ),
            _ => step(state, line) == Ok::<ScanView, ErrorKind>(state),
        },
{
}

/// The scan of the first `n` lines looks at no other line.
pub proof fn lemma_scan_reads_a_prefix(first: Seq<Seq<char>>, second: Seq<Seq<char>>, n: nat)
    requires
        n <= first.len(),
        n <= second.len(),
        forall|j: int| 0 <= j < n ==> first[j] == second[j],
    ensures
        state_after(first, n) == state_after(second, n),
    decreases n,
{
    if n > 0 {
        lemma_scan_reads_a_prefix(first, second, (n - 1) as nat);
    }
}

/// Past a line that changed nothing, the scan is where it would be without the line.
proof fn lemma_scan_without_an_idle_line(lines: Seq<Seq<char>>, i: nat, n: nat)
    requires
        i <= n < lines.len(),
        state_after(lines, i + 1) == state_after(lines, i),
        state_after(lines, n + 1) is Ok,
    ensures
        state_after(lines.remove(i as int), n) == state_after(lines, n + 1),
    decreases n,
{
    let without = lines.remove(i as int);
    if n == i {
        lemma_scan_reads_a_prefix(without, lines, i);
    } else {
        if state_after(lines, n) is Err {
            lemma_error_stays(lines, n, n + 1);
        }
        lemma_scan_without_an_idle_line(lines, i, (n - 1) as nat);
        assert(without[n - 1] == lines[n as int]);
    }
}

/// A freeform line that stands under no open day is passed over: the document gives the
/// same month with the line and without it.
pub proof fn law_freeform_line_outside_a_day_is_passed_over(lines: Seq<Seq<char>>, i: nat)
    requires
        i < lines.len(),
        headers_are_sound(lines, lines.len()),
        kind_of(trim(lines[i as int])) == LineKind::Freeform,
        open_day(lines, i) is None,
    ensures
        parse_lines(lines) is Ok,
        parse_lines(lines.remove(i as int)) == parse_lines(lines),
{
    law_scan_succeeds(lines);
    assert forall|k: nat| k < i implies !#[trigger] is_bad_header(lines, k) by {}
    lemma_scan_follows(lines, i);
    assert(state_after(lines, i + 1) == state_after(lines, i));
    lemma_scan_without_an_idle_line(lines, i, (lines.len() - 1) as nat);
}

/// A freeform line that stands before the first line `## Days` is passed over: the document
/// gives the same month with the line and without it.
pub proof fn law_freeform_line_before_the_day_section_is_passed_over(
    lines: Seq<Seq<char>>,
    i: nat,
)
    requires
        i < lines.len(),
        headers_are_sound(lines, lines.len()),
        kind_of(trim(lines[i as int])) == LineKind::Freeform,
        forall|j: int|
            0 <= j < i ==> kind_of(trim(#[trigger] lines[j])) != LineKind::SectionHeader(
                Section::Days,
            ),
    ensures
        parse_lines(lines) is Ok,
        parse_lines(lines.remove(i as int)) == parse_lines(lines),
{
    lemma_closed_before_the_day_section(lines, i);
    law_freeform_line_outside_a_day_is_passed_over(lines, i);
}

/// Every date that the lines give is a day of the calendar.
pub proof fn lemma_dates_met_are_real(lines: Seq<Seq<char>>, n: nat)
    ensures
        open_day(lines, n) matches Some(date) ==> date.is_valid(),
        forall|k: int|
            0 <= k < days_met(lines, n).len() ==> (#[trigger] days_met(
                lines,
                n,
            )[k]).date.is_valid(),
        forall|k: int|
            0 <= k < tasks_met(lines, n).len() ==> ((#[trigger] tasks_met(
                lines,
                n,
            )[k]).date matches Some(date) ==> date.is_valid()),
    decreases n,
{
    if n > 0 {
        lemma_dates_met_are_real(lines, (n - 1) as nat);
        lemma_open_day_is_the_last_day(lines, (n - 1) as nat);
        let before = days_met(lines, (n - 1) as nat);
        let after = days_met(lines, n);
        assert forall|k: int| 0 <= k < after.len() implies (#[trigger] after[k]).date.is_valid(
        ) by {
            if k < before.len() {
                assert(after[k].date == before[k].date);
            }
        }
    }
}

/// Every date in the month that a document gives is a day of the calendar: that of each day,
/// and that of each task that has one.
pub proof fn law_dates_are_real(lines: Seq<Seq<char>>)
    ensures
        parse_lines(lines) matches Ok(month) ==> {
            &&& forall|k: int|
                0 <= k < month.days.len() ==> (#[trigger] month.days[k]).date.is_valid()
            &&& forall|k: int|
                0 <= k < month.tasks.len() ==> ((#[trigger] month.tasks[k]).date matches Some(
                    date,
                ) ==> date.is_valid())
        },
{
    law_scan_succeeds(lines);
    lemma_dates_met_are_real(lines, lines.len());
}

/// What stands between the brackets decides: a line that starts with `- [`, one character
/// and `]` is a checklist entry exactly if the character is `x`, `X` or a space; the task is
/// completed exactly if it is `x` or `X`; and so the line is told from other lines.
pub proof fn law_check_mark_decides(line: Seq<char>)
    ensures
        is_task_line(line) <==> line.len() >= 5 && line[0] == '-' && line[1] == ' ' && line[2]
            == '[' && line[4] == ']' && (line[3] == 'x' || line[3] == 'X' || line[3] == ' '),
        is_task_line(line) ==> (task_of_line(line).completed <==> line[3] == 'x' || line[3]
            == 'X'),
        is_task_line(line) && line[3] == ' ' ==> !task_of_line(line).completed,
        kind_of(line) == LineKind::Task <==> is_task_line(line),
{
    reveal_strlit("## ");
    if is_task_line(line) {
        assert("## "@[0] != line[0]);
        assert(line.subrange(0, 3)[0] == line[0]);
    }
}

} // verus!
