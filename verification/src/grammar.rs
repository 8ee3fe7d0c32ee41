//! The shapes of line that a notes document is made of, and what each one holds.

use crate::date::is_calendar_date;
use crate::date::DateView;
use crate::error::ErrorKind;
use crate::task::TaskView;
use crate::text::chars_of;
use crate::text::same_text;
use crate::text::starts_with;
use crate::text::trim;
use vstd::slice::slice_subrange;
use vstd::prelude::*;

verus! {

/// The name that a section header gives.
#[derive(Clone, Copy, Debug, PartialEq, Eq, Structural)]
pub enum Section {
    /// The section that holds the days: its header is `## Days`.
    Days,
    /// Any other section.
    Other,
}

/// The shape of one line.
#[derive(Clone, Copy, Debug, PartialEq, Eq, Structural)]
pub enum LineKind {
    /// Starts with `## `.
    SectionHeader(Section),
    /// A checklist entry: `- [ ] `, `- [x] ` or `- [X] ` and a text.
    Task,
    /// Starts with `### [[`.
    DayHeader,
    /// Starts with `- ` and is no checklist entry.
    Freeform,
    /// Has no character.
    Blank,
    /// Anything else.
    Other,
}

/// Whether `c` may stand between the brackets of a checklist entry.
pub open spec fn is_check_mark(c: char) -> bool {
    c == 'x' || c == 'X' || c == ' '
}

/// Whether `line` is a checklist entry: `- [`, one of `x`, `X` and a space, `]`, then any text.
pub open spec fn is_task_line(line: Seq<char>) -> bool {
    &&& line.len() >= 5
    &&& line[0] == '-'
    &&& line[1] == ' '
    &&& line[2] == '['
    &&& is_check_mark(line[3])
    &&& line[4] == ']'
}

/// The task that a checklist entry holds. It stands under no day yet.
pub open spec fn task_of_line(line: Seq<char>) -> TaskView {
    TaskView {
        value: trim(line.skip(5)),
        completed: line[3] == 'x' || line[3] == 'X',
        date: None,
    }
}

/// Whether `c` is one of the digits `0` to `9`.
pub open spec fn is_digit(c: char) -> bool {
    0x30 <= c as u32 <= 0x39
}

/// The number that the digit `c` stands for.
pub open spec fn digit_value(c: char) -> int {
    c as u32 - 0x30
}

/// Whether `s` holds digits only.
pub open spec fn all_digits(s: Seq<char>) -> bool {
    forall|i: int| 0 <= i < s.len() ==> is_digit(#[trigger] s[i])
}

/// The number that the digits `s` write in base ten.
pub open spec fn decimal(s: Seq<char>) -> int
    decreases s.len(),
{
    if s.len() == 0 {
        0
    } else {
        10 * decimal(s.drop_last()) + digit_value(s.last())
    }
}

/// Whether `s` is a link target of the shape `Daily Notes/YYYY-MM-DD`, with nothing before
/// and nothing after.
pub open spec fn is_link_target(s: Seq<char>) -> bool {
    &&& s.len() == 22
    &&& s.subrange(0, 12) == "Daily Notes/"@
    &&& all_digits(s.subrange(12, 16))
    &&& s[16] == '-'
    &&& all_digits(s.subrange(17, 19))
    &&& s[19] == '-'
    &&& all_digits(s.subrange(20, 22))
}

/// The year, the month and the day that a link target writes.
pub open spec fn link_target_numbers(s: Seq<char>) -> (int, int, int) {
    (decimal(s.subrange(12, 16)), decimal(s.subrange(17, 19)), decimal(s.subrange(20, 22)))
}

/// Whether `line` is a day header in good shape: `### [[`, then a link target. What follows
/// the link target, a `|` and a display text as a rule, is not looked at.
pub open spec fn is_day_header_line(line: Seq<char>) -> bool {
    &&& "### [["@.is_prefix_of(line)
    &&& line.len() >= 28
    &&& is_link_target(line.subrange(6, 28))
}

/// The link target of a day header in good shape.
pub open spec fn link_target_of_line(line: Seq<char>) -> Seq<char> {
    line.subrange(6, 28)
}

/// The date that a link target names, or why it names none.
pub open spec fn date_of_link_target(path: Seq<char>) -> Result<DateView, ErrorKind> {
    if !is_link_target(path) {
        Err(ErrorKind::MalformedDayHeader)
    } else {
        let (year, month, day) = link_target_numbers(path);
        if is_calendar_date(year, month, day) {
            Ok(DateView { year, month, day })
        } else {
            Err(ErrorKind::InvalidDate)
        }
    }
}

/// The date that a day header names, or why it names none.
pub open spec fn date_of_header(line: Seq<char>) -> Result<DateView, ErrorKind> {
    if is_day_header_line(line) {
        date_of_link_target(link_target_of_line(line))
    } else {
        Err(ErrorKind::MalformedDayHeader)
    }
}

/// The text of a freeform line: what follows its `- `.
pub open spec fn event_of_line(line: Seq<char>) -> Seq<char> {
    line.skip(2)
}

/// The shape of `line`, which is taken as it stands: white space counts.
pub open spec fn kind_of(line: Seq<char>) -> LineKind {
    if "## "@.is_prefix_of(line) {
        if line.skip(3) == "Days"@ {
            LineKind::SectionHeader(Section::Days)
        } else {
            LineKind::SectionHeader(Section::Other)
        }
    } else if is_task_line(line) {
        LineKind::Task
    } else if "### [["@.is_prefix_of(line) {
        LineKind::DayHeader
    } else if "- "@.is_prefix_of(line) {
        LineKind::Freeform
    } else if line.len() == 0 {
        LineKind::Blank
    } else {
        LineKind::Other
    }
}

/// Tells the shape of a line. The line is taken as it stands: a caller that wants the white
/// space around it left out trims it first.
pub fn classify(line: &str) -> (kind: LineKind)
    ensures
        kind == kind_of(line@),
{
    let chars = chars_of(line);
    classify_chars(chars.as_slice())
}

/// Tells the shape of a line, given as its characters.
pub fn classify_chars(line: &[char]) -> (kind: LineKind)
    ensures
        kind == kind_of(line@),
{
    if starts_with(line, "## ") {
        proof {
            reveal_strlit("## ");
        }
        let name = slice_subrange(line, 3, line.len());
        assert(name@ == line@.skip(3));
        if same_text(name, "Days") {
            LineKind::SectionHeader(Section::Days)
        } else {
            LineKind::SectionHeader(Section::Other)
        }
    } else if is_task_chars(line) {
        LineKind::Task
    } else if starts_with(line, "### [[") {
        LineKind::DayHeader
    } else if starts_with(line, "- ") {
        LineKind::Freeform
    } else if line.len() == 0 {
        LineKind::Blank
    } else {
        LineKind::Other
    }
}

/// Whether the characters are those of a checklist entry.
pub fn is_task_chars(line: &[char]) -> (r: bool)
    ensures
        r == is_task_line(line@),
{
    line.len() >= 5 && line[0] == '-' && line[1] == ' ' && line[2] == '[' && (line[3] == 'x'
        || line[3] == 'X' || line[3] == ' ') && line[4] == ']'
}

/// The number that `c` stands for, if `c` is a digit.
pub fn digit_of(c: char) -> (r: Option<u32>)
    ensures
        r is Some <==> is_digit(c),
        r matches Some(n) ==> n == digit_value(c) && n <= 9,
{
    let n: u32 = c as u32;
    if 0x30 <= n && n <= 0x39 {
        Some(n - 0x30)
    } else {
        None
    }
}

/// Reads the two digits that start at `at`.
fn read_two_digits(chars: &[char], at: usize) -> (r: Option<u32>)
    requires
        at + 2 <= chars@.len(),
    ensures
        r is Some <==> all_digits(chars@.subrange(at as int, at + 2)),
        r matches Some(n) ==> n == decimal(chars@.subrange(at as int, at + 2)) && n <= 99,
{
    let ghost field = chars@.subrange(at as int, at + 2);
    proof {
        reveal_with_fuel(decimal, 3);
        assert(field[0] == chars@[at as int] && field[1] == chars@[at + 1]);
        assert(field.drop_last()[0] == field[0]);
    }
    match (digit_of(chars[at]), digit_of(chars[at + 1])) {
        (Some(tens), Some(ones)) => Some(tens * 10 + ones),
        _ => None,
    }
}

/// Reads the four digits that start at `at`.
fn read_four_digits(chars: &[char], at: usize) -> (r: Option<u32>)
    requires
        at + 4 <= chars@.len(),
    ensures
        r is Some <==> all_digits(chars@.subrange(at as int, at + 4)),
        r matches Some(n) ==> n == decimal(chars@.subrange(at as int, at + 4)) && n <= 9999,
{
    let ghost field = chars@.subrange(at as int, at + 4);
    proof {
        reveal_with_fuel(decimal, 5);
        assert(field[0] == chars@[at as int] && field[1] == chars@[at + 1] && field[2] == chars@[at
            + 2] && field[3] == chars@[at + 3]);
        let three = field.drop_last();
        let two = three.drop_last();
        let one = two.drop_last();
        assert(three[2] == field[2] && two[1] == field[1] && one[0] == field[0]);
    }
    match (
        digit_of(chars[at]),
        digit_of(chars[at + 1]),
        digit_of(chars[at + 2]),
        digit_of(chars[at + 3]),
    ) {
        (Some(a), Some(b), Some(c), Some(d)) => Some(a * 1000 + b * 100 + c * 10 + d),
        _ => None,
    }
}

/// Reads a link target of the shape `Daily Notes/YYYY-MM-DD`: its year, month and day as
/// written, whether or not the calendar has such a day.
pub fn read_link_target(chars: &[char]) -> (r: Option<(i32, u32, u32)>)
    ensures
        r is Some <==> is_link_target(chars@),
        r matches Some((year, month, day)) ==> (year as int, month as int, day as int)
            == link_target_numbers(chars@) && 0 <= year <= 9999 && month <= 99 && day <= 99,
{
    if chars.len() != 22 || !starts_with(chars, "Daily Notes/") {
        proof {
            reveal_strlit("Daily Notes/");
        }
        return None;
    }
    proof {
        reveal_strlit("Daily Notes/");
    }
    if chars[16] != '-' || chars[19] != '-' {
        return None;
    }
    match (read_four_digits(chars, 12), read_two_digits(chars, 17), read_two_digits(chars, 20)) {
        (Some(year), Some(month), Some(day)) => Some((year as i32, month, day)),
        _ => None,
    }
}

} // verus!
