//! From one line to what it holds: a task, a link target, a date.

use crate::error::ErrorKind;
use crate::grammar::is_day_header_line;
use crate::grammar::is_link_target;
use crate::grammar::is_task_chars;
use crate::grammar::is_task_line;
use crate::grammar::link_target_numbers;
use crate::grammar::link_target_of_line;
use crate::grammar::read_link_target;
use crate::grammar::task_of_line;
use crate::task::Task;
use crate::text::chars_of;
use crate::text::starts_with;
use crate::text::trim_bounds;
use vstd::prelude::*;
use vstd::slice::slice_subrange;
use vstd::string::StrSliceExecFns;
use vstd::string::StringExecFns;

verus! {

/// The task of a checklist entry whose characters are at hand.
pub(crate) fn task_from_chars(line_str: &str, chars: &[char]) -> (task: Task)
    requires
        chars@ == line_str@,
        is_task_line(chars@),
    ensures
        task@ == task_of_line(line_str@),
{
    let rest = slice_subrange(chars, 5, chars.len());
    assert(rest@ == chars@.skip(5));
    let (start, end) = trim_bounds(rest);
    let value = line_str.substring_char(5 + start, 5 + end);
    assert(value@ == rest@.subrange(start as int, end as int));
    Task {
        value: String::from_str(value),
        completed: chars[3] == 'x' || chars[3] == 'X',
        date: None,
    }
}

/// Reads a checklist entry: `- [`, one of `x`, `X` and a space, `]`, then the text of the task.
/// The task is completed if the mark is `x` or `X`; its text is what follows the `]`, without
/// the white space around it; it stands under no day. Any other line is refused.
pub fn get_task_from_line(line_str: &str) -> (r: Result<Task, ErrorKind>)
    ensures
        match r {
            Ok(task) => is_task_line(line_str@) && task@ == task_of_line(line_str@),
            Err(e) => !is_task_line(line_str@) && e == ErrorKind::MalformedTaskLine,
        },
        r matches Ok(task) ==> (task.completed <==> line_str@[3] == 'x' || line_str@[3] == 'X'),
{
    let chars = chars_of(line_str);
    if is_task_chars(chars.as_slice()) {
        Ok(task_from_chars(line_str, chars.as_slice()))
    } else {
        Err(ErrorKind::MalformedTaskLine)
    }
}

/// Reads a checklist entry that was logged as an event of a day. Such an entry has the shape
/// of any other checklist entry, and is read as [`get_task_from_line`] reads it.
pub fn get_event_from_line(line_str: &str) -> (r: Result<Task, ErrorKind>)
    ensures
        match r {
            Ok(task) => is_task_line(line_str@) && task@ == task_of_line(line_str@),
            Err(e) => !is_task_line(line_str@) && e == ErrorKind::MalformedTaskLine,
        },
        r matches Ok(task) ==> (task.completed <==> line_str@[3] == 'x' || line_str@[3] == 'X'),
{
    get_task_from_line(line_str)
}

/// Whether the characters are those of a day header in good shape.
pub(crate) fn is_day_header_chars(chars: &[char]) -> (r: bool)
    ensures
        r == is_day_header_line(chars@),
{
    if chars.len() < 28 || !starts_with(chars, "### [[") {
        return false;
    }
    let target = slice_subrange(chars, 6, 28);
    read_link_target(target).is_some()
}

/// Reads the link target of a day header: the 22 characters `Daily Notes/YYYY-MM-DD` that
/// follow `### [[`. A line of any other shape is refused.
pub fn get_path_from_line(line_str: &str) -> (r: Result<String, ErrorKind>)
    ensures
        match r {
            Ok(path) => is_day_header_line(line_str@) && path@ == link_target_of_line(line_str@),
            Err(e) => !is_day_header_line(line_str@) && e == ErrorKind::MalformedDayHeader,
        },
{
    let chars = chars_of(line_str);
    if is_day_header_chars(chars.as_slice()) {
        Ok(String::from_str(line_str.substring_char(6, 28)))
    } else {
        Err(ErrorKind::MalformedDayHeader)
    }
}

/// Reads the year, the month and the day that a link target of the shape
/// `Daily Notes/YYYY-MM-DD` writes. The numbers are given as written: whether the calendar
/// has such a day is not asked here. Any other text is refused.
pub fn get_date_from_path(path: &str) -> (r: Result<(i32, u32, u32), ErrorKind>)
    ensures
        match r {
            Ok((year, month, day)) => is_link_target(path@) && (
                year as int,
                month as int,
                day as int,
            ) == link_target_numbers(path@),
            Err(e) => !is_link_target(path@) && e == ErrorKind::MalformedDayHeader,
        },
{
    let chars = chars_of(path);
    match read_link_target(chars.as_slice()) {
        Some(numbers) => Ok(numbers),
        None => Err(ErrorKind::MalformedDayHeader),
    }
}

} // verus!
