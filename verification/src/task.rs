//! To-do items.

use crate::date::Date;
use crate::date::DateView;
use vstd::prelude::*;

verus! {

/// What an optional [`Date`] stands for.
pub open spec fn date_view(date: Option<Date>) -> Option<DateView> {
    match date {
        Some(d) => Some(d@),
        None => None,
    }
}

/// What a [`Task`] stands for.
pub ghost struct TaskView {
    pub value: Seq<char>,
    pub completed: bool,
    pub date: Option<DateView>,
}

/// One item of a checklist.
#[derive(Clone, Debug, PartialEq, Eq)]
pub struct Task {
    /// The text of the item, without the white space around it.
    pub value: String,
    /// Whether the box is ticked.
    pub completed: bool,
    /// The day under which the item stands, if it stands under one.
    pub date: Option<Date>,
}

impl View for Task {
    type V = TaskView;

    open spec fn view(&self) -> TaskView {
        TaskView { value: self.value@, completed: self.completed, date: date_view(self.date) }
    }
}

} // verus!
