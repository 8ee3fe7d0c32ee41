//! Days and the events noted under them.

use crate::date::Date;
use crate::date::DateView;
use crate::error::ErrorKind;
use crate::grammar::date_of_link_target;
use crate::grammar::read_link_target;
use crate::text::chars_of;
use vstd::prelude::*;

verus! {

/// What a [`Day`] stands for.
pub ghost struct DayView {
    pub date: DateView,
    pub events: Seq<Seq<char>>,
}

/// The texts that the strings hold, in order.
pub open spec fn texts_of(strings: Seq<String>) -> Seq<Seq<char>> {
    strings.map_values(|s: String| s@)
}

/// One day of the month, with the events noted under it, in the order of the document.
#[derive(Clone, Debug, PartialEq, Eq)]
pub struct Day {
    /// The date of the day.
    pub date: Date,
    events: Vec<String>,
}

impl View for Day {
    type V = DayView;

    closed spec fn view(&self) -> DayView {
        DayView { date: self.date@, events: texts_of(self.events@) }
    }
}

impl Day {
    /// The day that a link target of the shape `Daily Notes/YYYY-MM-DD` names, with no event
    /// yet. A text of another shape is refused as a malformed day header, and a date that the
    /// calendar does not have as an invalid date.
    pub fn new(path: &str) -> (r: Result<Day, ErrorKind>)
        ensures
            match r {
                Ok(day) => date_of_link_target(path@) == Ok::<DateView, ErrorKind>(day@.date)
                    && day@.events == Seq::<Seq<char>>::empty(),
                Err(e) => date_of_link_target(path@) == Err::<DateView, ErrorKind>(e),
            },
    {
        let chars = chars_of(path);
        Day::from_link_target(chars.as_slice())
    }

    /// As [`Day::new`], for a link target whose characters are at hand.
    pub(crate) fn from_link_target(chars: &[char]) -> (r: Result<Day, ErrorKind>)
        ensures
            match r {
                Ok(day) => date_of_link_target(chars@) == Ok::<DateView, ErrorKind>(day@.date)
                    && day@.events == Seq::<Seq<char>>::empty(),
                Err(e) => date_of_link_target(chars@) == Err::<DateView, ErrorKind>(e),
            },
    {
        match read_link_target(chars) {
            None => Err(ErrorKind::MalformedDayHeader),
            Some((year, month, day)) => match Date::new(year, month, day) {
                None => Err(ErrorKind::InvalidDate),
                Some(date) => {
                    let day = Day { date, events: Vec::new() };
                    assert(day@.events =~= Seq::<Seq<char>>::empty());
                    Ok(day)
                },
            },
        }
    }

    /// Notes one more event under the day, after those already noted.
    pub fn add_event(&mut self, event: String)
        ensures
            final(self)@.date == old(self)@.date,
            final(self)@.events == old(self)@.events.push(event@),
    {
        self.events.push(event);
        assert(texts_of(self.events@) =~= texts_of(old(self).events@).push(event@));
    }

    /// The date of the day.
    pub fn date(&self) -> (date: Date)
        ensures
            date@ == self@.date,
    {
        self.date
    }

    /// The events noted under the day, in the order of the document.
    pub fn events(&self) -> (r: &Vec<String>)
        ensures
            texts_of(r@) == self@.events,
    {
        &self.events
    }
}

} // verus!
