//! Reads a month of daily notes, written in a small markdown dialect, into
//! its to-do items and its days with their events.
//!
//! A document is read line by line. Checklist entries (`- [ ] text`, `- [x] text`) become
//! tasks. Under the header `## Days`, each header of the shape
//! `### [[Daily Notes/2022-09-29|29th (Thu)]]` opens a day; the checklist entries under it
//! become tasks of that day, and the other lines that start with `- ` become its events.

pub mod date;
pub mod day;
pub mod error;
pub mod extract;
pub mod grammar;
pub mod laws;
pub mod month;
pub mod scan;
pub mod selection;
pub mod task;
pub mod text;

pub use crate::date::Date;
pub use crate::day::Day;
pub use crate::error::ErrorKind;
pub use crate::error::ParseError;
pub use crate::extract::get_date_from_path;
pub use crate::extract::get_event_from_line;
pub use crate::extract::get_path_from_line;
pub use crate::extract::get_task_from_line;
pub use crate::grammar::classify;
pub use crate::grammar::LineKind;
pub use crate::grammar::Section;
pub use crate::month::Mode;
pub use crate::month::Month;
pub use crate::month::Parser;
pub use crate::selection::notes_file_name;
pub use crate::selection::year_choices;
pub use crate::task::Task;
