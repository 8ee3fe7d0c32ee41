//! Which document to read: the years to choose from, and the name of the file of a month.

use vstd::prelude::*;
use vstd::string::StringExecFns;

verus! {

/// The years to choose from around the current one: the year before it, the year itself and
/// the year after it, as far as a year number of 16 bits can hold them.
pub open spec fn years_around(current: u16) -> Seq<u16> {
    let before = if current > 0 {
        seq![(current - 1) as u16]
    } else {
        Seq::empty()
    };
    let after = if current < u16::MAX {
        seq![(current + 1) as u16]
    } else {
        Seq::empty()
    };
    before + seq![current] + after
}

/// The years to choose from when the current year is not the one that is wanted.
pub fn year_choices(current: u16) -> (years: Vec<u16>)
    ensures
        years@ == years_around(current),
{
    let mut years: Vec<u16> = Vec::new();
    if current > 0 {
        years.push(current - 1);
    }
    years.push(current);
    if current < u16::MAX {
        years.push(current + 1);
    }
    assert(years@ =~= years_around(current));
    years
}

/// The name of the file that holds the notes of a month: the name of the month, a space, the
/// year and `.md`, as in `September 2022.md`.
pub fn notes_file_name(month: &str, year: &str) -> (name: String)
    ensures
        name@ == month@ + " "@ + year@ + ".md"@,
{
    String::from_str(month).concat(" ").concat(year).concat(".md")
}

} // verus!
