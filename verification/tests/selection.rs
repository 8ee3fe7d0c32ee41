use monsum::notes_file_name;
use monsum::year_choices;

#[test]
fn the_years_on_offer_are_the_current_one_and_its_neighbours() {
    assert_eq!(year_choices(2022), vec![2021, 2022, 2023]);
    assert_eq!(year_choices(1), vec![0, 1, 2]);
    assert_eq!(year_choices(0), vec![0, 1]);
    assert_eq!(year_choices(u16::MAX), vec![u16::MAX - 1, u16::MAX]);
    assert_eq!(year_choices(u16::MAX - 1), vec![u16::MAX - 2, u16::MAX - 1, u16::MAX]);
}

#[test]
fn the_file_of_a_month_is_named_after_the_month_and_the_year() {
    assert_eq!(notes_file_name("September", "2022"), "September 2022.md");
    assert_eq!(notes_file_name("", ""), " .md");
    assert_eq!(notes_file_name("M\u{e4}rz", "2023"), "M\u{e4}rz 2023.md");
}
