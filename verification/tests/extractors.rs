use monsum::get_date_from_path;
use monsum::get_event_from_line;
use monsum::get_path_from_line;
use monsum::get_task_from_line;
use monsum::Day;
use monsum::ErrorKind;
use std::path::PathBuf;

#[test]
fn day_gets_a_task_from_a_line() {
    let path = PathBuf::from("Daily Notes/2022-09-29");
    assert_eq!(get_date_from_path(path.to_str().unwrap()).unwrap(), (2022, 09, 29));
    let day = Day::new(path.to_str().unwrap()).unwrap();
    assert_eq!((day.date.year(), day.date.month(), day.date.day()), (2022, 09, 29));
    assert!(day.events().is_empty());
}

#[test]
fn day_gets_a_none_if_no_path() {
    let path = PathBuf::from("Daily Notes/20");
    assert!(get_date_from_path(path.to_str().unwrap()).is_err());
    assert_eq!(Day::new(path.to_str().unwrap()), Err(ErrorKind::MalformedDayHeader));
}

#[test]
fn month_gets_a_task_from_a_line() {
    let expected = "This is my task";
    assert!(matches!(
        get_task_from_line(format!("- [ ] {expected}").as_str()),
        Ok(task) if task.value == expected && !task.completed
    ));

    let expected = "Daily Notes/2022-09-29";
    assert_eq!(
        PathBuf::from(get_path_from_line(&format!("### [[{expected}|29th (Thur)]]")).unwrap()),
        PathBuf::from(expected)
    );

    assert_eq!(
        get_date_from_path(PathBuf::from("Daily Notes/2022-09-29").to_str().unwrap()).unwrap(),
        (2022, 09, 29)
    );
}

#[test]
fn month_gets_a_completed_task_from_a_line() {
    let expected = "This is my task";
    assert!(matches!(
        get_task_from_line(format!("- [x] {expected}").as_str()),
        Ok(task) if task.completed
    ));
}

#[test]
fn month_is_case_insensitive() {
    let expected = "This is my task";
    assert!(matches!(
        get_task_from_line(format!("- [X] {expected}").as_str()),
        Ok(task) if task.completed
    ));
}

#[test]
fn month_gets_a_none_if_no_task() {
    assert!(matches!(get_task_from_line(format!("- [x").as_str()), Err(_)));
}

#[test]
fn month_gets_a_none_if_no_path() {
    assert!(matches!(get_path_from_line(format!("### [[").as_str()), Err(_)));
    assert!(matches!(
        get_date_from_path(PathBuf::from("Daily Notes/20").to_str().unwrap()),
        Err(_)
    ));
}

#[test]
fn get_date_from_path_gets_a_task_from_a_line() {
    assert_eq!(
        get_date_from_path(PathBuf::from("Daily Notes/2022-09-29").to_str().unwrap()).unwrap(),
        (2022, 09, 29)
    );
}

#[test]
fn get_date_from_path_gets_a_none_if_no_path() {
    assert!(get_date_from_path(PathBuf::from("Daily Notes/20").to_str().unwrap()).is_err())
}

#[test]
fn get_event_from_line_gets_a_task_from_a_line() {
    let expected = "This is my task";
    assert!(matches!(
        get_event_from_line(format!("- [ ] {expected}").as_str()),
        Ok(task) if task.value == expected && !task.completed
    ));
}

#[test]
fn get_event_from_line_gets_a_completed_task_from_a_line() {
    let expected = "This is my task";
    assert!(matches!(
        get_event_from_line(format!("- [x] {expected}").as_str()),
        Ok(task) if task.completed
    ));
}

#[test]
fn get_event_from_line_is_case_insensitive() {
    let expected = "This is my task";
    assert!(matches!(
        get_event_from_line(format!("- [X] {expected}").as_str()),
        Ok(task) if task.completed
    ));
}

#[test]
fn get_event_from_line_gets_a_none_if_no_task() {
    assert!(get_event_from_line(format!("- [x").as_str()).is_err());
}

#[test]
fn get_path_from_line_gets_a_task_from_a_line() {
    let expected = "Daily Notes/2022-09-29";
    assert_eq!(
        PathBuf::from(get_path_from_line(&format!("### [[{expected}|29th (Thur)]]")).unwrap()),
        PathBuf::from(expected)
    );
}

#[test]
fn get_path_from_line_gets_a_none_if_no_path() {
    assert!(get_path_from_line(format!("### [[").as_str()).is_err());
}

#[test]
fn get_task_from_line_gets_a_task_from_a_line() {
    let expected = "This is my task";
    assert!(matches!(
        get_task_from_line(format!("- [ ] {expected}").as_str()),
        Ok(task) if task.value == expected && !task.completed
    ));
}

#[test]
fn get_task_from_line_gets_a_completed_task_from_a_line() {
    let expected = "This is my task";
    assert!(matches!(
        get_task_from_line(format!("- [x] {expected}").as_str()),
        Ok(task) if task.completed
    ));
}

#[test]
fn get_task_from_line_is_case_insensitive() {
    let expected = "This is my task";
    assert!(matches!(
        get_task_from_line(format!("- [X] {expected}").as_str()),
        Ok(task) if task.completed
    ));
}

#[test]
fn get_task_from_line_gets_a_none_if_no_task() {
    assert!(get_task_from_line(format!("- [x").as_str()).is_err());
}

#[test]
fn a_task_line_needs_exactly_one_mark_between_its_brackets() {
    for line in ["- [y] a", "- [] a", "- [xx] a", "- [\t] a", "- [  ] a", "-[x] a", "- [x a", "[x] a", " - [x] a"] {
        assert_eq!(get_task_from_line(line), Err(ErrorKind::MalformedTaskLine), "{line:?}");
    }
    for (line, completed) in [("- [x] a", true), ("- [X] a", true), ("- [ ] a", false)] {
        let task = get_task_from_line(line).unwrap();
        assert_eq!(task.completed, completed);
        assert_eq!(task.value, "a");
        assert_eq!(task.date, None);
    }
}

#[test]
fn the_text_of_a_task_is_trimmed() {
    assert_eq!(get_task_from_line("- [ ]").unwrap().value, "");
    assert_eq!(get_task_from_line("- [ ]   ").unwrap().value, "");
    assert_eq!(get_task_from_line("- [x]\u{a0} two  words \u{3000}\t").unwrap().value, "two  words");
    assert_eq!(get_task_from_line("- [x]no space").unwrap().value, "no space");
    assert_eq!(get_task_from_line("- [ ] caf\u{e9} \u{1f600}").unwrap().value, "caf\u{e9} \u{1f600}");
}

#[test]
fn a_day_header_holds_a_link_target_of_a_fixed_shape() {
    assert_eq!(get_path_from_line("### [[Daily Notes/2022-09-29]]").unwrap(), "Daily Notes/2022-09-29");
    assert_eq!(get_path_from_line("### [[Daily Notes/0000-00-99").unwrap(), "Daily Notes/0000-00-99");
    for line in [
        "### [[",
        "### [[Daily Notes/2022-09-2",
        "### [[Daily notes/2022-09-29]]",
        "### [[Daily Notes/2022/09/29]]",
        "### [[Daily Notes/22-09-29|x]]",
        "## [[Daily Notes/2022-09-29]]",
        " ### [[Daily Notes/2022-09-29]]",
        "### [[Daily Notes/2022-0a-29]]",
        "### [[Daily Notes/\u{661}\u{662}\u{663}\u{664}-09-29]]",
    ] {
        assert_eq!(get_path_from_line(line), Err(ErrorKind::MalformedDayHeader), "{line:?}");
    }
}

#[test]
fn a_link_target_is_read_as_written() {
    assert_eq!(get_date_from_path("Daily Notes/0001-01-01"), Ok((1, 1, 1)));
    assert_eq!(get_date_from_path("Daily Notes/9999-12-31"), Ok((9999, 12, 31)));
    assert_eq!(get_date_from_path("Daily Notes/2022-02-30"), Ok((2022, 2, 30)));
    assert_eq!(get_date_from_path("Daily Notes/0000-00-99"), Ok((0, 0, 99)));
    assert_eq!(get_date_from_path("Daily Notes/1234-56-78"), Ok((1234, 56, 78)));
    for path in ["", "Daily Notes/2022-09-29 ", "Daily Notes/2022-09-291", "xDaily Notes/2022-09-29", "Daily Notes/2022-09-29|29th"] {
        assert_eq!(get_date_from_path(path), Err(ErrorKind::MalformedDayHeader), "{path:?}");
    }
}

#[test]
fn a_day_is_made_of_a_real_date_only() {
    assert_eq!(Day::new("Daily Notes/2022-02-30"), Err(ErrorKind::InvalidDate));
    assert_eq!(Day::new("Daily Notes/0000-01-01"), Err(ErrorKind::InvalidDate));
    assert_eq!(Day::new("Daily Notes/2022-13-01"), Err(ErrorKind::InvalidDate));
    assert_eq!(Day::new("Daily Notes/2022-00-10"), Err(ErrorKind::InvalidDate));
    assert_eq!(Day::new("Daily Notes/2022-04-31"), Err(ErrorKind::InvalidDate));
    assert_eq!(Day::new("Daily Notes/2022-04-00"), Err(ErrorKind::InvalidDate));
    assert_eq!(Day::new("Daily Notes/2022-4-30"), Err(ErrorKind::MalformedDayHeader));
    let day = Day::new("Daily Notes/2024-02-29").unwrap();
    assert_eq!((day.date().year(), day.date().month(), day.date().day()), (2024, 2, 29));
}

#[test]
fn events_are_kept_in_the_order_they_were_added() {
    let mut day = Day::new("Daily Notes/2022-09-29").unwrap();
    day.add_event(String::from("first"));
    day.add_event(String::from("second"));
    day.add_event(String::from("first"));
    assert_eq!(day.events(), &vec![String::from("first"), String::from("second"), String::from("first")]);
    assert_eq!(day.date, Day::new("Daily Notes/2022-09-29").unwrap().date);
}
