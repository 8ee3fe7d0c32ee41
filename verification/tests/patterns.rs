use monsum::get_date_from_path;
use monsum::get_path_from_line;
use monsum::get_task_from_line;
use regex::RegexBuilder;

const LINES: [&str; 28] = [
    "- [ ] This is my task",
    "- [x] This is my task",
    "- [X] This is my task",
    "- [x]",
    "- [x] ",
    "- [ ]   padded   ",
    "- [x",
    "- [y] no",
    "- [] no",
    "- [xx] no",
    "-[x] no",
    " - [x] no",
    "- an event",
    "",
    "## Days",
    "### [[",
    "### [[Daily Notes/2022-09-29|29th (Thur)]]",
    "### [[Daily Notes/2022-09-29]]",
    "### [[Daily Notes/2022-09-29",
    "### [[Daily Notes/2022-09-2",
    "### [[Daily Notes/2022-9-29|x]]",
    "### [[Daily notes/2022-09-29|x]]",
    " ### [[Daily Notes/2022-09-29|x]]",
    "Daily Notes/2022-09-29",
    "Daily Notes/20",
    "Daily Notes/2022-02-30",
    "Daily Notes/2022-09-29 ",
    "Daily Notes/0000-00-00",
];

#[test]
fn task_lines_are_those_of_the_pattern() {
    let pattern = RegexBuilder::new(r"^- \[(?P<checked>(?:x| ))\](?P<value>.*)")
        .case_insensitive(true)
        .build()
        .unwrap();
    for line in LINES {
        let ours = get_task_from_line(line).ok();
        let theirs = pattern.captures(line).map(|captures| {
            let value = captures.name("value").unwrap().as_str().trim().to_owned();
            let checked = captures.name("checked").unwrap().as_str();
            (value, checked == "x" || checked == "X")
        });
        assert_eq!(ours.map(|task| (task.value, task.completed)), theirs, "{line:?}");
    }
}

#[test]
fn day_headers_are_those_of_the_pattern() {
    let pattern = RegexBuilder::new(r"^### \[\[(Daily Notes/[0-9]{4}-[0-9]{2}-[0-9]{2})")
        .build()
        .unwrap();
    for line in LINES {
        let ours = get_path_from_line(line).ok();
        let theirs = pattern
            .captures(line)
            .map(|captures| captures.get(1).unwrap().as_str().to_owned());
        assert_eq!(ours, theirs, "{line:?}");
    }
}

#[test]
fn link_targets_are_those_of_the_pattern() {
    let pattern = RegexBuilder::new(
        r"^Daily Notes/(?P<year>[0-9]{4})-(?P<month>[0-9]{2})-(?P<date>[0-9]{2})$",
    )
    .build()
    .unwrap();
    for line in LINES {
        let ours = get_date_from_path(line).ok();
        let theirs = pattern.captures(line).map(|captures| {
            (
                captures.name("year").unwrap().as_str().parse::<i32>().unwrap(),
                captures.name("month").unwrap().as_str().parse::<u32>().unwrap(),
                captures.name("date").unwrap().as_str().parse::<u32>().unwrap(),
            )
        });
        assert_eq!(ours, theirs, "{line:?}");
    }
}
