use datesort::entry::Entry;
use datesort::error::{ErrorKind, SortError};
use datesort::sorter::{Args, Operation, Sorter, Step};

const FIRST_OF_MARCH: i64 = 1_709_251_200;
const SECOND_OF_MARCH: i64 = 1_709_337_600;

fn copying() -> Sorter {
    Sorter::new(Args { src: "in".to_string(), dst: "out".to_string(), move_files: false })
}

fn moving() -> Sorter {
    Sorter::new(Args { src: "in".to_string(), dst: "out".to_string(), move_files: true })
}

fn file(name: &str, modified: i64) -> Entry {
    Entry::observe(format!("in/{name}"), name.to_string(), Some(modified), false)
}

fn dir(name: &str, modified: i64) -> Entry {
    Entry::observe(format!("in/{name}"), name.to_string(), Some(modified), true)
}

fn pair(from: &str, to: &str) -> Option<(String, String)> {
    Some((from.to_string(), to.to_string()))
}

#[test]
fn observe_resolves_the_date() {
    let entry = file("a.txt", FIRST_OF_MARCH + 3_600);
    assert_eq!(
        entry,
        Entry {
            path: "in/a.txt".to_string(),
            file_name: "a.txt".to_string(),
            date: Some("2024-03-01".to_string()),
            is_dir: false,
        }
    );
}

#[test]
fn observe_without_a_time_has_no_date() {
    let entry = Entry::observe("in/a.txt".to_string(), "a.txt".to_string(), None, false);
    assert_eq!(entry.date, None);
    assert_eq!(entry.path, "in/a.txt");
    assert_eq!(entry.file_name, "a.txt");
    assert!(!entry.is_dir);
}

#[test]
fn observe_with_a_time_beyond_the_calendar_has_no_date() {
    let entry = Entry::observe("in/a.txt".to_string(), "a.txt".to_string(), Some(i64::MAX), false);
    assert_eq!(entry.date, None);
}

#[test]
fn observe_keeps_the_directory_flag() {
    assert!(dir("sub", FIRST_OF_MARCH).is_dir);
    assert_eq!(dir("sub", FIRST_OF_MARCH).date, Some("2024-03-01".to_string()));
}

#[test]
fn new_sorter_has_made_no_folder() {
    assert!(copying().seen_dirs().is_empty());
}

#[test]
fn sorter_keeps_what_it_was_asked() {
    let args = Args { src: "in".to_string(), dst: "out".to_string(), move_files: true };
    assert_eq!(Sorter::new(args.clone()).args(), &args);
}

#[test]
fn first_file_of_a_day_opens_its_folder() {
    let mut sorter = copying();
    let step = sorter.init_directory_and_paths(&file("a.txt", FIRST_OF_MARCH), false);
    assert_eq!(
        step,
        Ok(Step {
            create_dir: Some("out/2024-03-01".to_string()),
            pair: pair("in/a.txt", "out/2024-03-01/a.txt"),
        })
    );
    assert_eq!(sorter.seen_dirs(), &vec!["out/2024-03-01".to_string()]);
}

#[test]
fn second_file_of_a_day_finds_its_folder_made() {
    let mut sorter = copying();
    sorter.init_directory_and_paths(&file("a.txt", FIRST_OF_MARCH), false).unwrap();
    let step = sorter.init_directory_and_paths(&file("b.txt", FIRST_OF_MARCH + 86_399), false);
    assert_eq!(
        step,
        Ok(Step { create_dir: None, pair: pair("in/b.txt", "out/2024-03-01/b.txt") })
    );
    assert_eq!(sorter.seen_dirs(), &vec!["out/2024-03-01".to_string()]);
}

#[test]
fn file_of_another_day_opens_another_folder() {
    let mut sorter = copying();
    sorter.init_directory_and_paths(&file("a.txt", FIRST_OF_MARCH), false).unwrap();
    let step = sorter.init_directory_and_paths(&file("c.txt", SECOND_OF_MARCH), false);
    assert_eq!(
        step,
        Ok(Step {
            create_dir: Some("out/2024-03-02".to_string()),
            pair: pair("in/c.txt", "out/2024-03-02/c.txt"),
        })
    );
    assert_eq!(
        sorter.seen_dirs(),
        &vec!["out/2024-03-01".to_string(), "out/2024-03-02".to_string()]
    );
}

#[test]
fn directory_is_passed_over() {
    let mut sorter = copying();
    let step = sorter.init_directory_and_paths(&dir("sub", FIRST_OF_MARCH), false);
    assert_eq!(step, Ok(Step { create_dir: None, pair: None }));
    assert!(sorter.seen_dirs().is_empty());
}

#[test]
fn directory_is_passed_over_even_if_its_place_is_taken() {
    let mut sorter = copying();
    let step = sorter.init_directory_and_paths(&dir("sub", FIRST_OF_MARCH), true);
    assert_eq!(step, Ok(Step { create_dir: None, pair: None }));
}

#[test]
fn taken_destination_stops_the_run() {
    let mut sorter = copying();
    let step = sorter.init_directory_and_paths(&file("a.txt", FIRST_OF_MARCH), true);
    assert_eq!(
        step,
        Err(SortError {
            kind: ErrorKind::DestinationCollision,
            path: "out/2024-03-01/a.txt".to_string(),
        })
    );
    assert!(sorter.seen_dirs().is_empty());
}

#[test]
fn collision_orders_no_folder() {
    let mut sorter = copying();
    sorter.init_directory_and_paths(&file("a.txt", FIRST_OF_MARCH), false).unwrap();
    let step = sorter.init_directory_and_paths(&file("c.txt", SECOND_OF_MARCH), true);
    assert_eq!(step.unwrap_err().kind, ErrorKind::DestinationCollision);
    assert_eq!(sorter.seen_dirs(), &vec!["out/2024-03-01".to_string()]);
}

#[test]
fn missing_date_stops_the_run() {
    let mut sorter = copying();
    let entry = Entry::observe("in/a.txt".to_string(), "a.txt".to_string(), None, false);
    assert_eq!(
        sorter.init_directory_and_paths(&entry, false),
        Err(SortError { kind: ErrorKind::MetadataUnavailable, path: "in/a.txt".to_string() })
    );
    assert!(sorter.seen_dirs().is_empty());
}

#[test]
fn missing_date_stops_the_run_for_a_directory_too() {
    let mut sorter = copying();
    let entry = Entry::observe("in/sub".to_string(), "sub".to_string(), None, true);
    assert_eq!(
        sorter.init_directory_and_paths(&entry, false),
        Err(SortError { kind: ErrorKind::MetadataUnavailable, path: "in/sub".to_string() })
    );
}

#[test]
fn missing_date_comes_before_a_collision() {
    let mut sorter = copying();
    let entry = Entry::observe("in/a.txt".to_string(), "a.txt".to_string(), None, false);
    assert_eq!(
        sorter.init_directory_and_paths(&entry, true).unwrap_err().kind,
        ErrorKind::MetadataUnavailable
    );
}

#[test]
fn destination_is_where_the_step_puts_the_file() {
    let mut sorter = copying();
    let entry = file("a.txt", FIRST_OF_MARCH);
    let looked_up = sorter.destination(&entry);
    assert_eq!(looked_up, Some("out/2024-03-01/a.txt".to_string()));
    let step = sorter.init_directory_and_paths(&entry, false).unwrap();
    assert_eq!(step.pair.map(|(_, to)| to), looked_up);
}

#[test]
fn destination_of_a_directory_is_none() {
    assert_eq!(copying().destination(&dir("sub", FIRST_OF_MARCH)), None);
}

#[test]
fn destination_without_a_date_is_none() {
    let entry = Entry::observe("in/a.txt".to_string(), "a.txt".to_string(), None, false);
    assert_eq!(copying().destination(&entry), None);
}

#[test]
fn destination_root_with_trailing_slash() {
    let sorter =
        Sorter::new(Args { src: "in".to_string(), dst: "out/".to_string(), move_files: false });
    assert_eq!(
        sorter.destination(&file("a.txt", FIRST_OF_MARCH)),
        Some("out/2024-03-01/a.txt".to_string())
    );
}

#[test]
fn empty_destination_root_sorts_into_the_current_directory() {
    let sorter =
        Sorter::new(Args { src: "in".to_string(), dst: String::new(), move_files: false });
    assert_eq!(
        sorter.destination(&file("a.txt", FIRST_OF_MARCH)),
        Some("2024-03-01/a.txt".to_string())
    );
}

#[test]
fn copy_mode_copies() {
    let operation =
        copying().move_into_place(&"in/a.txt".to_string(), &"out/2024-03-01/a.txt".to_string());
    assert_eq!(
        operation,
        Operation::Copy { from: "in/a.txt".to_string(), to: "out/2024-03-01/a.txt".to_string() }
    );
}

#[test]
fn move_mode_renames() {
    let operation =
        moving().move_into_place(&"in/a.txt".to_string(), &"out/2024-03-01/a.txt".to_string());
    assert_eq!(
        operation,
        Operation::Rename { from: "in/a.txt".to_string(), to: "out/2024-03-01/a.txt".to_string() }
    );
}

#[test]
fn sort_skips_what_was_passed_over() {
    let files = vec![
        pair("in/a.txt", "out/2024-03-01/a.txt"),
        None,
        pair("in/c.txt", "out/2024-03-02/c.txt"),
        None,
    ];
    assert_eq!(
        copying().sort(&files),
        vec![
            Operation::Copy {
                from: "in/a.txt".to_string(),
                to: "out/2024-03-01/a.txt".to_string()
            },
            Operation::Copy {
                from: "in/c.txt".to_string(),
                to: "out/2024-03-02/c.txt".to_string()
            },
        ]
    );
}

#[test]
fn sort_of_nothing_is_nothing() {
    assert_eq!(copying().sort(&Vec::new()), Vec::new());
    assert_eq!(moving().sort(&vec![None, None]), Vec::new());
}

#[test]
fn sort_keeps_the_order_of_the_plan() {
    let files = vec![pair("in/z", "out/d/z"), pair("in/a", "out/d/a")];
    assert_eq!(
        moving().sort(&files),
        vec![
            Operation::Rename { from: "in/z".to_string(), to: "out/d/z".to_string() },
            Operation::Rename { from: "in/a".to_string(), to: "out/d/a".to_string() },
        ]
    );
}
