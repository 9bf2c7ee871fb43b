use datesort::paths::join;

#[test]
fn join_puts_one_slash_between() {
    assert_eq!(join("out", "2024-03-01"), "out/2024-03-01");
    assert_eq!(join("out/2024-03-01", "a.txt"), "out/2024-03-01/a.txt");
}

#[test]
fn join_adds_no_slash_behind_a_slash() {
    assert_eq!(join("out/", "2024-03-01"), "out/2024-03-01");
    assert_eq!(join("/", "a.txt"), "/a.txt");
}

#[test]
fn join_to_empty_base_keeps_the_part() {
    assert_eq!(join("", "2024-03-01"), "2024-03-01");
    assert_eq!(join("", ""), "");
}

#[test]
fn join_with_empty_part_ends_in_a_slash() {
    assert_eq!(join("out", ""), "out/");
    assert_eq!(join("out/", ""), "out/");
}

#[test]
fn join_counts_characters_not_bytes() {
    assert_eq!(join("übung", "ärger.txt"), "übung/ärger.txt");
    assert_eq!(join("日本", "語"), "日本/語");
    assert_eq!(join("é/", "x"), "é/x");
}

#[test]
fn join_keeps_a_part_that_starts_with_a_slash_inside() {
    assert_eq!(join("out", "/etc"), "out//etc");
}
