use tinycd::releases::Entry;
use tinycd::status::{format_age, release_age, status, Current, Snapshot};

fn listing(list: &[(&str, bool)]) -> Vec<Entry> {
    list.iter()
        .map(|(name, directory)| Entry {
            name: (*name).to_owned(),
            directory: *directory,
        })
        .collect()
}

#[test]
fn ages_in_words() {
    assert_eq!(format_age(0), "0s");
    assert_eq!(format_age(59), "59s");
    assert_eq!(format_age(60), "1m");
    assert_eq!(format_age(3599), "59m");
    assert_eq!(format_age(3600), "1h 0m");
    assert_eq!(format_age(86399), "23h 59m");
    assert_eq!(format_age(86400), "1d 0h");
    assert_eq!(format_age(200000), "2d 7h");
}

#[test]
fn the_age_of_a_release() {
    assert_eq!(release_age("1000", Some(5999)), Some(4));
    assert_eq!(release_age("1000", Some(1000)), Some(0));
    assert_eq!(release_age("1001", Some(1000)), None);
    assert_eq!(release_age("v1", Some(1000)), None);
    assert_eq!(release_age("1000", None), None);
}

#[test]
fn the_report_of_a_deployed_root() {
    let entries = listing(&[
        ("1000", true),
        ("2000", true),
        (".incomplete-2000", false),
        (".x", true),
        ("f", false),
    ]);
    let lines = status(
        "git@h:p",
        Some("main"),
        "/srv",
        Some(Current {
            id: "1000",
            head: Some(" abc\n"),
            log: Some("/srv/logs/1000.log"),
        }),
        Some(91_000),
        &entries,
        true,
    );
    assert_eq!(
        lines,
        vec![
            "repo     git@h:p",
            "ref      main",
            "root     /srv",
            "current  1000 (deployed 1m ago)",
            "commit   abc",
            "log      /srv/logs/1000.log",
            "releases 2 retained",
            "daemon   running",
        ]
    );
}

#[test]
fn the_report_of_a_fresh_root() {
    let lines = status("r", None, "/srv", None, Some(1), &vec![], false);
    assert_eq!(
        lines,
        vec![
            "repo     r",
            "root     /srv",
            "current  none (never deployed)",
            "releases 0 retained",
            "daemon   not running",
        ]
    );
    let lines = status(
        "r",
        None,
        "/srv",
        Some(Current {
            id: "manual",
            head: None,
            log: None,
        }),
        Some(1),
        &vec![],
        false,
    );
    assert_eq!(lines[2], "current  manual");
}

#[test]
fn a_snapshot_is_newest_first() {
    let entries = listing(&[
        ("1002", true),
        (".incomplete-1003", false),
        ("1001", true),
        ("1003", true),
        ("file", false),
        (".hidden", true),
    ]);
    let snapshot = Snapshot::read(Some("1002".to_owned()), Some("abc\n"), true, &entries);
    assert_eq!(
        snapshot.releases,
        vec![
            ("1003".to_owned(), true),
            ("1002".to_owned(), false),
            ("1001".to_owned(), false)
        ]
    );
    assert_eq!(snapshot.current.as_deref(), Some("1002"));
    assert_eq!(snapshot.head.as_deref(), Some("abc"));
    assert!(snapshot.server_up);
    let empty = Snapshot::read(None, Some(" \n"), false, &vec![]);
    assert_eq!(empty.head, None);
    assert!(empty.releases.is_empty());
}
