use tinycd::layout::{
    head_record, join, link_target, log_name, marker_name, recorded_head, release_dir, release_log,
    scratch_name, staging_name,
};
use tinycd::numbers::{decimal, parse_u64};
use tinycd::order::{is_before, sort};
use tinycd::releases::{prune, prune_logs, retained, rollback, Candidate, Entry, Removal};

fn names(list: &[&str]) -> Vec<String> {
    list.iter().map(|name| (*name).to_owned()).collect()
}

fn listing(list: &[(&str, bool)]) -> Vec<Entry> {
    list.iter()
        .map(|(name, directory)| Entry {
            name: (*name).to_owned(),
            directory: *directory,
        })
        .collect()
}

fn plan(list: &[(&str, bool)], live: &str, keep: usize) -> Vec<String> {
    prune(&listing(list), live, keep)
        .iter()
        .map(|removal| match removal {
            Removal::Folder(name) => format!("folder {name}"),
            Removal::Marker(name) => format!("marker {name}"),
        })
        .collect()
}

#[test]
fn the_oldest_releases_go_first() {
    let listed = [
        ("1003", true),
        ("1001", true),
        ("1005", true),
        ("1002", true),
        ("1004", true),
    ];
    assert_eq!(plan(&listed, "1005", 3), vec!["folder 1001", "folder 1002"]);
    assert!(plan(&listed, "1005", 5).is_empty());
    assert_eq!(
        plan(&listed, "1005", 1),
        vec!["folder 1001", "folder 1002", "folder 1003", "folder 1004"]
    );
}

#[test]
fn the_live_release_stays() {
    assert_eq!(
        plan(&[("1001", true), ("1002", true)], "1001", 1),
        vec!["folder 1002"]
    );
}

#[test]
fn leftovers_of_interrupted_deployments_go() {
    let listed = [
        ("1001", true),
        (".incomplete-1002", false),
        ("1002", true),
        (".staging", true),
        ("notes.txt", false),
        (".hidden", false),
        (".incomplete-1009", false),
        ("1003", true),
    ];
    assert_eq!(
        plan(&listed, "1003", 5),
        vec![
            "marker .incomplete-1002",
            "folder .staging",
            "marker .incomplete-1009",
            "folder 1002"
        ]
    );
}

#[test]
fn a_folder_named_like_a_marker_marks_nothing() {
    let listed = [(".incomplete-1001", true), ("1001", true), ("1002", true)];
    assert_eq!(plan(&listed, "1002", 5), vec!["folder .incomplete-1001"]);
}

#[test]
fn the_newest_logs_stay() {
    let logs = names(&["1003.log", "1001.log", "readme.txt", "1002.log", ".log", "x.LOG"]);
    assert_eq!(prune_logs(&logs, 2), vec!["1001.log"]);
    assert_eq!(
        prune_logs(&logs, 0),
        vec!["1001.log", "1002.log", "1003.log"]
    );
    assert!(prune_logs(&logs, 3).is_empty());
}

fn candidates() -> Vec<Candidate> {
    [
        ("1003", true, false),
        ("1001", true, false),
        ("1002", true, true),
        (".dry", true, false),
        ("file", false, false),
        ("1004", true, false),
    ]
    .iter()
    .map(|(name, directory, marked)| Candidate {
        name: (*name).to_owned(),
        directory: *directory,
        marked: *marked,
    })
    .collect()
}

#[test]
fn complete_releases_are_retained() {
    assert_eq!(retained(&candidates()), vec!["1001", "1003", "1004"]);
}

#[test]
fn a_rollback_goes_one_release_back() {
    let listed = candidates();
    assert_eq!(
        rollback(Some(&listed), Some("1004"), ""),
        Ok("1003".to_owned())
    );
    assert_eq!(
        rollback(Some(&listed), Some("1003"), ""),
        Ok("1001".to_owned())
    );
    assert_eq!(
        rollback(Some(&listed), Some("1001"), ""),
        Err("no release older than the current one is retained".to_owned())
    );
}

#[test]
fn a_rollback_goes_to_a_named_release() {
    let listed = candidates();
    assert_eq!(
        rollback(Some(&listed), None, "1003"),
        Ok("1003".to_owned())
    );
    assert_eq!(
        rollback(Some(&listed), Some("1004"), "1002"),
        Err("release 1002 is not retained; retained: 1001, 1003, 1004".to_owned())
    );
}

#[test]
fn a_rollback_needs_a_deployment() {
    assert_eq!(
        rollback(None, None, ""),
        Err("nothing has been deployed yet".to_owned())
    );
    assert_eq!(
        rollback(Some(&candidates()), None, ""),
        Err("nothing is deployed, so there is nothing to roll back".to_owned())
    );
    assert_eq!(
        rollback(Some(&vec![]), None, "1"),
        Err("release 1 is not retained; retained: ".to_owned())
    );
}

#[test]
fn names_are_sorted_like_strings() {
    let mixed = names(&["b", "a", "", "ab", "\u{e9}", "Z", "a", "10", "9"]);
    let mut expected = mixed.clone();
    expected.sort();
    assert_eq!(sort(mixed), expected);
    assert!(is_before("1751392700000", "1751392800000"));
    assert!(!is_before("a", "a"));
    assert!(is_before("a", "aa"));
}

#[test]
fn names_below_the_root() {
    assert_eq!(release_log("/srv", "17", false), "/srv/logs/17.log");
    assert_eq!(release_log("/srv/", "17", false), "/srv/logs/17.log");
    assert_eq!(release_log("", "17", false), "logs/17.log");
    assert_eq!(release_log("D:\\srv", "17", true), "D:\\srv\\logs\\17.log");
    assert_eq!(release_log("D:/", "17", true), "D:/logs\\17.log");
    assert_eq!(join("D:", "x", true), "D:x");
    assert_eq!(join("D:", "x", false), "D:/x");
    assert_eq!(release_dir("/srv", "17", false), "/srv/deployments/17");
    assert_eq!(log_name("17"), "17.log");
    assert_eq!(marker_name("17"), ".incomplete-17");
    assert_eq!(staging_name("17"), ".current-17");
    assert_eq!(link_target("17"), "deployments/17");
    assert_eq!(scratch_name("17"), ".dry-run-17");
}

#[test]
fn joining_is_what_paths_do() {
    for root in ["/srv", "/srv/", "", "relative", "/"] {
        let path = std::path::Path::new(root).join("logs").join("1.log");
        assert_eq!(release_log(root, "1", false), path.to_str().unwrap());
    }
}

#[test]
fn the_recorded_commit_is_read_back() {
    assert_eq!(head_record("abc123"), "abc123\n");
    assert_eq!(
        recorded_head(Some(&head_record("abc123"))).as_deref(),
        Some("abc123")
    );
    assert_eq!(recorded_head(Some(" \n\t")), None);
    assert_eq!(recorded_head(None), None);
}

#[test]
fn numbers_in_decimal() {
    for n in [0, 9, 10, 1751392800000, u64::MAX] {
        assert_eq!(decimal(n), n.to_string());
        assert_eq!(parse_u64(&decimal(n)), Some(n));
    }
    for text in [
        "", "+", "-1", "+7", "007", "18446744073709551615", "18446744073709551616", "1_0", " 1",
        "\u{661}",
    ] {
        assert_eq!(parse_u64(text), text.parse::<u64>().ok(), "{text}");
    }
}
