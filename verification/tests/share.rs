use tinycd::share::{check_entries, is_plain, link_steps, relative, LinkStep, Target};

#[test]
fn separators_at_the_end_are_taken_off() {
    assert_eq!(relative("data/"), "data");
    assert_eq!(relative("data/\\//"), "data");
    assert_eq!(relative(".env"), ".env");
    assert_eq!(relative("/"), "");
    assert_eq!(relative("a/b"), "a/b");
}

#[test]
fn entries_are_relative_paths_of_plain_names() {
    for entry in ["data", ".env", "a/b/c", "a//b", "a/./b", "..a", "a\\b"] {
        assert!(is_plain(entry, false), "{entry}");
    }
    for entry in ["", ".", "..", "./a", "/a", "a/../b", "a/..", "../a"] {
        assert!(!is_plain(entry, false), "{entry}");
    }
    for entry in ["a\\..\\b", "\\a", "C:a", "c:\\a", ".\\a"] {
        assert!(!is_plain(entry, true), "{entry}");
    }
    assert!(is_plain("a\\b", true));
}

#[test]
fn the_first_bad_entry_is_named() {
    let entries = |list: &[&str]| list.iter().map(|e| (*e).to_owned()).collect::<Vec<_>>();
    assert_eq!(check_entries(&entries(&["data/", ".env"]), false), Ok(()));
    assert_eq!(
        check_entries(&entries(&["data/", "//", "../x"]), false),
        Err("share entry \"//\" must be a relative path".to_owned())
    );
}

#[test]
fn a_missing_source_is_created() {
    assert_eq!(
        link_steps("data/", false, Target::Missing),
        vec![
            LinkStep::CreateSourceDir,
            LinkStep::CreateTargetParent,
            LinkStep::Link
        ]
    );
    assert_eq!(
        link_steps("db.sqlite", false, Target::Other),
        vec![
            LinkStep::CreateSourceParent,
            LinkStep::CreateSourceFile,
            LinkStep::RemoveTargetFile,
            LinkStep::CreateTargetParent,
            LinkStep::Link
        ]
    );
}

#[test]
fn an_existing_source_is_kept() {
    assert_eq!(
        link_steps("data/", true, Target::Directory),
        vec![
            LinkStep::RemoveTargetDir,
            LinkStep::CreateTargetParent,
            LinkStep::Link
        ]
    );
}
