use tinycd::source::{
    get_url_args, local_config, looks_like_git_url, ls_remote_args, project_dir,
    refresh_local_config, remote_head, repo_url, LsRemote, Source,
};
use tinycd::toml_text::toml_escape;

#[test]
fn urls_are_told_from_paths() {
    for url in [
        "https://github.com/e/app.git",
        "git@github.com:example/app.git",
        "host:path",
        "ssh://x",
        "C:\\app://",
        "\u{e9}:x",
    ] {
        assert!(looks_like_git_url(url), "{url}");
    }
    for path in [
        "C:\\app", "c:/app", ".", "~/code/app", "/srv/a:b", "dir\\a:b", ":x", "plain", "",
    ] {
        assert!(!looks_like_git_url(path), "{path}");
    }
}

#[test]
fn sources_are_resolved() {
    assert!(matches!(
        Source::<String>::resolve(None, None),
        Ok(Source::Checkout(None))
    ));
    assert!(matches!(
        Source::resolve(None, Some("x".to_owned())),
        Ok(Source::Checkout(None))
    ));
    match Source::resolve(Some("git@h:p".to_owned()), Some("dir".to_owned())) {
        Ok(Source::Url { repo, home }) => {
            assert_eq!(repo, "git@h:p");
            assert_eq!(home.as_deref(), Some("dir"));
        }
        _ => panic!("no URL"),
    }
    assert!(matches!(
        Source::<String>::resolve(Some("code".to_owned()), None),
        Ok(Source::Checkout(Some(path))) if path == "code"
    ));
    match Source::resolve(Some("code".to_owned()), Some("dir".to_owned())) {
        Err(message) => assert_eq!(message, "a second path is only accepted after a Git URL"),
        Ok(_) => panic!("accepted"),
    }
}

#[test]
fn a_checkout_is_an_existing_directory() {
    assert_eq!(project_dir("app", Some(7)), Ok(7));
    assert_eq!(
        project_dir::<u8>("app", None),
        Err("app is neither an existing directory nor a Git URL".to_owned())
    );
}

#[test]
fn the_record_of_a_deployment() {
    let record = local_config("https://h/\"a\\b\".git");
    assert_eq!(
        record,
        "# Written by tinycd; running `tinycd` in this directory resumes the deployment.\nrepo = \"https://h/\\\"a\\\\b\\\".git\"\nroot = \".\"\n"
    );
    let table: toml::Table = toml::from_str(&record).unwrap();
    assert_eq!(table["repo"].as_str(), Some("https://h/\"a\\b\".git"));
    assert_eq!(table["root"].as_str(), Some("."));
    assert_eq!(table.len(), 2);
}

#[test]
fn only_own_records_are_refreshed() {
    let record = local_config("git@h:new");
    assert_eq!(
        refresh_local_config(None, "git@h:new").as_deref(),
        Some(record.as_str())
    );
    assert_eq!(refresh_local_config(Some(&record), "git@h:new"), None);
    assert_eq!(
        refresh_local_config(Some(&local_config("git@h:old")), "git@h:new").as_deref(),
        Some(record.as_str())
    );
    assert_eq!(
        refresh_local_config(Some("repo = \"mine\"\n"), "git@h:new"),
        None
    );
}

#[test]
fn values_are_escaped() {
    assert_eq!(toml_escape("plain"), "plain");
    assert_eq!(toml_escape("a\"b\\c"), "a\\\"b\\\\c");
    assert_eq!(toml_escape("\\\""), "\\\\\\\"");
}

#[test]
fn remotes_are_expanded() {
    assert_eq!(get_url_args(None), vec!["remote", "get-url", "origin"]);
    assert_eq!(
        get_url_args(Some("upstream")),
        vec!["remote", "get-url", "upstream"]
    );
    assert_eq!(
        repo_url(Some("upstream".to_owned()), Some(" git@h:p\n"), "/w"),
        Ok("git@h:p".to_owned())
    );
    assert_eq!(
        repo_url(Some("https://x".to_owned()), None, "/w"),
        Ok("https://x".to_owned())
    );
    assert_eq!(
        repo_url(None, None, "/w"),
        Err("/w is not a Git checkout with an origin remote; pass a Git URL or set repo in .tinycd/config.toml".to_owned())
    );
}

fn output(success: bool, stdout: &str, stderr: &str) -> LsRemote {
    LsRemote {
        success,
        status: "exit status: 128".to_owned(),
        stdout: stdout.to_owned(),
        stderr: stderr.to_owned(),
    }
}

#[test]
fn the_commit_of_the_remote() {
    assert_eq!(ls_remote_args("r", None), vec!["ls-remote", "r", "HEAD"]);
    assert_eq!(
        ls_remote_args("r", Some("main")),
        vec!["ls-remote", "r", "main"]
    );
    assert_eq!(
        remote_head(
            &output(true, "abc123\trefs/heads/v1\ndef456\trefs/tags/v1\n", ""),
            "r",
            Some("v1")
        ),
        Ok("abc123".to_owned())
    );
    let listed = "aaa\trefs/heads/feature/production\nbbb\trefs/heads/production\n";
    assert_eq!(
        remote_head(&output(true, listed, ""), "r", Some("production")),
        Ok("bbb".to_owned())
    );
    assert_eq!(
        remote_head(&output(true, listed, ""), "r", Some("heads/production")),
        Ok("bbb".to_owned())
    );
    assert_eq!(
        remote_head(
            &output(true, listed, ""),
            "r",
            Some("refs/heads/feature/production")
        ),
        Ok("aaa".to_owned())
    );
    assert_eq!(
        remote_head(
            &output(true, "aaa\trefs/heads/x/v1\nccc\trefs/tags/v1\n", ""),
            "r",
            Some("v1")
        ),
        Ok("ccc".to_owned())
    );
    assert_eq!(
        remote_head(
            &output(true, "aaa\trefs/heads/tags/v1\nbbb\trefs/tags/v1\n", ""),
            "r",
            Some("tags/v1")
        ),
        Ok("aaa".to_owned())
    );
    assert_eq!(
        remote_head(
            &output(
                true,
                "aaa\trefs/heads/heads/main\nbbb\trefs/heads/main\n",
                ""
            ),
            "r",
            Some("heads/main")
        ),
        Ok("aaa".to_owned())
    );
    assert_eq!(
        remote_head(
            &output(true, "aaa\tHEAD\nbbb\trefs/remotes/origin/HEAD\n", ""),
            "r",
            None
        ),
        Ok("aaa".to_owned())
    );
    assert_eq!(
        remote_head(
            &output(true, "aaa\trefs/heads/feature/production\n", ""),
            "r",
            Some("production")
        ),
        Err("r has no ref production".to_owned())
    );
    assert_eq!(
        remote_head(&output(true, "\n", ""), "r", Some("gone")),
        Err("r has no ref gone".to_owned())
    );
    assert_eq!(
        remote_head(&output(true, "", ""), "r", None),
        Err("r has no ref HEAD".to_owned())
    );
    assert_eq!(
        remote_head(&output(false, "abc", " fatal: no\n"), "r", None),
        Err("git ls-remote exited with exit status: 128: fatal: no".to_owned())
    );
}
