use std::collections::BTreeMap;

use tinycd::config::{FileConfig, Overrides};
use tinycd::env_table::EnvTable;
use tinycd::recipe::{default_shell, git_changes, run_spec, shell_command, Change, RunSpec, Stage};

fn overrides() -> Overrides {
    Overrides {
        shell: None,
        env: EnvTable::new(),
        install: None,
        start: None,
        check: None,
    }
}

fn table(pairs: &[(&str, &str)]) -> EnvTable {
    let mut table = EnvTable::new();
    for (name, value) in pairs {
        table.insert((*name).to_owned(), (*value).to_owned());
    }
    table
}

fn applied(changes: &[Change], inherited: &[(&str, &str)]) -> BTreeMap<String, String> {
    let mut env: BTreeMap<String, String> = inherited
        .iter()
        .map(|(name, value)| ((*name).to_owned(), (*value).to_owned()))
        .collect();
    for change in changes {
        match change {
            Change::Remove(name) => {
                env.remove(name);
            }
            Change::Put(name, value) => {
                env.insert(name.clone(), value.clone());
            }
        }
    }
    env
}

fn merged_spec(result: Result<RunSpec, String>) -> RunSpec {
    match result {
        Ok(spec) => spec,
        Err(message) => panic!("refused: {message}"),
    }
}

#[test]
fn the_platform_shell() {
    assert_eq!(default_shell(false), vec!["sh", "-c"]);
    assert_eq!(default_shell(true), vec!["cmd", "/C"]);
}

#[test]
fn the_shell_comes_from_the_first_layer_that_names_one() {
    let mut local = overrides();
    assert_eq!(local.resolve_shell(None, false), vec!["sh", "-c"]);
    let repository = Some(vec!["bash".to_owned()]);
    assert_eq!(local.resolve_shell(repository.clone(), false), vec!["bash"]);
    local.shell = Some(vec!["zsh".to_owned(), "-c".to_owned()]);
    assert_eq!(local.resolve_shell(repository, true), vec!["zsh", "-c"]);
}

#[test]
fn the_recipe_comes_from_the_repository_unless_overridden() {
    let mut local = overrides();
    local.start = Some("local start".to_owned());
    local.env = table(&[("A", "local"), ("B", "local")]);
    let mut repository: FileConfig<String> = FileConfig::empty();
    repository.start = Some("repository start".to_owned());
    repository.install = Some("npm ci".to_owned());
    repository.check = Some("curl".to_owned());
    repository.env = table(&[("B", "repository"), ("C", "repository")]);
    repository.poll = Some(1);
    repository.keep = Some(0);
    let spec = merged_spec(run_spec(&local, repository, false));
    assert_eq!(spec.start, "local start");
    assert_eq!(spec.install.as_deref(), Some("npm ci"));
    assert_eq!(spec.check.as_deref(), Some("curl"));
    assert_eq!(spec.shell, vec!["sh", "-c"]);
    assert_eq!(spec.env.get("A"), Some("local"));
    assert_eq!(spec.env.get("B"), Some("local"));
    assert_eq!(spec.env.get("C"), Some("repository"));
}

#[test]
fn a_recipe_needs_a_start_command() {
    let repository: FileConfig<String> = FileConfig::empty();
    match run_spec(&overrides(), repository, false) {
        Ok(_) => panic!("accepted"),
        Err(message) => assert_eq!(
            message,
            "start is not configured; set it in .tinycd/config.toml (committed or local) or with --start"
        ),
    }
}

#[test]
fn a_recipe_needs_a_shell() {
    let mut repository: FileConfig<String> = FileConfig::empty();
    repository.shell = Some(vec![]);
    repository.start = Some("x".to_owned());
    match run_spec(&overrides(), repository, false) {
        Ok(_) => panic!("accepted"),
        Err(message) => assert_eq!(message, "shell must name a program"),
    }
}

#[test]
fn a_misplaced_setting_in_the_repository_is_refused() {
    let mut repository: FileConfig<String> = FileConfig::empty();
    repository.start = Some("x".to_owned());
    repository.env = table(&[("install", "npm ci")]);
    match run_spec(&overrides(), repository, false) {
        Ok(_) => panic!("accepted"),
        Err(message) => assert!(message.starts_with("[env] contains 'install', which is")),
    }
}

const INHERITED: [(&str, &str); 5] = [
    ("PATH", "/bin"),
    ("HOME", "/home/me"),
    ("TINYCD_TOKEN", "secret"),
    ("TINYCD_REPO", "stale"),
    ("TINYCD_REF", "stale"),
];

#[test]
fn the_sync_learns_the_repository() {
    let shell = default_shell(false);
    let env = table(&[("HOME", "/elsewhere"), ("TINYCD_REPO", "table")]);
    let stage = Stage::Sync {
        repo: "https://example.com/a.git",
        git_ref: Some("main"),
    };
    let command = shell_command(&shell, &env, "git clone .", stage);
    assert_eq!(command.program, "sh");
    assert_eq!(command.args, vec!["-c", "git clone ."]);
    let seen = applied(&command.changes, &INHERITED);
    let expected: BTreeMap<String, String> = [
        ("PATH", "/bin"),
        ("HOME", "/elsewhere"),
        ("TINYCD_REPO", "https://example.com/a.git"),
        ("TINYCD_REF", "main"),
    ]
    .iter()
    .map(|(name, value)| ((*name).to_owned(), (*value).to_owned()))
    .collect();
    assert_eq!(seen, expected);

    let stage = Stage::Sync {
        repo: "r",
        git_ref: None,
    };
    let command = shell_command(&shell, &EnvTable::new(), "x", stage);
    let seen = applied(&command.changes, &INHERITED);
    assert_eq!(seen.get("TINYCD_REPO").map(String::as_str), Some("r"));
    assert!(!seen.contains_key("TINYCD_REF"));
    assert!(!seen.contains_key("TINYCD_TOKEN"));
}

#[test]
fn install_and_start_never_see_the_secrets() {
    let shell = vec!["powershell".to_owned(), "-Command".to_owned()];
    let env = table(&[
        ("TINYCD_TOKEN", "table"),
        ("TINYCD_REPO", "table"),
        ("TINYCD_REF", "table"),
        ("PORT", "3000"),
    ]);
    for stage in [Stage::Install, Stage::Start] {
        let command = shell_command(&shell, &env, "go", stage);
        assert_eq!(command.program, "powershell");
        assert_eq!(command.args, vec!["-Command", "go"]);
        let seen = applied(&command.changes, &INHERITED);
        let names: Vec<&str> = seen.keys().map(String::as_str).collect();
        assert_eq!(names, vec!["HOME", "PATH", "PORT"]);
    }
    let command = shell_command(&shell, &env, "go", Stage::Check);
    let seen = applied(&command.changes, &INHERITED);
    let names: Vec<&str> = seen.keys().map(String::as_str).collect();
    assert_eq!(names, vec!["HOME", "PATH", "PORT", "TINYCD_TOKEN"]);
    assert_eq!(seen["TINYCD_TOKEN"], "table");
}

#[test]
fn git_never_sees_the_secrets() {
    let seen = applied(&git_changes(), &INHERITED);
    let names: Vec<&str> = seen.keys().map(String::as_str).collect();
    assert_eq!(names, vec!["HOME", "PATH"]);
}
