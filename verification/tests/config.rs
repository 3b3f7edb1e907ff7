use sha2::Digest;
use tinycd::config::{
    failed, file_source, is_setting, is_strong, locate_interlock, locate_root, repo_given_twice,
    state_key, Cli, Config, FileConfig, Interlock, Mode, Place, ReadFile, Root, Surroundings,
};
use tinycd::env_table::EnvTable;

const TOKEN: &str = "0123456789abcdef0123456789abcdef";

fn cli() -> Cli<String> {
    Cli {
        poll: None,
        hook: None,
        token: None,
        repo: None,
        git_ref: None,
        share: vec![],
        check: None,
        interlock: None,
        root: None,
        shell: vec![],
        env: vec![],
        sync: None,
        install: None,
        start: None,
        keep: None,
    }
}

fn file() -> FileConfig<String> {
    FileConfig::empty()
}

fn around() -> Surroundings<String> {
    Surroundings {
        windows: false,
        config_path: "/work/app/.tinycd/config.toml".to_owned(),
        config_permissions: None,
        user_home: Some("/home/me".to_owned()),
        user_home_empty: false,
        project_name: Some("app".to_owned()),
        project_path: b"/work/app".to_vec(),
        project_text: "/work/app".to_owned(),
        remote_url: Some("git@example.com:me/app.git\n".to_owned()),
    }
}

fn local() -> Mode<String> {
    Mode::Local {
        project: "/work/app".to_owned(),
    }
}

fn url() -> Mode<String> {
    Mode::Url {
        repo: "https://example.com/app.git".to_owned(),
        home: "/srv/app".to_owned(),
    }
}

fn accepted(result: Result<Config<String>, String>) -> Config<String> {
    match result {
        Ok(config) => config,
        Err(message) => panic!("refused: {message}"),
    }
}

fn refused(result: Result<Config<String>, String>) -> String {
    match result {
        Ok(_) => panic!("accepted"),
        Err(message) => message,
    }
}

#[test]
fn defaults_of_a_checkout() {
    let config = accepted(Config::load(cli(), file(), local(), around()));
    assert_eq!(config.poll, Some(30));
    assert_eq!(config.hook, None);
    assert_eq!(config.repo, "git@example.com:me/app.git");
    assert_eq!(config.sync, "git clone --depth 1 \"$TINYCD_REPO\" .");
    assert_eq!(config.keep, 5);
    assert!(config.share.is_empty());
    assert!(config.overrides.shell.is_none());
    assert!(matches!(config.interlock, Interlock::InRoot));
    match config.root {
        Root::State { home, key } => {
            assert_eq!(home, "/home/me");
            assert!(key.starts_with("app-"));
            assert_eq!(key.len(), 12);
        }
        _ => panic!("another root"),
    }
}

#[test]
fn state_key_uses_the_digest_of_the_path() {
    let digest = sha2::Sha256::digest(b"/work/app");
    let config = accepted(Config::load(cli(), file(), local(), around()));
    let expected = format!(
        "app-{:02x}{:02x}{:02x}{:02x}",
        digest[0], digest[1], digest[2], digest[3]
    );
    match config.root {
        Root::State { key, .. } => assert_eq!(key, expected),
        _ => panic!("another root"),
    }
}

#[test]
fn state_key_is_made_of_safe_characters() {
    let mut digest = [0u8; 32];
    digest[..4].copy_from_slice(&[0x00, 0xab, 0x0c, 0xff]);
    assert_eq!(state_key(Some("my app!"), &digest), "my-app--00ab0cff");
    assert_eq!(state_key(Some("a.b_c-D9"), &digest), "a.b_c-D9-00ab0cff");
    assert_eq!(state_key(Some("caf\u{e9}"), &digest), "caf--00ab0cff");
    assert_eq!(state_key(Some(""), &digest), "project-00ab0cff");
    assert_eq!(state_key(None, &digest), "project-00ab0cff");
}

#[test]
fn a_url_deploys_into_its_home() {
    let mut surroundings = around();
    surroundings.user_home = None;
    surroundings.remote_url = None;
    let config = accepted(Config::load(cli(), file(), url(), surroundings));
    assert_eq!(config.repo, "https://example.com/app.git");
    assert!(matches!(config.root, Root::Home(home) if home == "/srv/app"));
}

#[test]
fn the_command_line_wins_over_the_file() {
    let mut given = cli();
    given.poll = Some(5);
    given.root = Some("here".to_owned());
    given.interlock = Some("stop".to_owned());
    given.start = Some("serve".to_owned());
    given.keep = Some(2);
    given.share = vec!["data/".to_owned()];
    given.shell = vec!["bash".to_owned(), "-c".to_owned()];
    let mut local_file = file();
    local_file.poll = Some(9);
    local_file.root = Some(".".to_owned());
    local_file.interlock = Some("interlock".to_owned());
    local_file.start = Some("other".to_owned());
    local_file.install = Some("make".to_owned());
    local_file.keep = Some(7);
    local_file.share = Some(vec![".env".to_owned()]);
    local_file.shell = Some(vec!["zsh".to_owned()]);
    let config = accepted(Config::load(given, local_file, local(), around()));
    assert_eq!(config.poll, Some(5));
    assert!(matches!(config.root, Root::Given(root) if root == "here"));
    assert!(matches!(config.interlock, Interlock::Given(path) if path == "stop"));
    assert_eq!(config.overrides.start.as_deref(), Some("serve"));
    assert_eq!(config.overrides.install.as_deref(), Some("make"));
    assert_eq!(config.keep, 2);
    assert_eq!(config.share, vec!["data/"]);
    assert_eq!(
        config.overrides.shell,
        Some(vec!["bash".to_owned(), "-c".to_owned()])
    );
}

#[test]
fn paths_of_the_file_lie_beside_it() {
    let mut local_file = file();
    local_file.root = Some(".".to_owned());
    local_file.interlock = Some("interlock".to_owned());
    let config = accepted(Config::load(cli(), local_file, local(), around()));
    assert!(matches!(config.root, Root::BesideConfig(root) if root == "."));
    assert!(matches!(config.interlock, Interlock::BesideConfig(path) if path == "interlock"));
}

#[test]
fn a_webhook_alone_does_not_poll() {
    let mut given = cli();
    given.hook = Some("127.0.0.1:8080".to_owned());
    given.token = Some(TOKEN.to_owned());
    let config = accepted(Config::load(given, file(), local(), around()));
    assert_eq!(config.poll, None);
    assert_eq!(config.hook.as_deref(), Some("127.0.0.1:8080"));

    let mut both = cli();
    both.hook = Some("127.0.0.1:8080".to_owned());
    both.token = Some(TOKEN.to_owned());
    both.poll = Some(60);
    assert_eq!(
        accepted(Config::load(both, file(), local(), around())).poll,
        Some(60)
    );
}

#[test]
fn default_sync_commands() {
    let mut with_ref = cli();
    with_ref.git_ref = Some("production".to_owned());
    assert_eq!(
        accepted(Config::load(with_ref, file(), local(), around())).sync,
        "git clone --depth 1 --branch \"$TINYCD_REF\" \"$TINYCD_REPO\" ."
    );
    let mut windows = around();
    windows.windows = true;
    assert_eq!(
        accepted(Config::load(cli(), file(), local(), windows)).sync,
        "git clone --depth 1 \"%TINYCD_REPO%\" ."
    );
    let mut windows_ref = around();
    windows_ref.windows = true;
    let mut with_ref = cli();
    with_ref.git_ref = Some("v1".to_owned());
    assert_eq!(
        accepted(Config::load(with_ref, file(), local(), windows_ref)).sync,
        "git clone --depth 1 --branch \"%TINYCD_REF%\" \"%TINYCD_REPO%\" ."
    );
    let mut custom = cli();
    custom.sync = Some("fetch".to_owned());
    assert_eq!(
        accepted(Config::load(custom, file(), local(), around())).sync,
        "fetch"
    );
}

#[test]
fn the_repository_is_given_once() {
    let mut given = cli();
    given.repo = Some("origin".to_owned());
    assert!(repo_given_twice(&given, &url()));
    assert!(!repo_given_twice(&given, &local()));
    assert!(!repo_given_twice(&cli(), &url()));
    assert_eq!(
        refused(Config::load(given, file(), url(), around())),
        "pass the repository as either the first argument or --repo, not both"
    );
}

#[test]
fn a_token_in_the_file_is_private() {
    let mut local_file = file();
    local_file.token = Some(TOKEN.to_owned());
    let mut surroundings = around();
    surroundings.config_permissions = Some(0o100640);
    assert_eq!(
        refused(Config::load(cli(), local_file, local(), surroundings)),
        "/work/app/.tinycd/config.toml contains a token and must not be readable by group or other users"
    );
    let mut local_file = file();
    local_file.token = Some(TOKEN.to_owned());
    let mut surroundings = around();
    surroundings.config_permissions = Some(0o100600);
    let config = accepted(Config::load(cli(), local_file, local(), surroundings));
    assert_eq!(config.token.as_deref(), Some(TOKEN));
    let mut surroundings = around();
    surroundings.config_permissions = Some(0o100644);
    accepted(Config::load(cli(), file(), local(), surroundings));
}

#[test]
fn polling_takes_at_least_a_second() {
    let mut local_file = file();
    local_file.poll = Some(0);
    assert_eq!(
        refused(Config::load(cli(), local_file, local(), around())),
        "poll must be at least one second"
    );
}

#[test]
fn a_webhook_needs_a_strong_token() {
    let mut given = cli();
    given.hook = Some("127.0.0.1:8080".to_owned());
    assert_eq!(
        refused(Config::load(given, file(), local(), around())),
        "hook mode requires --token, TINYCD_TOKEN, or token in .tinycd/config.toml"
    );
    for weak in [
        "short",
        "0123456789abcdef 0123456789abcdef",
        "0123456789abcdef0123456789abcde\u{e9}",
    ] {
        let mut given = cli();
        given.token = Some(weak.to_owned());
        assert_eq!(
            refused(Config::load(given, file(), local(), around())),
            "the webhook token must be at least 32 printable non-space ASCII bytes"
        );
    }
    assert!(is_strong(TOKEN));
    assert!(is_strong("!~!~!~!~!~!~!~!~!~!~!~!~!~!~!~!~"));
    assert!(!is_strong("0123456789abcdef0123456789abcde"));
    assert!(!is_strong("0123456789abcdef0123456789abcde\u{7f}"));
}

#[test]
fn a_checkout_needs_a_home() {
    let mut surroundings = around();
    surroundings.user_home = None;
    assert_eq!(
        refused(Config::load(cli(), file(), local(), surroundings)),
        "HOME must be set to place deployments; or pass --root"
    );
    let mut surroundings = around();
    surroundings.user_home_empty = true;
    surroundings.windows = true;
    assert_eq!(
        refused(Config::load(cli(), file(), local(), surroundings)),
        "USERPROFILE must be set to place deployments; or pass --root"
    );
    let mut surroundings = around();
    surroundings.user_home = None;
    let mut given = cli();
    given.root = Some("/srv".to_owned());
    accepted(Config::load(given, file(), local(), surroundings));
}

#[test]
fn a_shell_names_a_program() {
    let mut local_file = file();
    local_file.shell = Some(vec![]);
    assert_eq!(
        refused(Config::load(cli(), local_file, local(), around())),
        "shell must name a program"
    );
}

#[test]
fn settings_do_not_belong_into_the_table() {
    let mut env = EnvTable::new();
    env.insert("start".to_owned(), "npm start".to_owned());
    env.insert("keep".to_owned(), "3".to_owned());
    let mut local_file = file();
    local_file.env = env;
    assert_eq!(
        refused(Config::load(cli(), local_file, local(), around())),
        "[env] contains 'keep', which is a tinycd setting; move it above the [env] table, or pass --env keep=... for a variable really named that"
    );
    let mut given = cli();
    given.env = vec!["keep=3".to_owned()];
    let config = accepted(Config::load(given, file(), local(), around()));
    assert_eq!(config.overrides.env.get("keep"), Some("3"));
}

#[test]
fn every_setting_is_known() {
    for name in [
        "poll", "hook", "token", "repo", "ref", "share", "interlock", "root", "shell", "sync",
        "install", "start", "check", "keep", "env",
    ] {
        assert!(is_setting(name));
    }
    assert!(!is_setting("POLL"));
    assert!(!is_setting("git_ref"));
    assert!(!is_setting(""));
}

#[test]
fn env_arguments_override_the_table() {
    let mut env = EnvTable::new();
    env.insert("A".to_owned(), "file".to_owned());
    env.insert("B".to_owned(), "file".to_owned());
    let mut local_file = file();
    local_file.env = env;
    let mut given = cli();
    given.env = vec![
        "A=first".to_owned(),
        "C=x=y".to_owned(),
        "A=last".to_owned(),
        "D=".to_owned(),
    ];
    let config = accepted(Config::load(given, local_file, local(), around()));
    assert_eq!(config.overrides.env.get("A"), Some("last"));
    assert_eq!(config.overrides.env.get("B"), Some("file"));
    assert_eq!(config.overrides.env.get("C"), Some("x=y"));
    assert_eq!(config.overrides.env.get("D"), Some(""));
    assert_eq!(config.overrides.env.get("E"), None);
    assert_eq!(config.overrides.env.len(), 4);
}

#[test]
fn env_arguments_look_like_pairs() {
    for bad in ["PLAIN", "=value"] {
        let mut given = cli();
        given.env = vec!["A=1".to_owned(), bad.to_owned()];
        assert_eq!(
            refused(Config::load(given, file(), local(), around())),
            format!("--env {bad} must look like KEY=VALUE")
        );
    }
}

#[test]
fn at_least_one_release_is_kept() {
    let mut given = cli();
    given.keep = Some(0);
    assert_eq!(
        refused(Config::load(given, file(), local(), around())),
        "keep must be at least one deployment"
    );
}

#[test]
fn a_checkout_needs_a_repository() {
    let mut surroundings = around();
    surroundings.remote_url = None;
    assert_eq!(
        refused(Config::load(cli(), file(), local(), surroundings)),
        "/work/app is not a Git checkout with an origin remote; pass a Git URL or set repo in .tinycd/config.toml"
    );
    let mut surroundings = around();
    surroundings.remote_url = None;
    let mut local_file = file();
    local_file.repo = Some("https://example.com/x.git".to_owned());
    assert_eq!(
        accepted(Config::load(cli(), local_file, local(), surroundings)).repo,
        "https://example.com/x.git"
    );
}

#[test]
fn shared_entries_are_relative() {
    let mut given = cli();
    given.share = vec!["data/".to_owned(), "../secret".to_owned()];
    assert_eq!(
        refused(Config::load(given, file(), local(), around())),
        "share entry \"../secret\" must be a relative path"
    );
    let mut local_file = file();
    local_file.share = Some(vec!["/etc/\u{7}".to_owned()]);
    assert_eq!(
        refused(Config::load(cli(), local_file, local(), around())),
        "share entry \"/etc/\\u{7}\" must be a relative path"
    );
}

#[test]
fn a_file_may_be_missing_unless_it_is_named() {
    let missing = || ReadFile::Missing("gone".to_owned());
    assert_eq!(file_source(missing(), false, "c.toml"), Ok(None));
    assert_eq!(
        file_source(missing(), true, "c.toml"),
        Err("failed to read c.toml: gone".to_owned())
    );
    assert_eq!(
        file_source(ReadFile::Failed("denied".to_owned()), false, "c.toml"),
        Err("failed to read c.toml: denied".to_owned())
    );
    assert_eq!(
        file_source(ReadFile::Text("poll = 1".to_owned()), true, "c.toml"),
        Ok(Some("poll = 1".to_owned()))
    );
    assert_eq!(failed("parse", "c.toml", "bad"), "failed to parse c.toml: bad");
}

#[test]
fn a_plain_run_resumes_a_url_deployment() {
    let record: toml::Table =
        toml::from_str(&tinycd::source::local_config("https://example.com/app.git")).unwrap();
    let recorded = || {
        let mut given = file();
        given.repo = record["repo"].as_str().map(str::to_owned);
        given.root = record["root"].as_str().map(str::to_owned);
        given
    };
    let bare = || {
        let mut surroundings = around();
        surroundings.remote_url = None;
        surroundings.user_home = None;
        surroundings
    };
    let plain = Mode::Local {
        project: "/srv/app".to_owned(),
    };
    let deployed = accepted(Config::load(cli(), recorded(), url(), bare()));
    let resumed = accepted(Config::load(cli(), recorded(), plain, bare()));
    assert_eq!(deployed.repo, "https://example.com/app.git");
    assert_eq!(resumed.repo, deployed.repo);
    assert!(matches!(deployed.root, Root::BesideConfig(root) if root == "."));
    assert!(matches!(resumed.root, Root::BesideConfig(root) if root == "."));
}

fn reached(place: Place<String>) -> (String, bool) {
    let mut path = std::path::PathBuf::from(place.base);
    path.extend(place.below);
    path.extend(place.names);
    (path.to_str().unwrap().to_owned(), place.made_absolute)
}

#[test]
fn where_the_root_is() {
    let root = |root: Root<String>, is_absolute: bool| {
        reached(locate_root(root, is_absolute, "/work/.tinycd".to_owned()))
    };
    assert_eq!(
        root(Root::Given("here".to_owned()), false),
        ("here".to_owned(), false)
    );
    assert_eq!(
        root(Root::BesideConfig("data".to_owned()), false),
        ("/work/.tinycd/data".to_owned(), true)
    );
    assert_eq!(
        root(Root::BesideConfig("/srv".to_owned()), true),
        ("/srv".to_owned(), true)
    );
    let state = Root::State {
        home: "/home/me".to_owned(),
        key: "app-00ab0cff".to_owned(),
    };
    assert_eq!(
        root(state, false),
        ("/home/me/.tinycd/app-00ab0cff".to_owned(), false)
    );
    assert_eq!(
        root(Root::Home("/srv/app".to_owned()), false),
        ("/srv/app/.tinycd".to_owned(), false)
    );
}

#[test]
fn where_the_interlock_is() {
    let interlock = |interlock: Interlock<String>, is_absolute: bool| {
        reached(locate_interlock(
            interlock,
            is_absolute,
            "/work/.tinycd".to_owned(),
            "/root".to_owned(),
        ))
    };
    assert_eq!(
        interlock(Interlock::Given("stop".to_owned()), false),
        ("stop".to_owned(), false)
    );
    assert_eq!(
        interlock(Interlock::BesideConfig("stop".to_owned()), false),
        ("/work/.tinycd/stop".to_owned(), true)
    );
    assert_eq!(
        interlock(Interlock::BesideConfig("/stop".to_owned()), true),
        ("/stop".to_owned(), true)
    );
    assert_eq!(
        interlock(Interlock::InRoot, false),
        ("/root/interlock".to_owned(), false)
    );
}
