use tinycd::screen::{Key, KeyCode, Line, Tone};
use tinycd::wizard::{config_files, config_toml, suggest, Answers, Flow, Found, Step, Wizard};

fn key(code: KeyCode) -> Key {
    Key {
        code,
        control: false,
        alt: false,
    }
}

fn press(wizard: &mut Wizard, code: KeyCode) {
    assert!(matches!(wizard.handle(key(code)), Flow::Stay));
}

fn write(wizard: &mut Wizard, text: &str) {
    for c in text.chars() {
        press(wizard, KeyCode::Char(c));
    }
}

fn wizard(origin: Option<&str>) -> Wizard {
    Wizard::new(
        "/work/app",
        origin,
        ("npm ci".to_owned(), "npm start".to_owned()),
    )
}

fn texts(lines: &[Line]) -> Vec<String> {
    lines
        .iter()
        .map(|line| line.spans.iter().map(|span| span.text.as_str()).collect())
        .collect()
}

#[test]
fn commands_are_suggested() {
    let mut found = Found {
        package_json: true,
        cargo_toml: true,
        go_mod: true,
        requirements_txt: true,
    };
    assert_eq!(suggest(&found), ("npm ci".to_owned(), "npm start".to_owned()));
    found.package_json = false;
    assert_eq!(
        suggest(&found),
        (
            "cargo build --release".to_owned(),
            "cargo run --release".to_owned()
        )
    );
    found.cargo_toml = false;
    assert_eq!(
        suggest(&found),
        ("go build -o app .".to_owned(), "./app".to_owned())
    );
    found.go_mod = false;
    assert_eq!(
        suggest(&found),
        ("pip install -r requirements.txt".to_owned(), String::new())
    );
    found.requirements_txt = false;
    assert_eq!(suggest(&found), (String::new(), String::new()));
}

#[test]
fn the_way_through_the_wizard() {
    let mut wizard = wizard(Some("git@h:p"));
    press(&mut wizard, KeyCode::Char('y'));
    assert_eq!(wizard.step, Step::Repo);
    press(&mut wizard, KeyCode::Enter);
    press(&mut wizard, KeyCode::Enter);
    assert_eq!(wizard.step, Step::Start);
    write(&mut wizard, " --port 1");
    press(&mut wizard, KeyCode::Backspace);
    press(&mut wizard, KeyCode::Enter);
    assert_eq!(wizard.step, Step::State);
    press(&mut wizard, KeyCode::Char(' '));
    press(&mut wizard, KeyCode::Enter);
    assert_eq!(wizard.step, Step::Summary);
    match wizard.handle(key(KeyCode::Enter)) {
        Flow::Done(answers) => {
            assert_eq!(answers.repo, None);
            assert_eq!(answers.install.as_deref(), Some("npm ci"));
            assert_eq!(answers.start, "npm start --port");
            assert!(answers.local_state);
        }
        _ => panic!("not done"),
    }
}

#[test]
fn a_repository_is_required_without_an_origin() {
    let mut wizard = wizard(None);
    press(&mut wizard, KeyCode::Enter);
    write(&mut wizard, "  ");
    press(&mut wizard, KeyCode::Enter);
    assert_eq!(wizard.step, Step::Repo);
    assert_eq!(
        wizard.error.as_deref(),
        Some("a Git URL or remote name is required: this checkout has no origin")
    );
    write(&mut wizard, "git@h:p ");
    assert_eq!(wizard.error, None);
    press(&mut wizard, KeyCode::Enter);
    assert_eq!(wizard.step, Step::Install);
    assert_eq!(wizard.answers().repo.as_deref(), Some("git@h:p"));
}

#[test]
fn a_start_command_is_required() {
    let mut wizard = Wizard::new("/w", Some("o"), (String::new(), String::new()));
    press(&mut wizard, KeyCode::Enter);
    press(&mut wizard, KeyCode::Enter);
    press(&mut wizard, KeyCode::Enter);
    assert_eq!(wizard.step, Step::Start);
    press(&mut wizard, KeyCode::Enter);
    assert_eq!(wizard.step, Step::Start);
    assert_eq!(wizard.error.as_deref(), Some("a start command is required"));
    assert_eq!(wizard.answers().install, None);
}

#[test]
fn escape_goes_back_page_by_page() {
    let mut wizard = wizard(Some("o"));
    wizard.step = Step::Summary;
    for step in [
        Step::State,
        Step::Start,
        Step::Install,
        Step::Repo,
        Step::Intro,
    ] {
        press(&mut wizard, KeyCode::Esc);
        assert_eq!(wizard.step, step);
    }
    assert!(matches!(wizard.handle(key(KeyCode::Esc)), Flow::Cancel));
}

#[test]
fn going_back_undoes_confirming() {
    let mut wizard = wizard(Some("o"));
    wizard.step = Step::Repo;
    for step in [Step::Repo, Step::Install, Step::Start] {
        assert_eq!(wizard.step, step);
        wizard.advance();
        wizard.back();
        assert_eq!(wizard.step, step);
        wizard.advance();
    }
    assert_eq!(wizard.step, Step::State);
    wizard.advance();
    assert_eq!(wizard.step, Step::State);
}

#[test]
fn the_wizard_can_be_cancelled() {
    for code in [KeyCode::Esc, KeyCode::Char('n'), KeyCode::Char('q')] {
        assert!(matches!(wizard(None).handle(key(code)), Flow::Cancel));
    }
    let mut started = wizard(Some("o"));
    started.step = Step::Start;
    let interrupt = Key {
        code: KeyCode::Char('c'),
        control: true,
        alt: false,
    };
    assert!(matches!(started.handle(interrupt), Flow::Cancel));
}

#[test]
fn the_field_of_a_page() {
    let mut wizard = wizard(Some("o"));
    wizard.step = Step::Install;
    wizard.field().push('!');
    assert_eq!(wizard.install, "npm ci!");
    wizard.step = Step::Repo;
    wizard.field().pop();
    assert_eq!(wizard.repo, "");
    assert_eq!(wizard.field().pop(), None);
    wizard.step = Step::Start;
    wizard.field().push('?');
    assert_eq!(wizard.start, "npm start?");
    let held = Key {
        code: KeyCode::Char('x'),
        control: false,
        alt: true,
    };
    assert!(matches!(wizard.handle(held), Flow::Stay));
    assert_eq!(wizard.start, "npm start?");
}

#[test]
fn the_choice_is_flipped() {
    let mut wizard = wizard(Some("o"));
    wizard.step = Step::State;
    let mut expected = false;
    for code in [
        KeyCode::Left,
        KeyCode::Right,
        KeyCode::Up,
        KeyCode::Down,
        KeyCode::Tab,
        KeyCode::Char(' '),
    ] {
        press(&mut wizard, code);
        expected = !expected;
        assert_eq!(wizard.local_state, expected);
    }
    press(&mut wizard, KeyCode::Char('x'));
    assert_eq!(wizard.local_state, expected);
}

#[test]
fn the_file_that_the_answers_make() {
    let mut answers = Answers {
        repo: Some("git@h:\"p\"".to_owned()),
        install: Some("a \\ b".to_owned()),
        start: "run".to_owned(),
        local_state: true,
    };
    assert_eq!(
        config_toml(&answers),
        "# tinycd configuration: https://github.com/maxz411/tinycd\nrepo = \"git@h:\\\"p\\\"\"\nroot = \".\"\ninstall = \"a \\\\ b\"\nstart = \"run\"\n"
    );
    let table: toml::Table = toml::from_str(&config_toml(&answers)).unwrap();
    assert_eq!(table["repo"].as_str(), Some("git@h:\"p\""));
    assert_eq!(table["install"].as_str(), Some("a \\ b"));
    assert_eq!(table["start"].as_str(), Some("run"));
    assert_eq!(table["root"].as_str(), Some("."));
    assert_eq!(table.len(), 4);
    let files = config_files(&answers);
    assert_eq!(files.len(), 2);
    assert_eq!(files[0].name, "config.toml");
    assert_eq!(files[0].contents, config_toml(&answers));
    assert_eq!(files[1].name, ".gitignore");
    assert_eq!(files[1].contents, "*\n!config.toml\n!.gitignore\n");

    answers.repo = None;
    answers.install = None;
    answers.local_state = false;
    assert_eq!(
        config_toml(&answers),
        "# tinycd configuration: https://github.com/maxz411/tinycd\nstart = \"run\"\n"
    );
    let table: toml::Table = toml::from_str(&config_toml(&answers)).unwrap();
    assert_eq!(table["start"].as_str(), Some("run"));
    assert_eq!(table.len(), 1);
    assert_eq!(config_files(&answers).len(), 1);
}

#[test]
fn the_first_page() {
    let page = wizard(Some("o")).render();
    assert_eq!(page.title, " tinycd setup — welcome ");
    assert_eq!(page.keys, " Enter set up · Esc quit ");
    let lines = texts(&page.lines);
    assert_eq!(lines.len(), 4);
    assert_eq!(lines[0], "No tinycd configuration was found in");
    assert_eq!(lines[1], "/work/app");
    assert_eq!(lines[2], "");
    assert!(lines[3].starts_with("This wizard writes .tinycd/config.toml — the file"));
    assert!(lines[3].ends_with("and every push deploys."));
}

#[test]
fn the_pages_with_a_field() {
    let mut wizard = wizard(Some("git@h:p"));
    wizard.step = Step::Repo;
    let page = wizard.render();
    assert_eq!(page.title, " tinycd setup — remote ");
    assert_eq!(page.keys, " Enter continue · Esc back · Ctrl-C quit ");
    let lines = texts(&page.lines);
    assert_eq!(lines.len(), 5);
    assert_eq!(lines[4], "> git@h:p▌");
    assert_eq!(page.lines[4].spans[0].tone, Tone::Cyan);
    assert_eq!(page.lines[4].spans[1].tone, Tone::Plain);

    wizard.origin = None;
    wizard.error = Some("missing".to_owned());
    let page = wizard.render();
    let lines = texts(&page.lines);
    assert_eq!(
        lines,
        vec![
            "Git URL or remote name to watch. This checkout has no origin, so a value is required.",
            "",
            "> git@h:p▌",
            "",
            "missing"
        ]
    );
    assert_eq!(page.lines[4].spans[0].tone, Tone::Red);

    wizard.error = None;
    wizard.step = Step::Install;
    let (title, lines) = wizard.content();
    assert_eq!(title, "install command");
    assert_eq!(
        texts(&lines),
        vec![
            "Install command, run in each fresh release before it starts.",
            "Leave empty for none.",
            "",
            "> npm ci▌"
        ]
    );
    wizard.step = Step::Start;
    let (title, lines) = wizard.content();
    assert_eq!(title, "start command");
    assert_eq!(texts(&lines)[2], "> npm start▌");
}

#[test]
fn the_last_pages() {
    let mut wizard = wizard(Some("git@h:p"));
    wizard.step = Step::State;
    let page = wizard.render();
    assert_eq!(page.keys, " Space switch · Enter continue · Esc back ");
    assert_eq!(
        texts(&page.lines),
        vec![
            "Where should releases live?",
            "",
            "  ● ~/.tinycd/<name>-<hash> — outside the repo; the working tree stays clean",
            "  ○ .tinycd/ inside this repo — self-contained; releases are gitignored automatically"
        ]
    );
    assert!(page.lines[2].spans[0].bold);
    assert!(!page.lines[3].spans[0].bold);

    wizard.step = Step::Summary;
    let page = wizard.render();
    assert_eq!(page.title, " tinycd setup — summary ");
    assert_eq!(page.keys, " Enter save and start · Esc back ");
    assert_eq!(
        texts(&page.lines),
        vec![
            ".tinycd/config.toml will contain:",
            "",
            "  # tinycd configuration: https://github.com/maxz411/tinycd",
            "  install = \"npm ci\"",
            "  start = \"npm start\"",
            "",
            "Enter saves the file and starts tinycd. Commit .tinycd/config.toml to share the deployment recipe."
        ]
    );
}
