//! The first-run setup: a wizard that collects what a checkout's configuration
//! file should say, and the files that it writes.

use vstd::prelude::*;

use crate::screen::{
    add_line, add_text, bold, plain_rows, rows, toned, Key, KeyCode, Line, Piece, Span, Tone,
};
use crate::text::{
    begins, holds, law_begins, law_holds, law_lines, lines, lines_of, optional, same, text_of, texts,
    trim, trimmed,
};
use crate::toml_text::{
    assignment, bare, lemma_read_assignment, lemma_read_comment, lemma_root_line, printable,
    read_settings, toml_escape,
};

verus! {

/// What the wizard collected. `repo` is `None` when the checkout's origin
/// should keep being used, so moving the remote later needs no edit.
pub struct Answers {
    pub repo: Option<String>,
    pub install: Option<String>,
    pub start: String,
    pub local_state: bool,
}

/// The answers as characters.
pub struct AnswersText {
    pub repo: Option<Seq<char>>,
    pub install: Option<Seq<char>>,
    pub start: Seq<char>,
    pub local_state: bool,
}

impl View for Answers {
    type V = AnswersText;

    open spec fn view(&self) -> AnswersText {
        AnswersText {
            repo: text_of(self.repo),
            install: text_of(self.install),
            start: self.start@,
            local_state: self.local_state,
        }
    }
}

/// A line that gives a setting a string, if there is one.
pub open spec fn optional_assignment(name: Seq<char>, value: Option<Seq<char>>) -> Seq<char> {
    match value {
        Some(value) => assignment(name, value),
        None => Seq::empty(),
    }
}

/// The configuration file that the answers make.
pub open spec fn config_of(answers: AnswersText) -> Seq<char> {
    "# tinycd configuration: https://github.com/maxz411/tinycd\n"@ + optional_assignment(
        "repo"@,
        answers.repo,
    ) + (if answers.local_state {
        "root = \".\"\n"@
    } else {
        Seq::empty()
    }) + optional_assignment("install"@, answers.install) + assignment("start"@, answers.start)
}

fn add_assignment(out: &mut String, name: &str, value: &str)
    ensures
        final(out)@ == old(out)@ + assignment(name@, value@),
{
    let ghost start = out@;
    out.append(name);
    out.append(" = \"");
    out.append(toml_escape(value).as_str());
    out.append("\"\n");
    assert(out@ =~= start + assignment(name@, value@));
}

/// The configuration file that the answers make.
pub fn config_toml(answers: &Answers) -> (r: String)
    ensures
        r@ == config_of(answers@),
{
    let mut contents: String =
        "# tinycd configuration: https://github.com/maxz411/tinycd\n".to_owned();
    if let Some(repo) = &answers.repo {
        add_assignment(&mut contents, "repo", repo.as_str());
    }
    if answers.local_state {
        contents.append("root = \".\"\n");
    }
    if let Some(install) = &answers.install {
        add_assignment(&mut contents, "install", install.as_str());
    }
    add_assignment(&mut contents, "start", answers.start.as_str());
    assert(contents@ =~= config_of(answers@));
    contents
}

/// The settings that the answers make, and no others.
pub open spec fn settings_of(answers: AnswersText) -> Map<Seq<char>, Seq<char>> {
    let start = Map::empty().insert("start"@, answers.start);
    let install = match answers.install {
        Some(install) => start.insert("install"@, install),
        None => start,
    };
    let root = if answers.local_state {
        install.insert("root"@, "."@)
    } else {
        install
    };
    match answers.repo {
        Some(repo) => root.insert("repo"@, repo),
        None => root,
    }
}

/// Whether there is no control character in the answers.
pub open spec fn printable_answers(answers: AnswersText) -> bool {
    &&& answers.repo matches Some(repo) ==> printable(repo)
    &&& answers.install matches Some(install) ==> printable(install)
    &&& printable(answers.start)
}

/// The file that the answers make, read as a whole, gives back the repository,
/// the install command and the start command as they were answered, and a root
/// exactly when the releases live beside it; each once, and nothing else. There
/// must be no control character in the answers.
pub proof fn law_config_reads_back(answers: AnswersText)
    requires
        printable_answers(answers),
    ensures
        read_settings(config_of(answers)) == Some(settings_of(answers)),
        settings_of(answers).contains_key("start"@),
        settings_of(answers)["start"@] == answers.start,
        settings_of(answers).contains_key("install"@) <==> answers.install is Some,
        answers.install is Some ==> settings_of(answers)["install"@] == answers.install->0,
        settings_of(answers).contains_key("root"@) <==> answers.local_state,
        answers.local_state ==> settings_of(answers)["root"@] == "."@,
        settings_of(answers).contains_key("repo"@) <==> answers.repo is Some,
        answers.repo is Some ==> settings_of(answers)["repo"@] == answers.repo->0,
        forall|name: Seq<char>| #[trigger]
            settings_of(answers).contains_key(name) ==> name == "start"@ || name == "install"@
                || name == "root"@ || name == "repo"@,
{
    let none = Seq::<char>::empty();
    let header = "# tinycd configuration: https://github.com/maxz411/tinycd\n"@;
    let repo_line = optional_assignment("repo"@, answers.repo);
    let root_line = if answers.local_state {
        "root = \".\"\n"@
    } else {
        none
    };
    let install_line = optional_assignment("install"@, answers.install);
    let start_line = assignment("start"@, answers.start);
    let after_install = start_line + none;
    let after_root = install_line + after_install;
    let after_repo = root_line + after_root;
    let after_header = repo_line + after_repo;
    assert(config_of(answers) =~= header + after_header);
    lemma_setting_names();

    lemma_read_assignment("start"@, answers.start, none);
    let start = Map::<Seq<char>, Seq<char>>::empty().insert("start"@, answers.start);
    assert(read_settings(after_install) == Some(start));
    if let Some(install) = answers.install {
        lemma_read_assignment("install"@, install, after_install);
    } else {
        assert(after_root =~= after_install);
    }
    if answers.local_state {
        lemma_root_line();
        lemma_read_assignment("root"@, "."@, after_root);
    } else {
        assert(after_repo =~= after_root);
    }
    if let Some(repo) = answers.repo {
        lemma_read_assignment("repo"@, repo, after_repo);
    } else {
        assert(after_header =~= after_repo);
    }
    lemma_header(after_header);
}

proof fn lemma_setting_names()
    ensures
        bare("repo"@),
        bare("root"@),
        bare("install"@),
        bare("start"@),
        "repo"@ != "root"@,
        "repo"@ != "install"@,
        "repo"@ != "start"@,
        "root"@ != "install"@,
        "root"@ != "start"@,
        "install"@ != "start"@,
{
    reveal_strlit("repo");
    reveal_strlit("root");
    reveal_strlit("install");
    reveal_strlit("start");
    assert("repo"@[1] != "root"@[1]);
    assert("repo"@.len() == 4 && "root"@.len() == 4 && "install"@.len() == 7 && "start"@.len()
        == 5);
}

proof fn lemma_header(rest: Seq<char>)
    ensures
        read_settings(
            "# tinycd configuration: https://github.com/maxz411/tinycd\n"@ + rest,
        ) == read_settings(rest),
{
    let header = "# tinycd configuration: https://github.com/maxz411/tinycd\n"@;
    reveal_strlit("# tinycd configuration: https://github.com/maxz411/tinycd\n");
    let comment = header.drop_last();
    assert(header =~= comment.push('\n'));
    assert(printable(comment));
    lemma_read_comment(comment, rest);
}

/// A file to write into `.tinycd`.
pub struct ConfigFile {
    pub name: String,
    pub contents: String,
}

/// The names and contents of files.
pub open spec fn file_texts(files: Seq<ConfigFile>) -> Seq<(Seq<char>, Seq<char>)> {
    files.map_values(|f: ConfigFile| (f.name@, f.contents@))
}

/// The files that the answers make: the configuration, and where the releases
/// live beside it, a `.gitignore` that leaves only these two to be committed.
pub open spec fn files_of(answers: AnswersText) -> Seq<(Seq<char>, Seq<char>)> {
    if answers.local_state {
        seq![
            ("config.toml"@, config_of(answers)),
            (".gitignore"@, "*\n!config.toml\n!.gitignore\n"@),
        ]
    } else {
        seq![("config.toml"@, config_of(answers))]
    }
}

/// The files that the answers make, in the order in which they are written.
pub fn config_files(answers: &Answers) -> (r: Vec<ConfigFile>)
    ensures
        file_texts(r@) == files_of(answers@),
{
    let mut files: Vec<ConfigFile> = Vec::new();
    files.push(ConfigFile { name: "config.toml".to_owned(), contents: config_toml(answers) });
    if answers.local_state {
        files.push(
            ConfigFile {
                name: ".gitignore".to_owned(),
                contents: "*\n!config.toml\n!.gitignore\n".to_owned(),
            },
        );
    }
    assert(file_texts(files@) =~= files_of(answers@));
    files
}

/// Which of the files are there by which a project is recognised.
pub struct Found {
    pub package_json: bool,
    pub cargo_toml: bool,
    pub go_mod: bool,
    pub requirements_txt: bool,
}

/// The install and start commands that fit what a project looks like.
pub open spec fn suggestion(found: Found) -> (Seq<char>, Seq<char>) {
    if found.package_json {
        ("npm ci"@, "npm start"@)
    } else if found.cargo_toml {
        ("cargo build --release"@, "cargo run --release"@)
    } else if found.go_mod {
        ("go build -o app ."@, "./app"@)
    } else if found.requirements_txt {
        ("pip install -r requirements.txt"@, ""@)
    } else {
        (""@, ""@)
    }
}

/// The install and start commands that fit what a project looks like.
pub fn suggest(found: &Found) -> (r: (String, String))
    ensures
        (r.0@, r.1@) == suggestion(*found),
{
    if found.package_json {
        ("npm ci".to_owned(), "npm start".to_owned())
    } else if found.cargo_toml {
        ("cargo build --release".to_owned(), "cargo run --release".to_owned())
    } else if found.go_mod {
        ("go build -o app .".to_owned(), "./app".to_owned())
    } else if found.requirements_txt {
        ("pip install -r requirements.txt".to_owned(), "".to_owned())
    } else {
        ("".to_owned(), "".to_owned())
    }
}

/// A page of the wizard.
#[derive(Clone, Copy, Debug, PartialEq, Eq, Structural)]
pub enum Step {
    Intro,
    Repo,
    Install,
    Start,
    State,
    Summary,
}

/// Where a key leads.
pub enum Flow {
    Stay,
    Cancel,
    Done(Answers),
}

/// The wizard.
pub struct Wizard {
    pub step: Step,
    pub project: String,
    pub origin: Option<String>,
    pub repo: String,
    pub install: String,
    pub start: String,
    pub local_state: bool,
    pub error: Option<String>,
}

/// The state of the wizard, with its texts as characters.
pub struct WizardState {
    pub step: Step,
    pub project: Seq<char>,
    pub origin: Option<Seq<char>>,
    pub repo: Seq<char>,
    pub install: Seq<char>,
    pub start: Seq<char>,
    pub local_state: bool,
    pub error: Option<Seq<char>>,
}

impl View for Wizard {
    type V = WizardState;

    open spec fn view(&self) -> WizardState {
        WizardState {
            step: self.step,
            project: self.project@,
            origin: text_of(self.origin),
            repo: self.repo@,
            install: self.install@,
            start: self.start@,
            local_state: self.local_state,
            error: text_of(self.error),
        }
    }
}

/// Whether the wizard knows what to watch.
pub open spec fn has_repo(w: WizardState) -> bool {
    trimmed(w.repo).len() > 0 || w.origin is Some
}

/// Whether the wizard knows how to start the project.
pub open spec fn has_start(w: WizardState) -> bool {
    trimmed(w.start).len() > 0
}

/// What holds on every page: a page comes only once the pages before it have
/// what they require.
pub open spec fn sound(w: WizardState) -> bool {
    &&& w.step != Step::Intro && w.step != Step::Repo ==> has_repo(w)
    &&& w.step == Step::State || w.step == Step::Summary ==> has_start(w)
}

/// The text that is typed on a page.
pub open spec fn field_of(w: WizardState) -> Seq<char> {
    match w.step {
        Step::Repo => w.repo,
        Step::Install => w.install,
        _ => w.start,
    }
}

/// The wizard with another text on its page.
pub open spec fn with_field(w: WizardState, text: Seq<char>) -> WizardState {
    match w.step {
        Step::Repo => WizardState { repo: text, ..w },
        Step::Install => WizardState { install: text, ..w },
        _ => WizardState { start: text, ..w },
    }
}

/// The wizard after a page is confirmed: on the next page, or on the same one
/// with what it is missing.
pub open spec fn advanced(w: WizardState) -> WizardState {
    match w.step {
        Step::Repo => if has_repo(w) {
            WizardState { step: Step::Install, ..w }
        } else {
            WizardState {
                error: Some(
                    "a Git URL or remote name is required: this checkout has no origin"@,
                ),
                ..w
            }
        },
        Step::Install => WizardState { step: Step::Start, ..w },
        Step::Start => if has_start(w) {
            WizardState { step: Step::State, ..w }
        } else {
            WizardState { error: Some("a start command is required"@), ..w }
        },
        _ => w,
    }
}

/// The page before a page; the first has none.
pub open spec fn page_before(step: Step) -> Step {
    match step {
        Step::Intro => Step::Intro,
        Step::Repo => Step::Intro,
        Step::Install => Step::Repo,
        Step::Start => Step::Install,
        Step::State => Step::Start,
        Step::Summary => Step::State,
    }
}

/// What the wizard has collected: nothing for a repository that is the
/// checkout's origin and for an install command that is blank.
pub open spec fn answers_of(w: WizardState) -> AnswersText {
    AnswersText {
        repo: if trimmed(w.repo).len() > 0 && Some(trimmed(w.repo)) != w.origin {
            Some(trimmed(w.repo))
        } else {
            None
        },
        install: if trimmed(w.install).len() > 0 {
            Some(trimmed(w.install))
        } else {
            None
        },
        start: trimmed(w.start),
        local_state: w.local_state,
    }
}

/// Whether a key is Ctrl+C.
pub open spec fn interrupts(key: Key) -> bool {
    key.control && key.code == KeyCode::Char('c')
}

/// Whether a key ends the wizard without answers.
pub open spec fn cancels(w: WizardState, key: Key) -> bool {
    interrupts(key) || (w.step == Step::Intro && (key.code == KeyCode::Esc || key.code
        == KeyCode::Char('n') || key.code == KeyCode::Char('q')))
}

/// Whether a key ends the wizard with its answers.
pub open spec fn finishes(w: WizardState, key: Key) -> bool {
    w.step == Step::Summary && key.code == KeyCode::Enter
}

/// Whether a key flips the choice on the page of the releases.
pub open spec fn flips(code: KeyCode) -> bool {
    code == KeyCode::Left || code == KeyCode::Right || code == KeyCode::Up || code == KeyCode::Down
        || code == KeyCode::Char(' ') || code == KeyCode::Tab
}

/// The wizard after a key.
pub open spec fn handled(before: WizardState, key: Key) -> WizardState {
    let w = WizardState { error: None, ..before };
    if interrupts(key) {
        before
    } else if key.code == KeyCode::Esc && w.step != Step::Intro {
        WizardState { step: page_before(w.step), ..w }
    } else {
        match w.step {
            Step::Intro => if key.code == KeyCode::Enter || key.code == KeyCode::Char('y') {
                WizardState { step: Step::Repo, ..w }
            } else {
                w
            },
            Step::State => if flips(key.code) {
                WizardState { local_state: !w.local_state, ..w }
            } else if key.code == KeyCode::Enter {
                WizardState { step: Step::Summary, ..w }
            } else {
                w
            },
            Step::Summary => w,
            _ => match key.code {
                KeyCode::Char(c) => if key.alt {
                    w
                } else {
                    with_field(w, field_of(w).push(c))
                },
                KeyCode::Backspace => if field_of(w).len() > 0 {
                    with_field(w, field_of(w).drop_last())
                } else {
                    w
                },
                KeyCode::Enter => advanced(w),
                _ => w,
            },
        }
    }
}

impl Wizard {
    /// The wizard on its first page, with the commands that were suggested.
    pub fn new(project: &str, origin: Option<&str>, suggested: (String, String)) -> (r: Wizard)
        ensures
            r@.step == Step::Intro,
            r@.project == project@,
            r@.origin == optional(origin),
            r@.repo == (match origin {
                Some(origin) => origin@,
                None => Seq::empty(),
            }),
            r@.install == suggested.0@,
            r@.start == suggested.1@,
            !r@.local_state,
            r@.error is None,
            sound(r@),
    {
        let mut known: Option<String> = None;
        let mut repo: String = String::new();
        if let Some(url) = origin {
            known = Some(url.to_owned());
            repo = url.to_owned();
        }
        Wizard {
            step: Step::Intro,
            project: project.to_owned(),
            origin: known,
            repo,
            install: suggested.0,
            start: suggested.1,
            local_state: false,
            error: None,
        }
    }

    /// The text that is typed on the page.
    pub fn field(&mut self) -> (r: &mut String)
        ensures
            r@ == field_of(old(self)@),
            final(self)@ == with_field(old(self)@, final(r)@),
    {
        match self.step {
            Step::Repo => &mut self.repo,
            Step::Install => &mut self.install,
            _ => &mut self.start,
        }
    }

    /// Confirm the page: go to the next one, or say what is missing.
    pub fn advance(&mut self)
        ensures
            final(self)@ == advanced(old(self)@),
    {
        match self.step {
            Step::Repo => {
                if trim(self.repo.as_str()).as_str().is_empty() && self.origin.is_none() {
                    self.error =
                    Some(
                        "a Git URL or remote name is required: this checkout has no origin".to_owned(),
                    );
                } else {
                    self.step = Step::Install;
                }
            },
            Step::Install => {
                self.step = Step::Start;
            },
            Step::Start => {
                if trim(self.start.as_str()).as_str().is_empty() {
                    self.error = Some("a start command is required".to_owned());
                } else {
                    self.step = Step::State;
                }
            },
            _ => {},
        }
    }

    /// Go to the page before.
    pub fn back(&mut self)
        ensures
            final(self)@ == (WizardState { step: page_before(old(self)@.step), ..old(self)@ }),
    {
        self.step =
        match self.step {
            Step::Intro => Step::Intro,
            Step::Repo => Step::Intro,
            Step::Install => Step::Repo,
            Step::Start => Step::Install,
            Step::State => Step::Start,
            Step::Summary => Step::State,
        };
    }

    /// What was collected.
    pub fn answers(&self) -> (r: Answers)
        ensures
            r@ == answers_of(self@),
    {
        let repo: String = trim(self.repo.as_str());
        let install: String = trim(self.install.as_str());
        let is_origin: bool = match &self.origin {
            Some(origin) => same(repo.as_str(), origin.as_str()),
            None => false,
        };
        Answers {
            repo: if repo.as_str().is_empty() || is_origin {
                None
            } else {
                Some(repo)
            },
            install: if install.as_str().is_empty() {
                None
            } else {
                Some(install)
            },
            start: trim(self.start.as_str()),
            local_state: self.local_state,
        }
    }

    /// Take a key.
    pub fn handle(&mut self, key: Key) -> (r: Flow)
        ensures
            final(self)@ == handled(old(self)@, key),
            match r {
                Flow::Cancel => cancels(old(self)@, key),
                Flow::Done(answers) => {
                    &&& !cancels(old(self)@, key)
                    &&& finishes(old(self)@, key)
                    &&& answers@ == answers_of(old(self)@)
                },
                Flow::Stay => !cancels(old(self)@, key) && !finishes(old(self)@, key),
            },
    {
        if key.control && key.code == KeyCode::Char('c') {
            return Flow::Cancel;
        }
        self.error = None;
        match self.step {
            Step::Intro => match key.code {
                KeyCode::Enter => {
                    self.step = Step::Repo;
                },
                KeyCode::Esc => {
                    return Flow::Cancel;
                },
                KeyCode::Char(c) => {
                    if c == 'y' {
                        self.step = Step::Repo;
                    } else if c == 'n' || c == 'q' {
                        return Flow::Cancel;
                    }
                },
                _ => {},
            },
            Step::State => match key.code {
                KeyCode::Enter => {
                    self.step = Step::Summary;
                },
                KeyCode::Esc => {
                    self.back();
                },
                _ => {
                    if key.code == KeyCode::Left || key.code == KeyCode::Right || key.code
                        == KeyCode::Up || key.code == KeyCode::Down || key.code == KeyCode::Char(
                        ' ',
                    ) || key.code == KeyCode::Tab {
                        self.local_state = !self.local_state;
                    }
                },
            },
            Step::Summary => match key.code {
                KeyCode::Enter => {
                    return Flow::Done(self.answers());
                },
                KeyCode::Esc => {
                    self.back();
                },
                _ => {},
            },
            _ => match key.code {
                KeyCode::Char(c) => {
                    if !key.alt {
                        self.field().push(c);
                    }
                },
                KeyCode::Backspace => {
                    self.field().pop();
                },
                KeyCode::Enter => {
                    self.advance();
                },
                KeyCode::Esc => {
                    self.back();
                },
                _ => {},
            },
        }
        Flow::Stay
    }
}

/// Every key keeps the wizard sound.
pub proof fn law_keys_keep_the_wizard_sound(w: WizardState, key: Key)
    requires
        sound(w),
    ensures
        sound(handled(w, key)),
{
}

/// The wizard only ends with answers that say how to start the project, and
/// that name a repository unless the checkout has an origin.
pub proof fn law_answers_are_complete(w: WizardState, key: Key)
    requires
        sound(w),
        finishes(w, key),
    ensures
        answers_of(w).start.len() > 0,
        answers_of(w).repo is Some || w.origin is Some,
{
}

/// An origin that is left as it is, is not written down.
pub proof fn law_unchanged_origin_is_not_recorded(w: WizardState)
    requires
        w.origin == Some(trimmed(w.repo)),
    ensures
        answers_of(w).repo is None,
{
}

/// Going back undoes a page that was confirmed.
pub proof fn law_back_undoes_advance(w: WizardState)
    requires
        advanced(w).step != w.step,
    ensures
        (WizardState { step: page_before(advanced(w).step), ..advanced(w) }) == w,
{
}

/// Backspace takes away the character that was typed last.
pub proof fn law_backspace_undoes_typing(w: WizardState, c: char, typed: Key, erased: Key)
    requires
        w.step == Step::Repo || w.step == Step::Install || w.step == Step::Start,
        typed.code == KeyCode::Char(c),
        !typed.alt,
        !interrupts(typed),
        erased.code == KeyCode::Backspace,
    ensures
        handled(handled(w, typed), erased) == (WizardState { error: None, ..w }),
{
    let v = WizardState { error: None, ..w };
    let once = handled(w, typed);
    assert(once == with_field(v, field_of(v).push(c)));
    assert(field_of(once) == field_of(v).push(c));
    assert(field_of(v).push(c).drop_last() =~= field_of(v));
}

/// The line on which a text is typed.
pub open spec fn input_row(text: Seq<char>) -> Seq<Piece> {
    seq![toned("> "@, Tone::Cyan), toned(text, Tone::Plain), toned("▌"@, Tone::Cyan)]
}

/// A choice on the page of the releases.
pub open spec fn option_row(selected: bool, label: Seq<char>, detail: Seq<char>) -> Seq<Piece> {
    let text = "  "@ + (if selected {
        "●"@
    } else {
        "○"@
    }) + " "@ + label + " — "@ + detail;
    if selected {
        seq![bold(text, Tone::Cyan)]
    } else {
        seq![toned(text, Tone::Plain)]
    }
}

/// The lines of a file, indented.
pub open spec fn quoted_rows(text: Seq<char>) -> Seq<Seq<Piece>> {
    lines_of(text).map_values(|line: Seq<char>| seq![toned("  "@ + line, Tone::Cyan)])
}

/// The title of a page.
pub open spec fn title_of(step: Step) -> Seq<char> {
    match step {
        Step::Intro => "welcome"@,
        Step::Repo => "remote"@,
        Step::Install => "install command"@,
        Step::Start => "start command"@,
        Step::State => "releases"@,
        Step::Summary => "summary"@,
    }
}

/// What a page explains.
pub open spec fn explanation(w: WizardState) -> Seq<char> {
    match w.step {
        Step::Intro => "No tinycd configuration was found in\n"@ + w.project
            + "\n\nThis wizard writes .tinycd/config.toml — the file tinycd reads — and leaves the rest of your working tree untouched. Deployments run from fresh clones of the remote, so you keep committing and pushing here as usual, and every push deploys."@,
        Step::Repo => match w.origin {
            Some(_) =>
                "Git remote to watch, detected from this checkout's origin.\nLeave it as is, or replace it with another URL or remote name.\n(Leaving it unchanged tracks origin even if its URL changes later.)"@,
            None =>
                "Git URL or remote name to watch. This checkout has no origin, so a value is required."@,
        },
        Step::Install =>
            "Install command, run in each fresh release before it starts.\nLeave empty for none."@,
        Step::Start =>
            "Start command (required). It runs in the release folder in the foreground; tinycd restarts it on every deployment."@,
        Step::State => "Where should releases live?"@,
        Step::Summary => ".tinycd/config.toml will contain:"@,
    }
}

/// What a page shows below its explanation.
pub open spec fn body_rows(w: WizardState) -> Seq<Seq<Piece>> {
    match w.step {
        Step::Intro => seq![],
        Step::State => seq![
            Seq::empty(),
            option_row(
                !w.local_state,
                "~/.tinycd/<name>-<hash>"@,
                "outside the repo; the working tree stays clean"@,
            ),
            option_row(
                w.local_state,
                ".tinycd/ inside this repo"@,
                "self-contained; releases are gitignored automatically"@,
            ),
        ],
        Step::Summary => seq![Seq::empty()] + quoted_rows(config_of(answers_of(w))) + seq![
            Seq::empty(),
        ] + plain_rows(
            "Enter saves the file and starts tinycd. Commit .tinycd/config.toml to share the deployment recipe."@,
        ),
        _ => seq![Seq::empty(), input_row(field_of(w))],
    }
}

/// What is shown of an error below a page.
pub open spec fn error_rows(error: Option<Seq<char>>) -> Seq<Seq<Piece>> {
    match error {
        Some(error) => seq![Seq::empty(), seq![toned(error, Tone::Red)]],
        None => seq![],
    }
}

/// The keys that a page offers.
pub open spec fn keys_of(step: Step) -> Seq<char> {
    match step {
        Step::Intro => " Enter set up · Esc quit "@,
        Step::State => " Space switch · Enter continue · Esc back "@,
        Step::Summary => " Enter save and start · Esc back "@,
        _ => " Enter continue · Esc back · Ctrl-C quit "@,
    }
}

/// A page: what stands above, in and below its frame.
pub struct Page {
    pub title: String,
    pub lines: Vec<Line>,
    pub keys: String,
}

fn input_line(text: &str) -> (r: Line)
    ensures
        r@ == input_row(text@),
{
    let mut line: Line = Line::empty();
    line.add(Span::toned("> ".to_owned(), Tone::Cyan));
    line.add(Span::toned(text.to_owned(), Tone::Plain));
    line.add(Span::toned("▌".to_owned(), Tone::Cyan));
    assert(line@ =~= input_row(text@));
    line
}

fn option_line(selected: bool, label: &str, detail: &str) -> (r: Line)
    ensures
        r@ == option_row(selected, label@, detail@),
{
    let mut text: String = "  ".to_owned();
    if selected {
        text.append("●");
    } else {
        text.append("○");
    }
    text.append(" ");
    text.append(label);
    text.append(" — ");
    text.append(detail);
    if selected {
        Line::of(Span::bold(text, Tone::Cyan))
    } else {
        Line::of(Span::toned(text, Tone::Plain))
    }
}

fn add_quoted(shown: &mut Vec<Line>, text: &str)
    ensures
        rows(final(shown)@) == rows(old(shown)@) + quoted_rows(text@),
{
    let all: Vec<String> = lines(text);
    let ghost start = rows(shown@);
    let mut i: usize = 0;
    assert(rows(shown@) =~= start + quoted_rows(text@).take(0));
    while i < all.len()
        invariant
            texts(all@) == lines_of(text@),
            i <= all.len(),
            rows(shown@) == start + quoted_rows(text@).take(i as int),
        decreases all.len() - i,
    {
        let mut line: String = "  ".to_owned();
        line.append(all[i].as_str());
        assert(texts(all@)[i as int] == all@[i as int]@);
        assert(quoted_rows(text@)[i as int] == seq![toned(line@, Tone::Cyan)]);
        add_line(shown, Line::of(Span::toned(line, Tone::Cyan)));
        i = i + 1;
        assert(rows(shown@) =~= start + quoted_rows(text@).take(i as int));
    }
    assert(texts(all@).len() == all.len());
    assert(quoted_rows(text@).take(i as int) == quoted_rows(text@));
}

impl Wizard {
    fn title(&self) -> (r: &'static str)
        ensures
            r@ == title_of(self@.step),
    {
        match self.step {
            Step::Intro => "welcome",
            Step::Repo => "remote",
            Step::Install => "install command",
            Step::Start => "start command",
            Step::State => "releases",
            Step::Summary => "summary",
        }
    }

    fn explain(&self) -> (r: String)
        ensures
            r@ == explanation(self@),
    {
        match self.step {
            Step::Intro => {
                let mut text: String = "No tinycd configuration was found in\n".to_owned();
                text.append(self.project.as_str());
                text.append(
                    "\n\nThis wizard writes .tinycd/config.toml — the file tinycd reads — and leaves the rest of your working tree untouched. Deployments run from fresh clones of the remote, so you keep committing and pushing here as usual, and every push deploys.",
                );
                text
            },
            Step::Repo => if self.origin.is_some() {
                "Git remote to watch, detected from this checkout's origin.\nLeave it as is, or replace it with another URL or remote name.\n(Leaving it unchanged tracks origin even if its URL changes later.)".to_owned()
            } else {
                "Git URL or remote name to watch. This checkout has no origin, so a value is required.".to_owned()
            },
            Step::Install =>
                "Install command, run in each fresh release before it starts.\nLeave empty for none.".to_owned(),
            Step::Start =>
                "Start command (required). It runs in the release folder in the foreground; tinycd restarts it on every deployment.".to_owned(),
            Step::State => "Where should releases live?".to_owned(),
            Step::Summary => ".tinycd/config.toml will contain:".to_owned(),
        }
    }

    /// The title of the page and its lines.
    pub fn content(&self) -> (r: (&'static str, Vec<Line>))
        ensures
            r.0@ == title_of(self@.step),
            rows(r.1@) == plain_rows(explanation(self@)) + body_rows(self@),
    {
        let mut shown: Vec<Line> = Vec::new();
        let text: String = self.explain();
        assert(rows(shown@) =~= Seq::empty());
        add_text(&mut shown, text.as_str());
        let ghost above = plain_rows(explanation(self@));
        assert(rows(shown@) =~= above);
        match self.step {
            Step::Intro => {},
            Step::State => {
                add_line(&mut shown, Line::empty());
                add_line(
                    &mut shown,
                    option_line(
                        !self.local_state,
                        "~/.tinycd/<name>-<hash>",
                        "outside the repo; the working tree stays clean",
                    ),
                );
                add_line(
                    &mut shown,
                    option_line(
                        self.local_state,
                        ".tinycd/ inside this repo",
                        "self-contained; releases are gitignored automatically",
                    ),
                );
            },
            Step::Summary => {
                add_line(&mut shown, Line::empty());
                add_quoted(&mut shown, config_toml(&self.answers()).as_str());
                add_line(&mut shown, Line::empty());
                add_text(
                    &mut shown,
                    "Enter saves the file and starts tinycd. Commit .tinycd/config.toml to share the deployment recipe.",
                );
            },
            Step::Repo => {
                add_line(&mut shown, Line::empty());
                add_line(&mut shown, input_line(self.repo.as_str()));
            },
            Step::Install => {
                add_line(&mut shown, Line::empty());
                add_line(&mut shown, input_line(self.install.as_str()));
            },
            Step::Start => {
                add_line(&mut shown, Line::empty());
                add_line(&mut shown, input_line(self.start.as_str()));
            },
        }
        assert(rows(shown@) =~= above + body_rows(self@));
        (self.title(), shown)
    }

    /// The page as it is drawn.
    pub fn render(&self) -> (r: Page)
        ensures
            r.title@ == " tinycd setup — "@ + title_of(self@.step) + " "@,
            rows(r.lines@) == plain_rows(explanation(self@)) + body_rows(self@) + error_rows(
                self@.error,
            ),
            r.keys@ == keys_of(self@.step),
    {
        let (name, mut shown) = self.content();
        if let Some(error) = &self.error {
            add_line(&mut shown, Line::empty());
            add_line(&mut shown, Line::of(Span::toned(error.clone(), Tone::Red)));
        }
        assert(rows(shown@) =~= plain_rows(explanation(self@)) + body_rows(self@) + error_rows(
            self@.error,
        ));
        let mut title: String = " tinycd setup — ".to_owned();
        title.append(name);
        title.append(" ");
        let keys: String = match self.step {
            Step::Intro => " Enter set up · Esc quit ".to_owned(),
            Step::State => " Space switch · Enter continue · Esc back ".to_owned(),
            Step::Summary => " Enter save and start · Esc back ".to_owned(),
            _ => " Enter continue · Esc back · Ctrl-C quit ".to_owned(),
        };
        Page { title, lines: shown, keys }
    }
}

/// The Enter key goes from page to page and changes nothing else. It stays on the
/// page of the remote as long as nothing is typed there and the checkout has no
/// origin, and on the page of the start command as long as nothing is typed
/// there; then it says what is missing.
pub proof fn law_enter_goes_on(w: WizardState, key: Key)
    requires
        key.code == KeyCode::Enter,
    ensures
        ({
            let next = handled(w, key);
            let known = trimmed(w.repo).len() > 0 || w.origin is Some;
            let startable = trimmed(w.start).len() > 0;
            &&& w.step == Step::Intro ==> next == (WizardState {
                step: Step::Repo,
                error: None,
                ..w
            })
            &&& w.step == Step::Repo && known ==> next == (WizardState {
                step: Step::Install,
                error: None,
                ..w
            })
            &&& w.step == Step::Install ==> next == (WizardState {
                step: Step::Start,
                error: None,
                ..w
            })
            &&& w.step == Step::Start && startable ==> next == (WizardState {
                step: Step::State,
                error: None,
                ..w
            })
            &&& w.step == Step::State ==> next == (WizardState {
                step: Step::Summary,
                error: None,
                ..w
            })
            &&& (w.step == Step::Repo && !known) || (w.step == Step::Start && !startable) ==> next
                == (WizardState { error: next.error, ..w }) && next.error is Some
            &&& w.step == Step::Summary <==> finishes(w, key)
        }),
{
}

/// A wizard that knows what to watch and how to start it gets from its first page
/// to its summary by Enter alone, and what was answered is as it was.
pub proof fn law_enter_reaches_the_summary(w: WizardState, key: Key)
    requires
        w.step == Step::Intro,
        key.code == KeyCode::Enter,
        trimmed(w.repo).len() > 0 || w.origin is Some,
        trimmed(w.start).len() > 0,
    ensures
        ({
            let last = handled(
                handled(handled(handled(handled(w, key), key), key), key),
                key,
            );
            &&& last == (WizardState { step: Step::Summary, error: None, ..w })
            &&& finishes(last, key)
            &&& answers_of(last) == answers_of(w)
        }),
{
    let first = handled(w, key);
    let second = handled(first, key);
    let third = handled(second, key);
    let fourth = handled(third, key);
    law_enter_goes_on(w, key);
    law_enter_goes_on(first, key);
    law_enter_goes_on(second, key);
    law_enter_goes_on(third, key);
    law_enter_goes_on(fourth, key);
}

/// The Escape key goes one page back and changes nothing that was answered; on
/// the first page it ends the wizard.
pub proof fn law_escape_goes_back(w: WizardState, key: Key)
    requires
        key.code == KeyCode::Esc,
    ensures
        ({
            let next = handled(w, key);
            &&& w.step == Step::Intro <==> cancels(w, key)
            &&& next == (WizardState { step: next.step, error: None, ..w })
            &&& w.step == Step::Repo ==> next.step == Step::Intro
            &&& w.step == Step::Install ==> next.step == Step::Repo
            &&& w.step == Step::Start ==> next.step == Step::Install
            &&& w.step == Step::State ==> next.step == Step::Start
            &&& w.step == Step::Summary ==> next.step == Step::State
        }),
{
}

/// A character that is typed stands at the end of the text of the page on which it
/// is typed, and Backspace takes the last one away. Nothing else changes, and on
/// a page without a text nothing is typed. With Alt held nothing is typed either.
pub proof fn law_typing(w: WizardState, key: Key, c: char)
    requires
        !(key.control && key.code == KeyCode::Char('c')),
        key.code == KeyCode::Char(c) || key.code == KeyCode::Backspace,
    ensures
        ({
            let next = handled(w, key);
            let typed = |text: Seq<char>|
                if key.code == KeyCode::Backspace {
                    if text.len() > 0 {
                        text.drop_last()
                    } else {
                        text
                    }
                } else if key.alt {
                    text
                } else {
                    text.push(c)
                };
            &&& w.step == Step::Repo ==> next == (WizardState {
                repo: typed(w.repo),
                error: None,
                ..w
            })
            &&& w.step == Step::Install ==> next == (WizardState {
                install: typed(w.install),
                error: None,
                ..w
            })
            &&& w.step == Step::Start ==> next == (WizardState {
                start: typed(w.start),
                error: None,
                ..w
            })
            &&& w.step == Step::Intro || w.step == Step::State || w.step == Step::Summary
                ==> next.repo == w.repo && next.install == w.install && next.start == w.start
        }),
{
}

/// On the page of the releases the arrows, the space and the Tab key choose the
/// other place, and choosing twice gives the first place again. No other key and
/// no other page changes the place.
pub proof fn law_choosing_the_place(w: WizardState, key: Key)
    ensures
        ({
            let chooses = key.code == KeyCode::Left || key.code == KeyCode::Right || key.code
                == KeyCode::Up || key.code == KeyCode::Down || key.code == KeyCode::Tab || key.code
                == KeyCode::Char(' ');
            let next = handled(w, key);
            &&& w.step == Step::State && chooses ==> next == (WizardState {
                local_state: !w.local_state,
                error: None,
                ..w
            })
            &&& w.step == Step::State && chooses ==> handled(next, key).local_state
                == w.local_state
            &&& !(w.step == Step::State && chooses) ==> next.local_state == w.local_state
        }),
{
}

/// The keys that neither type, choose, confirm nor go back change nothing.
pub proof fn law_other_keys_do_nothing(w: WizardState, key: Key)
    requires
        key.code == KeyCode::Other || (w.step != Step::State && (key.code == KeyCode::Left
            || key.code == KeyCode::Right || key.code == KeyCode::Up || key.code == KeyCode::Down
            || key.code == KeyCode::Tab)),
    ensures
        handled(w, key) == (WizardState { error: None, ..w }),
        !cancels(w, key),
        !finishes(w, key),
{
}

/// The wizard ends without answers by Ctrl+C on every page, and by Escape, `n` or
/// `q` on the first; `y` goes on there as Enter does.
pub proof fn law_leaving(w: WizardState, key: Key)
    ensures
        cancels(w, key) <==> (key.control && key.code == KeyCode::Char('c')) || (w.step
            == Step::Intro && (key.code == KeyCode::Esc || key.code == KeyCode::Char('n')
            || key.code == KeyCode::Char('q'))),
        key.control && key.code == KeyCode::Char('c') ==> handled(w, key) == w,
        w.step == Step::Intro && key.code == KeyCode::Char('y') ==> handled(w, key).step
            == Step::Repo,
        finishes(w, key) <==> w.step == Step::Summary && key.code == KeyCode::Enter,
{
}

/// The page changes by Enter and Escape alone, and on the first page by `y` too.
pub proof fn law_what_turns_the_page(w: WizardState, key: Key)
    ensures
        handled(w, key).step != w.step ==> key.code == KeyCode::Enter || key.code == KeyCode::Esc
            || (w.step == Step::Intro && key.code == KeyCode::Char('y')),
        handled(w, key).project == w.project,
        handled(w, key).origin == w.origin,
{
}

/// What was answered is what was typed, without the white space around it: the
/// repository unless it is blank or the origin, the install command unless it is
/// blank, and the start command.
pub proof fn law_answers(w: WizardState)
    ensures
        ({
            let answers = answers_of(w);
            &&& answers.repo is None <==> trimmed(w.repo).len() == 0 || w.origin == Some(
                trimmed(w.repo),
            )
            &&& answers.repo matches Some(repo) ==> repo == trimmed(w.repo)
            &&& answers.install is None <==> trimmed(w.install).len() == 0
            &&& answers.install matches Some(install) ==> install == trimmed(w.install)
            &&& answers.start == trimmed(w.start)
            &&& answers.local_state == w.local_state
        }),
{
}

/// The commands that are suggested are those of the first kind of project that is
/// recognised: by `package.json`, `Cargo.toml`, `go.mod` or `requirements.txt`, in
/// this order. Where none is, nothing is suggested.
pub proof fn law_suggestion(found: Found)
    ensures
        found.package_json ==> suggestion(found) == ("npm ci"@, "npm start"@),
        !found.package_json && found.cargo_toml ==> suggestion(found) == (
            "cargo build --release"@,
            "cargo run --release"@,
        ),
        !found.package_json && !found.cargo_toml && found.go_mod ==> suggestion(found) == (
            "go build -o app ."@,
            "./app"@,
        ),
        !found.package_json && !found.cargo_toml && !found.go_mod && found.requirements_txt
            ==> suggestion(found) == ("pip install -r requirements.txt"@, ""@),
        !found.package_json && !found.cargo_toml && !found.go_mod && !found.requirements_txt
            ==> suggestion(found) == (""@, ""@),
{
}

/// The configuration is always written, and a `.gitignore` beside it exactly when
/// the releases live there; that one leaves the two files to be committed.
pub proof fn law_files(answers: AnswersText)
    ensures
        ({
            let files = files_of(answers);
            &&& files[0] == ("config.toml"@, config_of(answers))
            &&& files.len() == if answers.local_state {
                2nat
            } else {
                1
            }
            &&& answers.local_state ==> {
                &&& files[1].0 == ".gitignore"@
                &&& lines_of(files[1].1) == seq!["*"@, "!config.toml"@, "!.gitignore"@]
            }
        }),
{
    let text = "*\n!config.toml\n!.gitignore\n"@;
    let first = "*"@;
    let second = "!config.toml"@;
    let third = "!.gitignore"@;
    let none = Seq::<char>::empty();
    reveal_strlit("*\n!config.toml\n!.gitignore\n");
    reveal_strlit("*");
    reveal_strlit("!config.toml");
    reveal_strlit("!.gitignore");
    let behind_second = third + seq!['\n'] + none;
    let behind_first = second + seq!['\n'] + behind_second;
    assert(text =~= first + seq!['\n'] + behind_first);
    law_lines(none, none);
    law_lines(third, none);
    law_lines(second, behind_second);
    law_lines(first, behind_first);
    assert(lines_of(text) =~= seq![first, second, third]);
}

/// On the page of the releases one of the two places is marked, the one that is
/// chosen.
pub proof fn law_one_place_is_marked(w: WizardState)
    requires
        w.step == Step::State,
    ensures
        ({
            let shown = body_rows(w);
            &&& shown.len() == 3
            &&& shown[1].len() == 1 && shown[2].len() == 1
            &&& shown[1][0].bold <==> !w.local_state
            &&& shown[2][0].bold <==> w.local_state
            &&& begins(
                shown[1][0].text,
                if w.local_state {
                    "  "@ + "○"@
                } else {
                    "  "@ + "●"@
                },
            )
            &&& begins(
                shown[2][0].text,
                if w.local_state {
                    "  "@ + "●"@
                } else {
                    "  "@ + "○"@
                },
            )
            &&& holds(shown[1][0].text, "~/.tinycd/<name>-<hash>"@)
            &&& holds(shown[2][0].text, ".tinycd/ inside this repo"@)
        }),
{
    lemma_option_row(
        !w.local_state,
        "~/.tinycd/<name>-<hash>"@,
        "outside the repo; the working tree stays clean"@,
    );
    lemma_option_row(
        w.local_state,
        ".tinycd/ inside this repo"@,
        "self-contained; releases are gitignored automatically"@,
    );
}

proof fn lemma_option_row(selected: bool, label: Seq<char>, detail: Seq<char>)
    ensures
        ({
            let row = option_row(selected, label, detail);
            &&& row.len() == 1
            &&& row[0].bold <==> selected
            &&& begins(
                row[0].text,
                if selected {
                    "  "@ + "●"@
                } else {
                    "  "@ + "○"@
                },
            )
            &&& holds(row[0].text, label)
        }),
{
    let mark = if selected {
        "  "@ + "●"@
    } else {
        "  "@ + "○"@
    };
    let text = option_row(selected, label, detail)[0].text;
    let rest = " "@ + label + " — "@ + detail;
    law_begins(mark, rest, text);
    assert(text =~= mark + rest);
    law_holds(mark + " "@, label, " — "@ + detail, text);
    assert(text =~= mark + " "@ + label + (" — "@ + detail));
}

/// A page with a text shows the text that is typed on it, and no other.
pub proof fn law_typed_text_is_shown(w: WizardState)
    ensures
        w.step == Step::Repo ==> body_rows(w).last()[1].text == w.repo,
        w.step == Step::Install ==> body_rows(w).last()[1].text == w.install,
        w.step == Step::Start ==> body_rows(w).last()[1].text == w.start,
        w.step == Step::Repo || w.step == Step::Install || w.step == Step::Start ==> body_rows(
            w,
        ).len() == 2 && body_rows(w)[1].len() == 3,
        w.step == Step::Intro ==> body_rows(w).len() == 0,
{
}

/// The summary shows every line of the file that is written.
pub proof fn law_summary_shows_the_file(w: WizardState, i: int)
    requires
        w.step == Step::Summary,
        0 <= i < lines_of(config_of(answers_of(w))).len(),
    ensures
        body_rows(w)[i + 1].len() == 1,
        body_rows(w)[i + 1][0].text == "  "@ + lines_of(config_of(answers_of(w)))[i],
{
    let quoted = quoted_rows(config_of(answers_of(w)));
    assert(body_rows(w)[i + 1] == quoted[i]);
}

/// What is missing is shown in red below the page, and where nothing is missing
/// nothing is shown there.
pub proof fn law_error_is_shown(error: Option<Seq<char>>)
    ensures
        error is None <==> error_rows(error).len() == 0,
        error matches Some(text) ==> error_rows(error).last() == seq![
            Piece { text, tone: Tone::Red, bold: false, dim: false },
        ],
{
}

/// The wizard begins on its first page, with the origin as the repository, the
/// suggested commands, and the releases outside the checkout.
pub proof fn law_first_page(
    project: &str,
    origin: Option<&str>,
    suggested: (String, String),
    wizard: Wizard,
)
    requires
        call_ensures(Wizard::new, (project, origin, suggested), wizard),
    ensures
        wizard@.step == Step::Intro,
        wizard@.project == project@,
        wizard@.error is None,
        !wizard@.local_state,
        wizard@.install == suggested.0@,
        wizard@.start == suggested.1@,
        origin is None ==> wizard@.origin is None && wizard@.repo.len() == 0,
        origin matches Some(url) ==> wizard@.origin == Some(url@) && wizard@.repo == url@,
{
}

/// The first page names the project, and the page of the remote asks for one
/// exactly where the checkout has no origin.
pub proof fn law_explanations(w: WizardState, other: WizardState)
    ensures
        w.step == Step::Intro ==> holds(explanation(w), w.project),
        w.step == Step::Repo && other.step == Step::Repo ==> (explanation(w) == explanation(other)
            <==> (w.origin is Some <==> other.origin is Some)),
{
    if w.step == Step::Intro {
        let front = "No tinycd configuration was found in\n"@;
        let behind = explanation(w).skip((front.len() + w.project.len()) as int);
        law_holds(front, w.project, behind, w.project);
        assert(explanation(w) =~= front + w.project + behind);
    }
    reveal_strlit("Git remote to watch, detected from this checkout's origin.\nLeave it as is, or replace it with another URL or remote name.\n(Leaving it unchanged tracks origin even if its URL changes later.)");
    reveal_strlit("Git URL or remote name to watch. This checkout has no origin, so a value is required.");
    if w.step == Step::Repo && other.step == Step::Repo && (w.origin is Some) != (other.origin
        is Some) {
        assert(explanation(w).len() != explanation(other).len());
    }
}

/// Every page has a title of its own.
pub proof fn law_titles_differ(one: Step, other: Step)
    ensures
        title_of(one) == title_of(other) <==> one == other,
{
    reveal_strlit("welcome");
    reveal_strlit("remote");
    reveal_strlit("install command");
    reveal_strlit("start command");
    reveal_strlit("releases");
    reveal_strlit("summary");
    assert("welcome"@[0] == 'w' && "remote"@[2] == 'm' && "releases"@[2] == 'l');
    assert("install command"@[0] == 'i' && "start command"@[0] == 's' && "start command"@[1] == 't');
    assert("summary"@[1] == 'u' && "summary"@[0] == 's' && "remote"@[0] == 'r');
    assert("releases"@[0] == 'r');
}

/// The wizard, its answers and its files are viewed field by field.
pub proof fn law_views_of_the_wizard(
    wizard: Wizard,
    answers: Answers,
    files: Seq<ConfigFile>,
    i: int,
)
    ensures
        wizard@.step == wizard.step,
        wizard@.project == wizard.project@,
        wizard@.origin == text_of(wizard.origin),
        wizard@.repo == wizard.repo@,
        wizard@.install == wizard.install@,
        wizard@.start == wizard.start@,
        wizard@.local_state == wizard.local_state,
        wizard@.error == text_of(wizard.error),
        answers@.repo == text_of(answers.repo),
        answers@.install == text_of(answers.install),
        answers@.start == answers.start@,
        answers@.local_state == answers.local_state,
        file_texts(files).len() == files.len(),
        0 <= i < files.len() ==> file_texts(files)[i] == (files[i].name@, files[i].contents@),
{
}

} // verus!
