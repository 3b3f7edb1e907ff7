//! How one release is built, started and checked: the recipe that a
//! repository's file provides and the local settings override, and the
//! environment in which its commands run.

use vstd::prelude::*;

use crate::config::{
    check_env, first_bad_pair, first_setting, law_first_setting, law_last_env_argument_wins,
    law_unnamed_variable_is_kept, merged, misplaced, pair_of, sets, setting, Cli, Config,
    FileConfig, Mode, Overrides, Surroundings,
};
use crate::env_table::{ascending, lemma_next_pair, table_of, EnvTable};
use crate::text::{begins, lemma_texts_push, or, text_of, texts};

verus! {

/// A copy of a list of strings.
pub fn copy_texts(list: &Vec<String>) -> (r: Vec<String>)
    ensures
        texts(r@) == texts(list@),
        r.len() == list.len(),
{
    broadcast use lemma_texts_push;

    let mut out: Vec<String> = Vec::new();
    let mut i: usize = 0;
    assert(texts(out@) =~= texts(list@).take(0));
    while i < list.len()
        invariant
            i <= list.len(),
            out.len() == i,
            texts(out@) == texts(list@).take(i as int),
        decreases list.len() - i,
    {
        out.push(list[i].clone());
        i = i + 1;
        assert(texts(out@) =~= texts(list@).take(i as int));
    }
    assert(texts(list@).take(i as int) == texts(list@));
    out
}

/// A copy of an optional string, or else the second one.
fn copy_or(first: &Option<String>, second: Option<String>) -> (r: Option<String>)
    ensures
        text_of(r) == or(text_of(*first), text_of(second)),
{
    match first {
        Some(text) => Some(text.clone()),
        None => second,
    }
}

/// The shell of the platform.
pub open spec fn platform_shell(windows: bool) -> Seq<Seq<char>> {
    if windows {
        seq!["cmd"@, "/C"@]
    } else {
        seq!["sh"@, "-c"@]
    }
}

/// The shell of the platform.
pub fn default_shell(windows: bool) -> (r: Vec<String>)
    ensures
        texts(r@) == platform_shell(windows),
{
    broadcast use lemma_texts_push;

    let mut shell: Vec<String> = Vec::new();
    if windows {
        shell.push("cmd".to_owned());
        shell.push("/C".to_owned());
    } else {
        shell.push("sh".to_owned());
        shell.push("-c".to_owned());
    }
    assert(texts(shell@) =~= platform_shell(windows));
    shell
}

/// The words of the first shell that is there, or of the platform's.
pub open spec fn shell_words(
    overriding: Option<Vec<String>>,
    file: Option<Vec<String>>,
    windows: bool,
) -> Seq<Seq<char>> {
    match or(overriding, file) {
        Some(words) => texts(words@),
        None => platform_shell(windows),
    }
}

impl Overrides {
    /// The shell: the overrides win, then the repository's file, then the
    /// default of the platform.
    pub fn resolve_shell(&self, file: Option<Vec<String>>, windows: bool) -> (r: Vec<String>)
        ensures
            texts(r@) == shell_words(self.shell, file, windows),
    {
        match &self.shell {
            Some(words) => copy_texts(words),
            None => match file {
                Some(words) => words,
                None => default_shell(windows),
            },
        }
    }
}

/// How to install, start and check one release.
pub struct RunSpec {
    pub shell: Vec<String>,
    pub env: EnvTable,
    pub install: Option<String>,
    pub start: String,
    pub check: Option<String>,
}

/// Why a recipe is refused, with what is said of it; the first reason in this
/// order counts. `None` when there is no reason.
pub open spec fn recipe_refusal<P>(
    overrides: Overrides,
    file: FileConfig<P>,
    windows: bool,
) -> Option<Seq<char>> {
    if shell_words(overrides.shell, file.shell, windows).len() == 0 {
        Some("shell must name a program"@)
    } else if first_setting(file.env.pairs()) is Some {
        Some(misplaced(first_setting(file.env.pairs())->0))
    } else if overrides.start is None && file.start is None {
        Some(
            "start is not configured; set it in .tinycd/config.toml (committed or local) or with --start"@,
        )
    } else {
        None
    }
}

/// Whether a recipe is what the overrides over the repository's file make of
/// it.
pub open spec fn recipe_fits<P>(
    spec: RunSpec,
    overrides: Overrides,
    file: FileConfig<P>,
    windows: bool,
) -> bool {
    &&& texts(spec.shell@) == shell_words(overrides.shell, file.shell, windows)
    &&& spec.env.wf()
    &&& spec.env@ == file.env@.union_prefer_right(overrides.env@)
    &&& text_of(spec.install) == or(text_of(overrides.install), text_of(file.install))
    &&& Some(spec.start@) == or(text_of(overrides.start), text_of(file.start))
    &&& text_of(spec.check) == or(text_of(overrides.check), text_of(file.check))
}

/// Merge the overrides with the file inside a synced release, or refuse with
/// the first reason that there is. Settings of the launcher in the file are
/// ignored.
pub fn run_spec<P>(overrides: &Overrides, file: FileConfig<P>, windows: bool) -> (r: Result<
    RunSpec,
    String,
>)
    requires
        overrides.env.wf(),
        file.env.wf(),
    ensures
        match r {
            Ok(spec) => {
                &&& recipe_refusal(*overrides, file, windows) is None
                &&& recipe_fits(spec, *overrides, file, windows)
                &&& spec.shell.len() > 0
            },
            Err(message) => recipe_refusal(*overrides, file, windows) == Some(message@),
        },
        r is Ok <==> {
            &&& if overrides.shell is Some {
                overrides.shell->0.len() > 0
            } else {
                file.shell is Some ==> file.shell->0.len() > 0
            }
            &&& forall|i: int|
                0 <= i < file.env.pairs().len() ==> !setting((#[trigger] file.env.pairs()[i]).0)
            &&& overrides.start is Some || file.start is Some
        },
{
    proof {
        law_what_a_recipe_needs(*overrides, file, windows);
    }
    let shell: Vec<String> = overrides.resolve_shell(file.shell, windows);
    assert(texts(shell@).len() == shell.len());
    if shell.len() == 0 {
        return Err("shell must name a program".to_owned());
    }
    if let Err(message) = check_env(&file.env) {
        return Err(message);
    }
    let mut env: EnvTable = file.env;
    env.extend(&overrides.env);
    let start: String = match copy_or(&overrides.start, file.start) {
        Some(start) => start,
        None => {
            return Err(
                "start is not configured; set it in .tinycd/config.toml (committed or local) or with --start".to_owned(),
            );
        },
    };
    Ok(
        RunSpec {
            shell,
            env,
            install: copy_or(&overrides.install, file.install),
            start,
            check: copy_or(&overrides.check, file.check),
        },
    )
}

/// A recipe is accepted exactly when its shell names a program, no variable of
/// the repository's file is named like a setting, and the overrides or the file
/// give a start command. Whether there is an install or a check command does not
/// matter.
pub proof fn law_what_a_recipe_needs<P>(overrides: Overrides, file: FileConfig<P>, windows: bool)
    ensures
        recipe_refusal(overrides, file, windows) is None <==> {
            &&& if overrides.shell is Some {
                overrides.shell->0.len() > 0
            } else {
                file.shell is Some ==> file.shell->0.len() > 0
            }
            &&& forall|i: int|
                0 <= i < file.env.pairs().len() ==> !setting((#[trigger] file.env.pairs()[i]).0)
            &&& overrides.start is Some || file.start is Some
        },
{
    law_first_setting(file.env.pairs());
    if overrides.shell is Some {
        assert(texts(overrides.shell->0@).len() == overrides.shell->0@.len());
    } else if file.shell is Some {
        assert(texts(file.shell->0@).len() == file.shell->0@.len());
    }
}

/// Each part of a recipe is what the overrides give, and where they do not give
/// it, what the repository's file gives. Where neither gives a shell, it is that
/// of the platform; where neither gives an install or a check command, there is
/// none.
pub proof fn law_recipe_layers<P>(
    spec: RunSpec,
    overrides: Overrides,
    file: FileConfig<P>,
    windows: bool,
    name: Seq<char>,
)
    requires
        recipe_fits(spec, overrides, file, windows),
    ensures
        overrides.shell matches Some(words) ==> texts(spec.shell@) == texts(words@),
        overrides.shell is None && file.shell is Some ==> texts(spec.shell@) == texts(
            file.shell->0@,
        ),
        overrides.shell is None && file.shell is None ==> texts(spec.shell@) == if windows {
            seq!["cmd"@, "/C"@]
        } else {
            seq!["sh"@, "-c"@]
        },
        overrides.install is Some ==> text_of(spec.install) == Some(overrides.install->0@),
        overrides.install is None ==> text_of(spec.install) == text_of(file.install),
        overrides.start is Some ==> spec.start@ == overrides.start->0@,
        overrides.start is None && file.start is Some ==> spec.start@ == file.start->0@,
        overrides.check is Some ==> text_of(spec.check) == Some(overrides.check->0@),
        overrides.check is None ==> text_of(spec.check) == text_of(file.check),
        spec.env@.contains_key(name) <==> overrides.env@.contains_key(name)
            || file.env@.contains_key(name),
        overrides.env@.contains_key(name) ==> spec.env@[name] == overrides.env@[name],
        file.env@.contains_key(name) && !overrides.env@.contains_key(name) ==> spec.env@[name]
            == file.env@[name],
{
}

/// The variables of tinycd that a command sees come from the table or, for the
/// sync, from the deployment: nothing else of them reaches a command. A check
/// sees the token where the table sets it, as the sync does.
pub proof fn law_private_variables(
    repo: &str,
    git_ref: Option<&str>,
    inherited: Map<Seq<char>, Seq<char>>,
    table: Map<Seq<char>, Seq<char>>,
)
    ensures
        ({
            let token = "TINYCD_TOKEN"@;
            let check = environment(Stage::Check, inherited, table);
            let sync = environment(Stage::Sync { repo, git_ref }, inherited, table);
            &&& check.contains_key(token) <==> table.contains_key(token)
            &&& table.contains_key(token) ==> check[token] == table[token]
            &&& sync.contains_key(token) <==> table.contains_key(token)
            &&& table.contains_key(token) ==> sync[token] == table[token]
            &&& git_ref is None ==> {
                &&& sync.contains_key("TINYCD_REF"@) <==> table.contains_key("TINYCD_REF"@)
                &&& table.contains_key("TINYCD_REF"@) ==> sync["TINYCD_REF"@]
                    == table["TINYCD_REF"@]
            }
        }),
{
    lemma_private_names();
}

/// A Git command sees the inherited environment without the variables of
/// tinycd.
pub proof fn law_git_environment(inherited: Map<Seq<char>, Seq<char>>, name: Seq<char>)
    ensures
        ({
            let seen = without_secrets(inherited);
            let own = name == "TINYCD_TOKEN"@ || name == "TINYCD_REPO"@ || name == "TINYCD_REF"@;
            &&& seen.contains_key(name) <==> inherited.contains_key(name) && !own
            &&& seen.contains_key(name) ==> seen[name] == inherited[name]
        }),
{
}

/// Changes to an environment are made one after the other: a variable that the
/// last change sets has its value, one that it takes away is gone, and every
/// other one is as it was.
pub proof fn law_changes(
    env: Map<Seq<char>, Seq<char>>,
    changes: Seq<Change>,
    last: Change,
    name: Seq<char>,
)
    ensures
        ({
            let before = after_changes(env, changes);
            let now = after_changes(env, changes.push(last));
            match last {
                Change::Put(set, value) => {
                    &&& now.contains_key(set@) && now[set@] == value@
                    &&& name != set@ ==> now.contains_key(name) == before.contains_key(name)
                    &&& name != set@ && before.contains_key(name) ==> now[name] == before[name]
                },
                Change::Remove(gone) => {
                    &&& !now.contains_key(gone@)
                    &&& name != gone@ ==> now.contains_key(name) == before.contains_key(name)
                    &&& name != gone@ && before.contains_key(name) ==> now[name] == before[name]
                },
            }
        }),
        after_changes(env, Seq::empty()) == env,
{
    assert(changes.push(last).drop_last() =~= changes);
}

/// What the repository's file says of the launcher changes nothing: two files
/// with the same shell, `[env]`, install, start and check give the same recipe,
/// or are refused for the same reason.
pub proof fn law_launcher_settings_are_ignored<P>(
    overrides: Overrides,
    one: FileConfig<P>,
    other: FileConfig<P>,
    windows: bool,
    spec: RunSpec,
)
    requires
        one.shell == other.shell,
        one.env == other.env,
        one.install == other.install,
        one.start == other.start,
        one.check == other.check,
    ensures
        recipe_refusal(overrides, one, windows) == recipe_refusal(overrides, other, windows),
        recipe_fits(spec, overrides, one, windows) == recipe_fits(spec, overrides, other, windows),
{
}

/// A change to the environment of a command.
pub enum Change {
    /// Take a variable away.
    Remove(String),
    /// Set a variable.
    Put(String, String),
}

/// The environment after one change.
pub open spec fn changed(
    env: Map<Seq<char>, Seq<char>>,
    change: Change,
) -> Map<Seq<char>, Seq<char>> {
    match change {
        Change::Remove(name) => env.remove(name@),
        Change::Put(name, value) => env.insert(name@, value@),
    }
}

/// The environment after changes, one after the other.
pub open spec fn after_changes(
    env: Map<Seq<char>, Seq<char>>,
    changes: Seq<Change>,
) -> Map<Seq<char>, Seq<char>>
    decreases changes.len(),
{
    if changes.len() == 0 {
        env
    } else {
        changed(after_changes(env, changes.drop_last()), changes.last())
    }
}

/// An environment without the variables that belong to tinycd itself.
pub open spec fn without_secrets(env: Map<Seq<char>, Seq<char>>) -> Map<Seq<char>, Seq<char>> {
    env.remove("TINYCD_TOKEN"@).remove("TINYCD_REPO"@).remove("TINYCD_REF"@)
}

/// A command of the pipeline.
pub enum Stage<'a> {
    /// Fetches a release; it alone learns the repository and the ref.
    Sync { repo: &'a str, git_ref: Option<&'a str> },
    Install,
    Start,
    Check,
}

/// The environment in which a command runs: the inherited one without the
/// variables of tinycd, then the table. The repository and the ref are set for
/// the sync and for no other command, and the token is taken from install and
/// start even where the table sets it.
pub open spec fn environment(
    stage: Stage,
    inherited: Map<Seq<char>, Seq<char>>,
    table: Map<Seq<char>, Seq<char>>,
) -> Map<Seq<char>, Seq<char>> {
    let shared = without_secrets(inherited).union_prefer_right(table);
    match stage {
        Stage::Sync { repo, git_ref } => {
            let told = shared.insert("TINYCD_REPO"@, repo@);
            match git_ref {
                Some(git_ref) => told.insert("TINYCD_REF"@, git_ref@),
                None => told,
            }
        },
        Stage::Install => without_secrets(shared),
        Stage::Start => without_secrets(shared),
        Stage::Check => shared.remove("TINYCD_REPO"@).remove("TINYCD_REF"@),
    }
}

/// A command to spawn: the changes to the environment are made in their order.
pub struct Invocation {
    pub program: String,
    pub args: Vec<String>,
    pub changes: Vec<Change>,
}

fn push_change(changes: &mut Vec<Change>, change: Change)
    ensures
        final(changes)@ == old(changes)@.push(change),
        forall|env: Map<Seq<char>, Seq<char>>| #[trigger]
            after_changes(env, final(changes)@) == changed(
                after_changes(env, old(changes)@),
                change,
            ),
{
    changes.push(change);
    assert(changes@.drop_last() == old(changes)@);
}

fn remove_secrets(changes: &mut Vec<Change>)
    ensures
        forall|env: Map<Seq<char>, Seq<char>>| #[trigger]
            after_changes(env, final(changes)@) == without_secrets(
                after_changes(env, old(changes)@),
            ),
{
    push_change(changes, Change::Remove("TINYCD_TOKEN".to_owned()));
    push_change(changes, Change::Remove("TINYCD_REPO".to_owned()));
    push_change(changes, Change::Remove("TINYCD_REF".to_owned()));
}

fn set_table(changes: &mut Vec<Change>, table: &EnvTable)
    requires
        table.wf(),
    ensures
        forall|env: Map<Seq<char>, Seq<char>>| #[trigger]
            after_changes(env, final(changes)@) == after_changes(
                env,
                old(changes)@,
            ).union_prefer_right(table@),
{
    let ghost start = changes@;
    let ghost pairs = table.pairs();
    let mut i: usize = 0;
    assert forall|env: Map<Seq<char>, Seq<char>>| #[trigger]
        after_changes(env, changes@) == after_changes(env, start).union_prefer_right(
            table_of(pairs.take(0)),
        ) by {
        assert(after_changes(env, start).union_prefer_right(table_of(pairs.take(0)))
            =~= after_changes(env, start));
    }
    while i < table.len()
        invariant
            i <= pairs.len(),
            pairs == table.pairs(),
            ascending(pairs),
            forall|env: Map<Seq<char>, Seq<char>>| #[trigger]
                after_changes(env, changes@) == after_changes(env, start).union_prefer_right(
                    table_of(pairs.take(i as int)),
                ),
        decreases pairs.len() - i,
    {
        let ghost before_change = changes@;
        let name: String = table.name(i).to_owned();
        let value: String = table.value(i).to_owned();
        let ghost pair = pairs[i as int];
        push_change(changes, Change::Put(name, value));
        proof {
            lemma_next_pair(pairs, i as int);
            assert forall|env: Map<Seq<char>, Seq<char>>| #[trigger]
                after_changes(env, changes@) == after_changes(env, start).union_prefer_right(
                    table_of(pairs.take(i + 1)),
                ) by {
                assert(after_changes(env, before_change) == after_changes(
                    env,
                    start,
                ).union_prefer_right(table_of(pairs.take(i as int))));
                assert(after_changes(env, start).union_prefer_right(
                    table_of(pairs.take(i as int)),
                ).insert(pair.0, pair.1) =~= after_changes(env, start).union_prefer_right(
                    table_of(pairs.take(i + 1)),
                ));
            }
        }
        i = i + 1;
    }
    assert(pairs.take(i as int) == pairs);
}

/// The changes that take tinycd's own variables from the environment of a Git
/// command.
pub fn git_changes() -> (r: Vec<Change>)
    ensures
        forall|env: Map<Seq<char>, Seq<char>>| #[trigger]
            after_changes(env, r@) == without_secrets(env),
{
    let mut changes: Vec<Change> = Vec::new();
    remove_secrets(&mut changes);
    changes
}

/// A command line run through a shell, in the environment of its stage.
pub fn shell_command(shell: &Vec<String>, env: &EnvTable, line: &str, stage: Stage) -> (r:
    Invocation)
    requires
        shell.len() > 0,
        env.wf(),
    ensures
        r.program@ == shell@[0]@,
        texts(r.args@) == texts(shell@).skip(1).push(line@),
        forall|inherited: Map<Seq<char>, Seq<char>>| #[trigger]
            after_changes(inherited, r.changes@) == environment(stage, inherited, env@),
{
    broadcast use lemma_texts_push;

    let mut args: Vec<String> = Vec::new();
    let mut i: usize = 1;
    assert(texts(args@) =~= texts(shell@).subrange(1, 1));
    while i < shell.len()
        invariant
            1 <= i <= shell.len(),
            texts(args@) == texts(shell@).subrange(1, i as int),
        decreases shell.len() - i,
    {
        let ghost taken = texts(args@);
        args.push(shell[i].clone());
        assert(texts(args@) == taken.push(texts(shell@)[i as int]));
        i = i + 1;
        assert(texts(args@) =~= texts(shell@).subrange(1, i as int));
    }
    assert(texts(shell@).subrange(1, i as int) == texts(shell@).skip(1));
    args.push(line.to_owned());

    let mut changes: Vec<Change> = Vec::new();
    remove_secrets(&mut changes);
    set_table(&mut changes, env);
    match stage {
        Stage::Sync { repo, git_ref } => {
            push_change(&mut changes, Change::Put("TINYCD_REPO".to_owned(), repo.to_owned()));
            if let Some(git_ref) = git_ref {
                push_change(&mut changes, Change::Put("TINYCD_REF".to_owned(), git_ref.to_owned()));
            }
        },
        Stage::Install => {
            remove_secrets(&mut changes);
        },
        Stage::Start => {
            remove_secrets(&mut changes);
        },
        Stage::Check => {
            push_change(&mut changes, Change::Remove("TINYCD_REPO".to_owned()));
            push_change(&mut changes, Change::Remove("TINYCD_REF".to_owned()));
        },
    }
    Invocation { program: shell[0].clone(), args, changes }
}

/// The variables of tinycd never reach install or start, not even where the
/// inherited environment or the table sets them, and the repository and the
/// ref never reach a check.
pub proof fn law_secrets_stay_with_the_sync(
    inherited: Map<Seq<char>, Seq<char>>,
    table: Map<Seq<char>, Seq<char>>,
)
    ensures
        !environment(Stage::Install, inherited, table).contains_key("TINYCD_TOKEN"@),
        !environment(Stage::Install, inherited, table).contains_key("TINYCD_REPO"@),
        !environment(Stage::Install, inherited, table).contains_key("TINYCD_REF"@),
        !environment(Stage::Start, inherited, table).contains_key("TINYCD_TOKEN"@),
        !environment(Stage::Start, inherited, table).contains_key("TINYCD_REPO"@),
        !environment(Stage::Start, inherited, table).contains_key("TINYCD_REF"@),
        !environment(Stage::Check, inherited, table).contains_key("TINYCD_REPO"@),
        !environment(Stage::Check, inherited, table).contains_key("TINYCD_REF"@),
{
}

proof fn lemma_private_names()
    ensures
        "TINYCD_TOKEN"@ != "TINYCD_REPO"@,
        "TINYCD_TOKEN"@ != "TINYCD_REF"@,
        "TINYCD_REPO"@ != "TINYCD_REF"@,
{
    reveal_strlit("TINYCD_TOKEN");
    reveal_strlit("TINYCD_REPO");
    reveal_strlit("TINYCD_REF");
    assert("TINYCD_TOKEN"@.len() == 12);
    assert("TINYCD_REPO"@.len() == 11);
    assert("TINYCD_REF"@.len() == 10);
}

/// No command inherits the token: where one sees it, the table set it.
pub proof fn law_token_is_not_inherited(
    stage: Stage,
    inherited: Map<Seq<char>, Seq<char>>,
    table: Map<Seq<char>, Seq<char>>,
)
    requires
        !table.contains_key("TINYCD_TOKEN"@),
    ensures
        !environment(stage, inherited, table).contains_key("TINYCD_TOKEN"@),
{
    lemma_private_names();
}

/// The sync learns the repository, and the ref where there is one, whatever
/// the inherited environment and the table say.
pub proof fn law_sync_learns_the_repository(
    repo: &str,
    git_ref: Option<&str>,
    inherited: Map<Seq<char>, Seq<char>>,
    table: Map<Seq<char>, Seq<char>>,
)
    ensures
        ({
            let seen = environment(Stage::Sync { repo, git_ref }, inherited, table);
            &&& seen.contains_key("TINYCD_REPO"@)
            &&& seen["TINYCD_REPO"@] == repo@
            &&& git_ref matches Some(name) ==> {
                &&& seen.contains_key("TINYCD_REF"@)
                &&& seen["TINYCD_REF"@] == name@
            }
        }),
{
    lemma_private_names();
}

/// Whether a variable belongs to tinycd itself.
pub open spec fn private(name: Seq<char>) -> bool {
    name == "TINYCD_TOKEN"@ || name == "TINYCD_REPO"@ || name == "TINYCD_REF"@
}

/// Every command sees the inherited environment plus the table, which wins: for
/// each variable that is not tinycd's own.
pub proof fn law_commands_inherit(
    stage: Stage,
    inherited: Map<Seq<char>, Seq<char>>,
    table: Map<Seq<char>, Seq<char>>,
    name: Seq<char>,
)
    requires
        !private(name),
    ensures
        ({
            let seen = environment(stage, inherited, table);
            &&& seen.contains_key(name) <==> inherited.contains_key(name) || table.contains_key(
                name,
            )
            &&& table.contains_key(name) ==> seen[name] == table[name]
            &&& inherited.contains_key(name) && !table.contains_key(name) ==> seen[name]
                == inherited[name]
        }),
{
}

/// The layers: what the command line says wins over the local file, which wins
/// over the repository's file; `[env]` variables layer in the same order.
pub proof fn law_precedence<P>(
    config: Config<P>,
    cli: Cli<P>,
    local: FileConfig<P>,
    mode: Mode<P>,
    around: Surroundings<P>,
    repository: FileConfig<P>,
    spec: RunSpec,
    name: Seq<char>,
)
    requires
        merged(config, cli, local, mode, around),
        recipe_fits(spec, config.overrides, repository, around.windows),
        first_bad_pair(texts(cli.env@)) is None,
    ensures
        text_of(spec.install) == or(
            text_of(cli.install),
            or(text_of(local.install), text_of(repository.install)),
        ),
        Some(spec.start@) == or(
            text_of(cli.start),
            or(text_of(local.start), text_of(repository.start)),
        ),
        text_of(spec.check) == or(
            text_of(cli.check),
            or(text_of(local.check), text_of(repository.check)),
        ),
        cli.shell.len() > 0 ==> texts(spec.shell@) == texts(cli.shell@),
        cli.shell.len() == 0 ==> texts(spec.shell@) == shell_words(
            local.shell,
            repository.shell,
            around.windows,
        ),
        (forall|i: int| 0 <= i < cli.env.len() ==> !sets(#[trigger] cli.env@[i]@, name)) ==> {
            &&& local.env@.contains_key(name) ==> spec.env@.contains_key(name) && spec.env@[name]
                == local.env@[name]
            &&& !local.env@.contains_key(name) && repository.env@.contains_key(name)
                ==> spec.env@.contains_key(name) && spec.env@[name] == repository.env@[name]
            &&& !local.env@.contains_key(name) && !repository.env@.contains_key(name)
                ==> !spec.env@.contains_key(name)
        },
        forall|last: int|
            0 <= last < cli.env.len() && sets(#[trigger] cli.env@[last]@, name) && (forall|i: int|
                last < i < cli.env.len() ==> !sets(#[trigger] cli.env@[i]@, name))
                ==> spec.env@.contains_key(name) && spec.env@[name] == (pair_of(
                cli.env@[last]@,
            )->0).1,
{
    let args = texts(cli.env@);
    if forall|i: int| 0 <= i < cli.env.len() ==> !sets(#[trigger] cli.env@[i]@, name) {
        assert forall|i: int| 0 <= i < args.len() implies !sets(#[trigger] args[i], name) by {
            assert(!sets(cli.env@[i]@, name));
        }
        law_unnamed_variable_is_kept(local.env@, args, name);
    }
    assert forall|last: int|
        0 <= last < cli.env.len() && sets(#[trigger] cli.env@[last]@, name) && (forall|i: int|
            last < i < cli.env.len() ==> !sets(#[trigger] cli.env@[i]@, name)) implies {
        &&& spec.env@.contains_key(name)
        &&& spec.env@[name] == (pair_of(cli.env@[last]@)->0).1
    } by {
        assert forall|i: int| last < i < args.len() implies !sets(#[trigger] args[i], name) by {
            assert(!sets(cli.env@[i]@, name));
        }
        assert(args[last] == cli.env@[last]@);
        law_last_env_argument_wins(local.env@, args, last, name);
    }
}

/// The first thing that is wrong with a recipe is what is said of it: its shell,
/// then a variable that is named like a setting, then its start command.
pub proof fn law_why_a_recipe_is_refused<P>(
    overrides: Overrides,
    file: FileConfig<P>,
    windows: bool,
)
    ensures
        ({
            let refused = recipe_refusal(overrides, file, windows);
            let no_shell = if overrides.shell is Some {
                overrides.shell->0.len() == 0
            } else {
                file.shell is Some && file.shell->0.len() == 0
            };
            let misplaced_name = first_setting(file.env.pairs());
            &&& no_shell ==> refused == Some("shell must name a program"@)
            &&& !no_shell && misplaced_name is Some ==> refused == Some(
                misplaced(misplaced_name->0),
            )
            &&& !no_shell && misplaced_name is None && overrides.start is None && file.start is None
                ==> (refused matches Some(message) && begins(message, "start is not configured"@))
        }),
{
    if overrides.shell is Some {
        assert(texts(overrides.shell->0@).len() == overrides.shell->0@.len());
    } else if file.shell is Some {
        assert(texts(file.shell->0@).len() == file.shell->0@.len());
    }
    reveal_strlit("start is not configured");
    reveal_strlit("start is not configured; set it in .tinycd/config.toml (committed or local) or with --start");
    let whole = "start is not configured; set it in .tinycd/config.toml (committed or local) or with --start"@;
    assert(whole.take(23) =~= "start is not configured"@);
}

/// A command line is run by the program that the shell names first: with the
/// other words of the shell as its arguments, in order, and the line as the last
/// one.
pub proof fn law_shell_runs_the_line(
    shell: &Vec<String>,
    env: &EnvTable,
    line: &str,
    stage: Stage,
    run: Invocation,
    i: int,
)
    requires
        shell.len() > 0,
        env.wf(),
        call_ensures(shell_command, (shell, env, line, stage), run),
    ensures
        run.program@ == shell@[0]@,
        run.args.len() == shell.len(),
        run.args@[shell.len() - 1]@ == line@,
        1 <= i < shell.len() ==> run.args@[i - 1]@ == shell@[i]@,
{
    let args = texts(run.args@);
    assert(args.len() == run.args@.len());
    assert(args == texts(shell@).skip(1).push(line@));
    assert(args[shell.len() - 1] == run.args@[shell.len() - 1]@);
    if 1 <= i < shell.len() {
        assert(args[i - 1] == run.args@[i - 1]@);
        assert(args[i - 1] == texts(shell@)[i]);
    }
}

} // verus!
