//! The configuration: the command line over the local file over the defaults.

use vstd::prelude::*;
use vstd::utf8::encode_utf8;

use crate::digest::{hex_char, hex_of, hex_prefix, sha256, sha256_of};
use crate::env_table::{table_of, EnvTable};
use crate::share::{bad_entry, check_entries, first_bad, law_first_bad_entry, plain, relative_of};
use crate::source::{no_repo, repo_url};
use crate::text::{
    chars_of, first_of, holds, law_holds, law_split, law_split_undoes_joining, optional, or, same,
    split_at, split_once, stands_at, text_of, texts, trimmed,
};

verus! {

/// The settings on the command line. Paths are of the type `P`.
pub struct Cli<P> {
    pub poll: Option<u64>,
    pub hook: Option<String>,
    pub token: Option<String>,
    pub repo: Option<String>,
    pub git_ref: Option<String>,
    pub share: Vec<String>,
    pub check: Option<String>,
    pub interlock: Option<P>,
    pub root: Option<P>,
    pub shell: Vec<String>,
    pub env: Vec<String>,
    pub sync: Option<String>,
    pub install: Option<String>,
    pub start: Option<String>,
    pub keep: Option<usize>,
}

/// The settings in a configuration file.
pub struct FileConfig<P> {
    pub poll: Option<u64>,
    pub hook: Option<String>,
    pub token: Option<String>,
    pub repo: Option<String>,
    pub git_ref: Option<String>,
    pub share: Option<Vec<String>>,
    pub interlock: Option<P>,
    pub root: Option<P>,
    pub shell: Option<Vec<String>>,
    pub env: EnvTable,
    pub sync: Option<String>,
    pub install: Option<String>,
    pub start: Option<String>,
    pub check: Option<String>,
    pub keep: Option<usize>,
}

impl<P> FileConfig<P> {
    /// The settings of a file that is not there.
    pub fn empty() -> (r: FileConfig<P>)
        ensures
            r.poll is None,
            r.hook is None,
            r.token is None,
            r.repo is None,
            r.git_ref is None,
            r.share is None,
            r.interlock is None,
            r.root is None,
            r.shell is None,
            r.env.wf(),
            r.env@ == Map::<Seq<char>, Seq<char>>::empty(),
            r.sync is None,
            r.install is None,
            r.start is None,
            r.check is None,
            r.keep is None,
    {
        FileConfig {
            poll: None,
            hook: None,
            token: None,
            repo: None,
            git_ref: None,
            share: None,
            interlock: None,
            root: None,
            shell: None,
            env: EnvTable::new(),
            sync: None,
            install: None,
            start: None,
            check: None,
            keep: None,
        }
    }
}

/// What reading a file came to.
pub enum ReadFile {
    /// Its text.
    Text(String),
    /// It does not exist; what the system says.
    Missing(String),
    /// It cannot be read; what the system says.
    Failed(String),
}

/// What is said when something fails at a path.
pub open spec fn failure(doing: Seq<char>, path: Seq<char>, error: Seq<char>) -> Seq<char> {
    "failed to "@ + doing + " "@ + path + ": "@ + error
}

/// What is said when something fails at a path.
pub fn failed(doing: &str, path: &str, error: &str) -> (r: String)
    ensures
        r@ == failure(doing@, path@, error@),
{
    let mut out: String = "failed to ".to_owned();
    out.append(doing);
    out.append(" ");
    out.append(path);
    out.append(": ");
    out.append(error);
    out
}

/// The text of a configuration file to parse, or `None` for the settings of an
/// empty one: a file that is not required may be missing.
pub fn file_source(read: ReadFile, required: bool, path: &str) -> (r: Result<
    Option<String>,
    String,
>)
    ensures
        match read {
            ReadFile::Text(text) => r == Ok::<Option<String>, String>(Some(text)),
            ReadFile::Missing(error) => if required {
                r matches Err(message) && message@ == failure("read"@, path@, error@)
            } else {
                r == Ok::<Option<String>, String>(None)
            },
            ReadFile::Failed(error) => r matches Err(message) && message@ == failure(
                "read"@,
                path@,
                error@,
            ),
        },
{
    match read {
        ReadFile::Text(text) => Ok(Some(text)),
        ReadFile::Missing(error) => if required {
            Err(failed("read", path, error.as_str()))
        } else {
            Ok(None)
        },
        ReadFile::Failed(error) => Err(failed("read", path, error.as_str())),
    }
}

/// Where the repository and the deployment state come from.
pub enum Mode<P> {
    /// Track a checkout: poll its remote, and keep deployments away from it.
    Local {
        project: P,
    },
    /// Deploy a Git URL: configuration and deployments live in `home`.
    Url {
        repo: String,
        home: P,
    },
}

/// What the machine says of the surroundings.
pub struct Surroundings<P> {
    /// Whether this is Windows.
    pub windows: bool,
    /// The path of the configuration file, as text.
    pub config_path: String,
    /// The Unix permission bits of the configuration file, where there are any.
    pub config_permissions: Option<u32>,
    /// The home folder of the user, if its variable is set.
    pub user_home: Option<P>,
    /// Whether that variable is set to nothing.
    pub user_home_empty: bool,
    /// The name of the tracked folder, if it has one.
    pub project_name: Option<String>,
    /// The bytes of the absolute path of the tracked folder.
    pub project_path: Vec<u8>,
    /// The absolute path of the tracked folder, as text.
    pub project_text: String,
    /// What Git printed as the URL of the configured remote, if it knows one.
    pub remote_url: Option<String>,
}

/// Where the deployments and the link to the current one live.
pub enum Root<P> {
    /// At a path, as it was given on the command line.
    Given(P),
    /// At a path from the file; a relative one is relative to the file.
    BesideConfig(P),
    /// In the folder `key` of `.tinycd` in the user's home.
    State {
        home: P,
        key: String,
    },
    /// In `.tinycd` in the folder that a URL is deployed into.
    Home(P),
}

/// Where the file lives that pauses deployments.
pub enum Interlock<P> {
    /// At a path, as it was given on the command line.
    Given(P),
    /// At a path from the file; a relative one is relative to the file.
    BesideConfig(P),
    /// At `interlock` in the root.
    InRoot,
}

/// A place on disk, put together from paths: `base`, with `below` joined to it
/// if there is one, and then each of `names`.
pub struct Place<P> {
    pub base: P,
    pub below: Option<P>,
    pub names: Vec<String>,
    /// Whether the result is made absolute.
    pub made_absolute: bool,
}

/// Whether a place is a path as it was given.
pub open spec fn as_given<P>(place: Place<P>, path: P) -> bool {
    &&& place.base == path
    &&& place.below is None
    &&& place.names.len() == 0
    &&& !place.made_absolute
}

/// Whether a place is where a path in the file leads: to the path itself when it
/// is absolute, else to the path below the folder of the file.
pub open spec fn beside_file<P>(place: Place<P>, path: P, is_absolute: bool, dir: P) -> bool {
    &&& place.names.len() == 0
    &&& place.made_absolute
    &&& if is_absolute {
        place.base == path && place.below is None
    } else {
        place.base == dir && place.below == Some(path)
    }
}

/// Whether a place is some names below a path.
pub open spec fn names_below<P>(place: Place<P>, path: P, names: Seq<Seq<char>>) -> bool {
    &&& place.base == path
    &&& place.below is None
    &&& texts(place.names@) == names
    &&& !place.made_absolute
}

fn given_place<P>(path: P) -> (r: Place<P>)
    ensures
        as_given(r, path),
        names_below(r, path, Seq::empty()),
{
    let names: Vec<String> = Vec::new();
    assert(texts(names@) =~= Seq::empty());
    Place { base: path, below: None, names, made_absolute: false }
}

fn file_place<P>(path: P, is_absolute: bool, dir: P) -> (r: Place<P>)
    ensures
        beside_file(r, path, is_absolute, dir),
{
    if is_absolute {
        Place { base: path, below: None, names: Vec::new(), made_absolute: true }
    } else {
        Place { base: dir, below: Some(path), names: Vec::new(), made_absolute: true }
    }
}

/// Where the root is. `dir` is the folder of the configuration file, and
/// `is_absolute` says that the path which the file gives is absolute.
pub fn locate_root<P>(root: Root<P>, is_absolute: bool, dir: P) -> (r: Place<P>)
    ensures
        match root {
            Root::Given(path) => as_given(r, path),
            Root::BesideConfig(path) => beside_file(r, path, is_absolute, dir),
            Root::State { home, key } => names_below(r, home, seq![".tinycd"@, key@]),
            Root::Home(home) => names_below(r, home, seq![".tinycd"@]),
        },
{
    match root {
        Root::Given(path) => given_place(path),
        Root::BesideConfig(path) => file_place(path, is_absolute, dir),
        Root::State { home, key } => {
            let mut place: Place<P> = given_place(home);
            place.names.push(".tinycd".to_owned());
            place.names.push(key);
            assert(texts(place.names@) =~= seq![".tinycd"@, key@]);
            place
        },
        Root::Home(home) => {
            let mut place: Place<P> = given_place(home);
            place.names.push(".tinycd".to_owned());
            assert(texts(place.names@) =~= seq![".tinycd"@]);
            place
        },
    }
}

/// Where the interlock is. `root` is where the root is.
pub fn locate_interlock<P>(interlock: Interlock<P>, is_absolute: bool, dir: P, root: P) -> (r: Place<
    P,
>)
    ensures
        match interlock {
            Interlock::Given(path) => as_given(r, path),
            Interlock::BesideConfig(path) => beside_file(r, path, is_absolute, dir),
            Interlock::InRoot => names_below(r, root, seq!["interlock"@]),
        },
{
    match interlock {
        Interlock::Given(path) => given_place(path),
        Interlock::BesideConfig(path) => file_place(path, is_absolute, dir),
        Interlock::InRoot => {
            let mut place: Place<P> = given_place(root);
            place.names.push("interlock".to_owned());
            assert(texts(place.names@) =~= seq!["interlock"@]);
            place
        },
    }
}

/// The settings that a repository's own file may provide as well.
pub struct Overrides {
    pub shell: Option<Vec<String>>,
    pub env: EnvTable,
    pub install: Option<String>,
    pub start: Option<String>,
    pub check: Option<String>,
}

/// The merged configuration.
pub struct Config<P> {
    pub poll: Option<u64>,
    pub hook: Option<String>,
    /// The webhook secret, kept as it is because GitHub's scheme signs with it.
    pub token: Option<String>,
    pub repo: String,
    /// The branch or tag to poll and clone; the remote `HEAD` when unset.
    pub git_ref: Option<String>,
    /// Paths linked into each release after the sync.
    pub share: Vec<String>,
    pub interlock: Interlock<P>,
    pub root: Root<P>,
    pub sync: String,
    pub keep: usize,
    /// Project settings that override the repository's own file.
    pub overrides: Overrides,
}

/// Whether a name is that of a setting.
pub open spec fn setting(name: Seq<char>) -> bool {
    ||| name == "poll"@
    ||| name == "hook"@
    ||| name == "token"@
    ||| name == "repo"@
    ||| name == "ref"@
    ||| name == "share"@
    ||| name == "interlock"@
    ||| name == "root"@
    ||| name == "shell"@
    ||| name == "sync"@
    ||| name == "install"@
    ||| name == "start"@
    ||| name == "check"@
    ||| name == "keep"@
    ||| name == "env"@
}

/// Whether a name is that of a setting, and so is misplaced in `[env]`.
pub fn is_setting(name: &str) -> (r: bool)
    ensures
        r == setting(name@),
{
    same(name, "poll") || same(name, "hook") || same(name, "token") || same(name, "repo") || same(
        name,
        "ref",
    ) || same(name, "share") || same(name, "interlock") || same(name, "root") || same(name, "shell")
        || same(name, "sync") || same(name, "install") || same(name, "start") || same(name, "check")
        || same(name, "keep") || same(name, "env")
}

/// The first name, in order, that is a setting.
pub open spec fn first_setting(pairs: Seq<(Seq<char>, Seq<char>)>) -> Option<Seq<char>>
    decreases pairs.len(),
{
    if pairs.len() == 0 {
        None
    } else if setting(pairs[0].0) {
        Some(pairs[0].0)
    } else {
        first_setting(pairs.skip(1))
    }
}

/// What is said of a setting inside `[env]`.
pub open spec fn misplaced(key: Seq<char>) -> Seq<char> {
    "[env] contains '"@ + key
        + "', which is a tinycd setting; move it above the [env] table, or pass --env "@ + key
        + "=... for a variable really named that"@
}

/// Complain about the first setting inside `[env]`: everything below the table
/// header lands in the table, so it is almost always a misplaced key.
pub fn check_env(env: &EnvTable) -> (r: Result<(), String>)
    ensures
        r is Ok <==> first_setting(env.pairs()) is None,
        r matches Err(message) ==> message@ == misplaced(first_setting(env.pairs())->0),
{
    let ghost all = env.pairs();
    let mut i: usize = 0;
    assert(all.skip(0) == all);
    while i < env.len()
        invariant
            i <= env.pairs().len(),
            all == env.pairs(),
            first_setting(all) == first_setting(all.skip(i as int)),
        decreases env.pairs().len() - i,
    {
        let key: &str = env.name(i);
        assert(all.skip(i as int)[0].0 == key@);
        if is_setting(key) {
            let mut message: String = "[env] contains '".to_owned();
            message.append(key);
            message.append(
                "', which is a tinycd setting; move it above the [env] table, or pass --env ",
            );
            message.append(key);
            message.append("=... for a variable really named that");
            return Err(message);
        }
        assert(all.skip(i as int).skip(1) == all.skip(i + 1));
        i = i + 1;
    }
    Ok(())
}

/// The variable that a `KEY=VALUE` argument sets, if it looks like one.
pub open spec fn pair_of(arg: Seq<char>) -> Option<(Seq<char>, Seq<char>)> {
    match split_at(arg, '=') {
        Some((key, value)) => if key.len() > 0 {
            Some((key, value))
        } else {
            None
        },
        None => None,
    }
}

/// The first argument that does not look like `KEY=VALUE`.
pub open spec fn first_bad_pair(args: Seq<Seq<char>>) -> Option<Seq<char>>
    decreases args.len(),
{
    if args.len() == 0 {
        None
    } else if pair_of(args[0]) is None {
        Some(args[0])
    } else {
        first_bad_pair(args.skip(1))
    }
}

/// A table after `KEY=VALUE` arguments were set in it, one after the other.
pub open spec fn with_args(
    table: Map<Seq<char>, Seq<char>>,
    args: Seq<Seq<char>>,
) -> Map<Seq<char>, Seq<char>>
    decreases args.len(),
{
    if args.len() == 0 {
        table
    } else {
        let pair = pair_of(args[0])->0;
        with_args(table.insert(pair.0, pair.1), args.skip(1))
    }
}

/// What is said of an `--env` argument that does not look like `KEY=VALUE`.
pub open spec fn bad_pair(arg: Seq<char>) -> Seq<char> {
    "--env "@ + arg + " must look like KEY=VALUE"@
}

/// Set the `KEY=VALUE` arguments in a table, or complain about the first that
/// does not look like one.
pub fn set_args(table: EnvTable, args: &Vec<String>) -> (r: Result<EnvTable, String>)
    requires
        table.wf(),
    ensures
        match r {
            Ok(out) => {
                &&& first_bad_pair(texts(args@)) is None
                &&& out.wf()
                &&& out@ == with_args(table@, texts(args@))
            },
            Err(message) => first_bad_pair(texts(args@)) matches Some(arg) && message@ == bad_pair(
                arg,
            ),
        },
{
    let ghost all = texts(args@);
    let ghost start = table@;
    let mut out: EnvTable = table;
    let mut i: usize = 0;
    assert(all.skip(0) == all);
    while i < args.len()
        invariant
            i <= args.len(),
            all == texts(args@),
            out.wf(),
            first_bad_pair(all) == first_bad_pair(all.skip(i as int)),
            with_args(start, all) == with_args(out@, all.skip(i as int)),
        decreases args.len() - i,
    {
        assert(all.skip(i as int)[0] == args@[i as int]@);
        assert(all.skip(i as int).skip(1) == all.skip(i + 1));
        match split_once(args[i].as_str(), '=') {
            Some(pair) => if !pair.0.as_str().is_empty() {
                out.insert(pair.0, pair.1);
            } else {
                return Err(complain_of_pair(args[i].as_str()));
            },
            None => {
                return Err(complain_of_pair(args[i].as_str()));
            },
        }
        i = i + 1;
    }
    Ok(out)
}

fn complain_of_pair(arg: &str) -> (r: String)
    ensures
        r@ == bad_pair(arg@),
{
    let mut message: String = "--env ".to_owned();
    message.append(arg);
    message.append(" must look like KEY=VALUE");
    message
}

/// Whether a token is at least thirty-two printable ASCII bytes without a
/// space.
pub open spec fn strong(token: Seq<char>) -> bool {
    let bytes = encode_utf8(token);
    &&& bytes.len() >= 32
    &&& forall|i: int| 0 <= i < bytes.len() ==> 33 <= #[trigger] bytes[i] <= 126
}

/// Whether a token is strong enough for the webhook.
pub fn is_strong(token: &str) -> (r: bool)
    ensures
        r == strong(token@),
{
    let bytes: &[u8] = token.as_bytes();
    if bytes.len() < 32 {
        return false;
    }
    let mut i: usize = 0;
    while i < bytes.len()
        invariant
            bytes@ == encode_utf8(token@),
            i <= bytes.len(),
            forall|j: int| 0 <= j < i ==> 33 <= #[trigger] bytes@[j] <= 126,
        decreases bytes.len() - i,
    {
        if bytes[i] < 33 || bytes[i] > 126 {
            return false;
        }
        i = i + 1;
    }
    true
}

/// Whether a character may stand in the name of a folder as it is.
pub open spec fn safe(c: char) -> bool {
    ||| 48 <= c as u32 <= 57
    ||| 65 <= c as u32 <= 90
    ||| 97 <= c as u32 <= 122
    ||| c == '.'
    ||| c == '_'
    ||| c == '-'
}

/// A name with a dash for each character that is not safe.
pub open spec fn safe_name(name: Seq<char>) -> Seq<char> {
    name.map_values(
        |c: char|
            if safe(c) {
                c
            } else {
                '-'
            },
    )
}

/// The name of a folder, or `project` where it has none.
pub open spec fn folder_name(name: Option<Seq<char>>) -> Seq<char> {
    match name {
        Some(name) => if name.len() > 0 {
            name
        } else {
            "project"@
        },
        None => "project"@,
    }
}

/// The name of the folder that keeps the deployments of a tracked checkout: its
/// name made safe, and the beginning of the digest of its path.
pub open spec fn key_of(name: Option<Seq<char>>, digest: Seq<u8>) -> Seq<char> {
    safe_name(folder_name(name)) + "-"@ + hex_of(digest.take(4))
}

/// The name of the folder that keeps the deployments of a tracked checkout,
/// from the digest of its path.
pub fn state_key(name: Option<&str>, digest: &[u8; 32]) -> (r: String)
    ensures
        r@ == key_of(optional(name), digest@),
{
    let source: String = match name {
        Some(name) => if name.is_empty() {
            "project".to_owned()
        } else {
            name.to_owned()
        },
        None => "project".to_owned(),
    };
    let chars: Vec<char> = chars_of(source.as_str());
    let mut out: String = String::new();
    let mut i: usize = 0;
    while i < chars.len()
        invariant
            i <= chars.len(),
            out@ == safe_name(chars@.take(i as int)),
        decreases chars.len() - i,
    {
        let c: char = chars[i];
        let u: u32 = c as u32;
        if (48 <= u && u <= 57) || (65 <= u && u <= 90) || (97 <= u && u <= 122) || c == '.' || c
            == '_' || c == '-' {
            out.push(c);
        } else {
            out.push('-');
        }
        i = i + 1;
        assert(out@ =~= safe_name(chars@.take(i as int)));
    }
    assert(chars@.take(i as int) == chars@);
    out.append("-");
    out.append(hex_prefix(digest, 4).as_str());
    out
}

/// The key of a tracked checkout holds nothing but letters, digits, dots,
/// underscores and dashes, so it names one folder.
pub proof fn law_state_key_is_safe(name: Option<Seq<char>>, digest: Seq<u8>, i: int)
    requires
        digest.len() == 32,
        0 <= i < key_of(name, digest).len(),
    ensures
        safe(key_of(name, digest)[i]),
{
    reveal_strlit("-");
    let front = safe_name(folder_name(name));
    let text = hex_of(digest.take(4));
    let key = key_of(name, digest);
    if i < front.len() {
        assert(key[i] == front[i]);
    } else if i == front.len() {
        assert(key[i] == '-');
    } else {
        let k = i - front.len() - 1;
        assert(key[i] == text[k]);
        let b = digest.take(4)[k / 2] as int;
        assert(text[k] == hex_char(b / 16) || text[k] == hex_char(b % 16));
    }
}

/// The variable that names the user's home folder.
pub open spec fn home_variable(windows: bool) -> Seq<char> {
    if windows {
        "USERPROFILE"@
    } else {
        "HOME"@
    }
}

/// What is said when the user's home folder is not known.
pub open spec fn no_home(windows: bool) -> Seq<char> {
    home_variable(windows) + " must be set to place deployments; or pass --root"@
}

/// The home folder and the key below its `.tinycd` under which a tracked
/// checkout keeps its deployments, or the complaint that there is no home.
pub fn state_root<P>(
    user_home: Option<P>,
    user_home_empty: bool,
    windows: bool,
    project_name: Option<&str>,
    project_path: &[u8],
) -> (r: Result<(P, String), String>)
    ensures
        match r {
            Ok(place) => {
                &&& user_home == Some(place.0)
                &&& !user_home_empty
                &&& place.1@ == key_of(optional(project_name), sha256_of(project_path@)@)
            },
            Err(message) => {
                &&& user_home is None || user_home_empty
                &&& message@ == no_home(windows)
            },
        },
{
    if !user_home_empty {
        if let Some(home) = user_home {
            let digest: [u8; 32] = sha256(project_path);
            return Ok((home, state_key(project_name, &digest)));
        }
    }
    let mut message: String = if windows {
        "USERPROFILE".to_owned()
    } else {
        "HOME".to_owned()
    };
    message.append(" must be set to place deployments; or pass --root");
    Err(message)
}

/// The command that syncs a release when none is configured.
pub open spec fn default_sync(windows: bool, with_ref: bool) -> Seq<char> {
    if windows {
        if with_ref {
            "git clone --depth 1 --branch \"%TINYCD_REF%\" \"%TINYCD_REPO%\" ."@
        } else {
            "git clone --depth 1 \"%TINYCD_REPO%\" ."@
        }
    } else {
        if with_ref {
            "git clone --depth 1 --branch \"$TINYCD_REF\" \"$TINYCD_REPO\" ."@
        } else {
            "git clone --depth 1 \"$TINYCD_REPO\" ."@
        }
    }
}

fn sync_default(windows: bool, with_ref: bool) -> (r: String)
    ensures
        r@ == default_sync(windows, with_ref),
{
    if windows {
        if with_ref {
            "git clone --depth 1 --branch \"%TINYCD_REF%\" \"%TINYCD_REPO%\" .".to_owned()
        } else {
            "git clone --depth 1 \"%TINYCD_REPO%\" .".to_owned()
        }
    } else {
        if with_ref {
            "git clone --depth 1 --branch \"$TINYCD_REF\" \"$TINYCD_REPO\" .".to_owned()
        } else {
            "git clone --depth 1 \"$TINYCD_REPO\" .".to_owned()
        }
    }
}

/// The polling interval: every thirty seconds when neither polling nor the
/// webhook is configured.
pub open spec fn poll_of<P>(cli: Cli<P>, file: FileConfig<P>) -> Option<u64> {
    if cli.poll is None && file.poll is None && cli.hook is None && file.hook is None {
        Some(30)
    } else {
        or(cli.poll, file.poll)
    }
}

/// The shell from the command line, or else from the file.
pub open spec fn shell_of<P>(cli: Cli<P>, file: FileConfig<P>) -> Option<Vec<String>> {
    if cli.shell.len() > 0 {
        Some(cli.shell)
    } else {
        file.shell
    }
}

/// The shared entries from the command line, or else from the file.
pub open spec fn share_of<P>(cli: Cli<P>, file: FileConfig<P>) -> Seq<Seq<char>> {
    if cli.share.len() > 0 {
        texts(cli.share@)
    } else {
        match file.share {
            Some(share) => texts(share@),
            None => Seq::empty(),
        }
    }
}

/// How many releases are kept: five, unless configured.
pub open spec fn keep_of<P>(cli: Cli<P>, file: FileConfig<P>) -> usize {
    match or(cli.keep, file.keep) {
        Some(keep) => keep,
        None => 5,
    }
}

/// Whether permission bits let group or other users at a file.
pub open spec fn exposed(permissions: Option<u32>) -> bool {
    permissions matches Some(bits) && bits & 0o077 != 0
}

/// Why a configuration is refused, with what is said of it; the first reason in
/// this order counts. `None` when there is no reason.
pub open spec fn refusal<P>(
    cli: Cli<P>,
    file: FileConfig<P>,
    mode: Mode<P>,
    around: Surroundings<P>,
) -> Option<Seq<char>> {
    let hook = or(cli.hook, file.hook);
    let token = or(cli.token, file.token);
    if cli.repo is Some && mode is Url {
        Some("pass the repository as either the first argument or --repo, not both"@)
    } else if file.token is Some && exposed(around.config_permissions) {
        Some(
            around.config_path@
                + " contains a token and must not be readable by group or other users"@,
        )
    } else if poll_of(cli, file) == Some(0u64) {
        Some("poll must be at least one second"@)
    } else if hook is Some && token is None {
        Some("hook mode requires --token, TINYCD_TOKEN, or token in .tinycd/config.toml"@)
    } else if token is Some && !strong(token->0@) {
        Some("the webhook token must be at least 32 printable non-space ASCII bytes"@)
    } else if cli.root is None && file.root is None && mode is Local && (around.user_home is None
        || around.user_home_empty) {
        Some(no_home(around.windows))
    } else if shell_of(cli, file) is Some && shell_of(cli, file)->0.len() == 0 {
        Some("shell must name a program"@)
    } else if first_setting(file.env.pairs()) is Some {
        Some(misplaced(first_setting(file.env.pairs())->0))
    } else if first_bad_pair(texts(cli.env@)) is Some {
        Some(bad_pair(first_bad_pair(texts(cli.env@))->0))
    } else if keep_of(cli, file) == 0 {
        Some("keep must be at least one deployment"@)
    } else if mode is Local && around.remote_url is None && cli.repo is None && file.repo is None {
        Some(no_repo(around.project_text@))
    } else if first_bad(share_of(cli, file), around.windows) is Some {
        Some(bad_entry(first_bad(share_of(cli, file), around.windows)->0))
    } else {
        None
    }
}

/// The repository: the URL itself, or what the tracked checkout's remote is.
pub open spec fn repo_of<P>(
    cli: Cli<P>,
    file: FileConfig<P>,
    mode: Mode<P>,
    around: Surroundings<P>,
) -> Seq<char> {
    match mode {
        Mode::Url { repo, home } => repo@,
        Mode::Local { project } => match around.remote_url {
            Some(printed) => trimmed(printed@),
            None => or(cli.repo, file.repo)->0@,
        },
    }
}

/// Whether the root is where it belongs: where the command line says, else
/// where the file says, else where the mode keeps its deployments.
pub open spec fn root_fits<P>(
    root: Root<P>,
    cli: Cli<P>,
    file: FileConfig<P>,
    mode: Mode<P>,
    around: Surroundings<P>,
) -> bool {
    if cli.root is Some {
        root == Root::Given(cli.root->0)
    } else if file.root is Some {
        root == Root::BesideConfig(file.root->0)
    } else {
        match mode {
            Mode::Local { project } => {
                &&& root is State
                &&& Some(root->State_home) == around.user_home
                &&& root->key@ == key_of(
                    text_of(around.project_name),
                    sha256_of(around.project_path@)@,
                )
            },
            Mode::Url { repo, home } => root == Root::Home(home),
        }
    }
}

/// The interlock: where the command line says, else where the file says, else
/// in the root.
pub open spec fn interlock_of<P>(cli: Cli<P>, file: FileConfig<P>) -> Interlock<P> {
    if cli.interlock is Some {
        Interlock::Given(cli.interlock->0)
    } else if file.interlock is Some {
        Interlock::BesideConfig(file.interlock->0)
    } else {
        Interlock::InRoot
    }
}

/// The command that syncs a release.
pub open spec fn sync_of<P>(cli: Cli<P>, file: FileConfig<P>, windows: bool) -> Seq<char> {
    match or(cli.sync, file.sync) {
        Some(sync) => sync@,
        None => default_sync(windows, or(cli.git_ref, file.git_ref) is Some),
    }
}

/// Whether a configuration is what the command line over the file over the
/// defaults make of it.
pub open spec fn merged<P>(
    config: Config<P>,
    cli: Cli<P>,
    file: FileConfig<P>,
    mode: Mode<P>,
    around: Surroundings<P>,
) -> bool {
    &&& config.poll == poll_of(cli, file)
    &&& config.hook == or(cli.hook, file.hook)
    &&& config.token == or(cli.token, file.token)
    &&& config.repo@ == repo_of(cli, file, mode, around)
    &&& config.git_ref == or(cli.git_ref, file.git_ref)
    &&& texts(config.share@) == share_of(cli, file)
    &&& config.interlock == interlock_of(cli, file)
    &&& root_fits(config.root, cli, file, mode, around)
    &&& config.sync@ == sync_of(cli, file, around.windows)
    &&& config.keep == keep_of(cli, file)
    &&& config.overrides.shell == shell_of(cli, file)
    &&& config.overrides.env.wf()
    &&& config.overrides.env@ == with_args(file.env@, texts(cli.env@))
    &&& config.overrides.install == or(cli.install, file.install)
    &&& config.overrides.start == or(cli.start, file.start)
    &&& config.overrides.check == or(cli.check, file.check)
}

/// What holds of every configuration that was accepted.
pub open spec fn sound<P>(config: Config<P>) -> bool {
    &&& config.poll is Some || config.hook is Some
    &&& config.poll matches Some(seconds) ==> seconds >= 1
    &&& config.hook is Some ==> config.token is Some
    &&& config.token matches Some(token) ==> strong(token@)
    &&& config.keep >= 1
    &&& config.overrides.shell matches Some(shell) ==> shell.len() > 0
    &&& config.overrides.env.wf()
}

/// Whether a URL as the first argument and `--repo` were both given. This is
/// looked at before anything is written.
pub fn repo_given_twice<P>(cli: &Cli<P>, mode: &Mode<P>) -> (r: bool)
    ensures
        r == (cli.repo is Some && *mode is Url),
{
    cli.repo.is_some() && match mode {
        Mode::Url { repo, home } => true,
        Mode::Local { project } => false,
    }
}

fn place_root<P>(
    cli_root: Option<P>,
    file_root: Option<P>,
    url_home: Option<P>,
    around_home: Option<P>,
    around_home_empty: bool,
    windows: bool,
    project_name: Option<&str>,
    project_path: &[u8],
) -> (r: Result<Root<P>, String>)
    ensures
        match r {
            Ok(root) => if cli_root is Some {
                root == Root::Given(cli_root->0)
            } else if file_root is Some {
                root == Root::BesideConfig(file_root->0)
            } else if url_home is Some {
                root == Root::Home(url_home->0)
            } else {
                &&& around_home is Some && !around_home_empty
                &&& root is State
                &&& Some(root->State_home) == around_home
                &&& root->key@ == key_of(optional(project_name), sha256_of(project_path@)@)
            },
            Err(message) => {
                &&& cli_root is None && file_root is None && url_home is None
                &&& around_home is None || around_home_empty
                &&& message@ == no_home(windows)
            },
        },
{
    match cli_root {
        Some(root) => Ok(Root::Given(root)),
        None => match file_root {
            Some(root) => Ok(Root::BesideConfig(root)),
            None => match url_home {
                Some(home) => Ok(Root::Home(home)),
                None => match state_root(
                    around_home,
                    around_home_empty,
                    windows,
                    project_name,
                    project_path,
                ) {
                    Ok(place) => Ok(Root::State { home: place.0, key: place.1 }),
                    Err(message) => Err(message),
                },
            },
        },
    }
}

impl<P> Config<P> {
    /// Merge the command line over the local file over the defaults, or refuse
    /// with the first reason that there is.
    pub fn load(cli: Cli<P>, file: FileConfig<P>, mode: Mode<P>, around: Surroundings<P>) -> (r:
        Result<Config<P>, String>)
        requires
            file.env.wf(),
        ensures
            match r {
                Ok(config) => {
                    &&& refusal(cli, file, mode, around) is None
                    &&& merged(config, cli, file, mode, around)
                    &&& sound(config)
                },
                Err(message) => refusal(cli, file, mode, around) == Some(message@),
            },
    {
        if repo_given_twice(&cli, &mode) {
            return Err(
                "pass the repository as either the first argument or --repo, not both".to_owned(),
            );
        }
        if file.token.is_some() {
            if let Some(bits) = around.config_permissions {
                if bits & 0o077 != 0 {
                    let mut message: String = around.config_path.clone();
                    message.append(
                        " contains a token and must not be readable by group or other users",
                    );
                    return Err(message);
                }
            }
        }
        let mut poll: Option<u64> = first_of(cli.poll, file.poll);
        let hook: Option<String> = first_of(cli.hook, file.hook);
        if poll.is_none() && hook.is_none() {
            poll = Some(30);
        }
        if let Some(seconds) = poll {
            if seconds == 0 {
                return Err("poll must be at least one second".to_owned());
            }
        }
        let token: Option<String> = first_of(cli.token, file.token);
        if hook.is_some() && token.is_none() {
            return Err(
                "hook mode requires --token, TINYCD_TOKEN, or token in .tinycd/config.toml".to_owned(),
            );
        }
        if let Some(text) = &token {
            if !is_strong(text.as_str()) {
                return Err(
                    "the webhook token must be at least 32 printable non-space ASCII bytes".to_owned(),
                );
            }
        }
        let (url_repo, url_home): (Option<String>, Option<P>) = match mode {
            Mode::Url { repo, home } => (Some(repo), Some(home)),
            Mode::Local { project } => (None, None),
        };
        let project_name: Option<&str> = match &around.project_name {
            Some(name) => Some(name.as_str()),
            None => None,
        };
        let root: Root<P> = match place_root(
            cli.root,
            file.root,
            url_home,
            around.user_home,
            around.user_home_empty,
            around.windows,
            project_name,
            around.project_path.as_slice(),
        ) {
            Ok(root) => root,
            Err(message) => {
                return Err(message);
            },
        };
        let interlock: Interlock<P> = match cli.interlock {
            Some(path) => Interlock::Given(path),
            None => match file.interlock {
                Some(path) => Interlock::BesideConfig(path),
                None => Interlock::InRoot,
            },
        };
        let shell: Option<Vec<String>> = if cli.shell.len() > 0 {
            Some(cli.shell)
        } else {
            file.shell
        };
        if let Some(words) = &shell {
            if words.len() == 0 {
                return Err("shell must name a program".to_owned());
            }
        }
        if let Err(message) = check_env(&file.env) {
            return Err(message);
        }
        let env: EnvTable = match set_args(file.env, &cli.env) {
            Ok(env) => env,
            Err(message) => {
                return Err(message);
            },
        };
        let git_ref: Option<String> = first_of(cli.git_ref, file.git_ref);
        let keep: usize = match first_of(cli.keep, file.keep) {
            Some(keep) => keep,
            None => 5,
        };
        if keep == 0 {
            return Err("keep must be at least one deployment".to_owned());
        }
        let repo: String = match url_repo {
            Some(repo) => repo,
            None => {
                let printed: Option<&str> = match &around.remote_url {
                    Some(url) => Some(url.as_str()),
                    None => None,
                };
                match repo_url(
                    first_of(cli.repo, file.repo),
                    printed,
                    around.project_text.as_str(),
                ) {
                    Ok(url) => url,
                    Err(message) => {
                        return Err(message);
                    },
                }
            },
        };
        let share: Vec<String> = if cli.share.len() > 0 {
            cli.share
        } else {
            match file.share {
                Some(share) => share,
                None => {
                    let none: Vec<String> = Vec::new();
                    assert(texts(none@) =~= Seq::empty());
                    none
                },
            }
        };
        if let Err(message) = check_entries(&share, around.windows) {
            return Err(message);
        }
        let sync: String = match first_of(cli.sync, file.sync) {
            Some(sync) => sync,
            None => sync_default(around.windows, git_ref.is_some()),
        };
        Ok(
            Config {
                poll,
                hook,
                token,
                repo,
                git_ref,
                share,
                interlock,
                root,
                sync,
                keep,
                overrides: Overrides {
                    shell,
                    env,
                    install: first_of(cli.install, file.install),
                    start: first_of(cli.start, file.start),
                    check: first_of(cli.check, file.check),
                },
            },
        )
    }
}

/// Whether an argument sets the variable `name`.
pub open spec fn sets(arg: Seq<char>, name: Seq<char>) -> bool {
    pair_of(arg) matches Some(pair) && pair.0 == name
}

/// A variable that no `--env` argument names keeps what the file gives it.
pub proof fn law_unnamed_variable_is_kept(
    table: Map<Seq<char>, Seq<char>>,
    args: Seq<Seq<char>>,
    name: Seq<char>,
)
    requires
        first_bad_pair(args) is None,
        forall|i: int| 0 <= i < args.len() ==> !sets(#[trigger] args[i], name),
    ensures
        with_args(table, args).contains_key(name) == table.contains_key(name),
        table.contains_key(name) ==> with_args(table, args)[name] == table[name],
    decreases args.len(),
{
    if args.len() > 0 {
        let pair = pair_of(args[0])->0;
        let rest = args.skip(1);
        assert(!sets(args[0], name));
        assert forall|i: int| 0 <= i < rest.len() implies !sets(#[trigger] rest[i], name) by {
            assert(rest[i] == args[i + 1]);
        }
        law_unnamed_variable_is_kept(table.insert(pair.0, pair.1), rest, name);
    }
}

/// A variable that an `--env` argument names has the value of the last argument
/// that names it, whatever the file gives it and whether or not the name is
/// that of a setting.
pub proof fn law_last_env_argument_wins(
    table: Map<Seq<char>, Seq<char>>,
    args: Seq<Seq<char>>,
    last: int,
    name: Seq<char>,
)
    requires
        first_bad_pair(args) is None,
        0 <= last < args.len(),
        sets(args[last], name),
        forall|i: int| last < i < args.len() ==> !sets(#[trigger] args[i], name),
    ensures
        with_args(table, args).contains_key(name),
        with_args(table, args)[name] == (pair_of(args[last])->0).1,
    decreases args.len(),
{
    let pair = pair_of(args[0])->0;
    let rest = args.skip(1);
    if last == 0 {
        assert forall|i: int| 0 <= i < rest.len() implies !sets(#[trigger] rest[i], name) by {
            assert(rest[i] == args[i + 1]);
        }
        law_unnamed_variable_is_kept(table.insert(pair.0, pair.1), rest, name);
    } else {
        assert(rest[last - 1] == args[last]);
        assert forall|i: int| last - 1 < i < rest.len() implies !sets(#[trigger] rest[i], name) by {
            assert(rest[i] == args[i + 1]);
        }
        law_last_env_argument_wins(table.insert(pair.0, pair.1), rest, last - 1, name);
    }
}

/// An accepted file has no setting among the names of its `[env]` table.
pub proof fn law_accepted_table_names_no_setting(
    pairs: Seq<(Seq<char>, Seq<char>)>,
    name: Seq<char>,
)
    requires
        first_setting(pairs) is None,
        table_of(pairs).contains_key(name),
    ensures
        !setting(name),
    decreases pairs.len(),
{
    let i = choose|i: int| 0 <= i < pairs.len() && (#[trigger] pairs[i]).0 == name;
    if i > 0 {
        let rest = pairs.skip(1);
        assert(rest[i - 1] == pairs[i]);
        law_accepted_table_names_no_setting(rest, name);
    }
}

/// Setting only the webhook turns polling off; setting neither polls every
/// thirty seconds; setting both keeps both.
pub proof fn law_modes<P>(cli: Cli<P>, file: FileConfig<P>)
    ensures
        ({
            let hooked = cli.hook is Some || file.hook is Some;
            let polled = cli.poll is Some || file.poll is Some;
            &&& hooked && !polled ==> poll_of(cli, file) is None
            &&& !hooked && !polled ==> poll_of(cli, file) == Some(30u64)
            &&& polled ==> poll_of(cli, file) == or(cli.poll, file.poll)
        }),
{
}

/// A plain run in the folder of a URL deployment resumes it. With the file that
/// the record there gives, which names the URL and a root, a run that deploys
/// the URL and a run that takes the folder for a checkout are accepted or
/// refused alike, and where they are accepted they have the same repository, the
/// same root and the same interlock. Git must know no remote by the name of the
/// URL.
pub proof fn law_plain_run_resumes_the_deployment<P>(
    cli: Cli<P>,
    file: FileConfig<P>,
    repo: String,
    home: P,
    around: Surroundings<P>,
    deployed: Config<P>,
    resumed: Config<P>,
)
    requires
        cli.repo is None,
        text_of(file.repo) == Some(repo@),
        file.root is Some,
        around.remote_url is None,
    ensures
        refusal(cli, file, Mode::Url { repo, home }, around) == refusal(
            cli,
            file,
            Mode::Local { project: home },
            around,
        ),
        merged(deployed, cli, file, Mode::Url { repo, home }, around) && merged(
            resumed,
            cli,
            file,
            Mode::Local { project: home },
            around,
        ) ==> {
            &&& deployed.repo@ == repo@
            &&& resumed.repo@ == repo@
            &&& deployed.root == resumed.root
            &&& deployed.interlock == resumed.interlock
        },
{
}

/// Each setting of the launcher is what the command line gives. Where the
/// command line does not give it, it is what the file gives, and where neither
/// does, it has its default.
pub proof fn law_settings_layer<P>(
    config: Config<P>,
    cli: Cli<P>,
    file: FileConfig<P>,
    mode: Mode<P>,
    around: Surroundings<P>,
)
    requires
        merged(config, cli, file, mode, around),
    ensures
        cli.hook is Some ==> config.hook == cli.hook,
        cli.hook is None ==> config.hook == file.hook,
        cli.token is Some ==> config.token == cli.token,
        cli.token is None ==> config.token == file.token,
        cli.git_ref is Some ==> config.git_ref == cli.git_ref,
        cli.git_ref is None ==> config.git_ref == file.git_ref,
        cli.poll is Some ==> config.poll == cli.poll,
        cli.poll is None && file.poll is Some ==> config.poll == file.poll,
        cli.poll is None && file.poll is None ==> config.poll == if cli.hook is Some || file.hook
            is Some {
            None
        } else {
            Some(30u64)
        },
        cli.keep matches Some(keep) ==> config.keep == keep,
        cli.keep is None && file.keep is Some ==> config.keep == file.keep->0,
        cli.keep is None && file.keep is None ==> config.keep == 5,
        cli.share.len() > 0 ==> texts(config.share@) == texts(cli.share@),
        cli.share.len() == 0 && file.share is Some ==> texts(config.share@) == texts(
            file.share->0@,
        ),
        cli.share.len() == 0 && file.share is None ==> config.share.len() == 0,
        cli.interlock matches Some(path) ==> config.interlock == Interlock::Given(path),
        cli.interlock is None && file.interlock is Some ==> config.interlock
            == Interlock::BesideConfig(file.interlock->0),
        cli.interlock is None && file.interlock is None ==> config.interlock
            == Interlock::<P>::InRoot,
        cli.shell.len() > 0 ==> config.overrides.shell == Some(cli.shell),
        cli.shell.len() == 0 ==> config.overrides.shell == file.shell,
        cli.install is Some ==> config.overrides.install == cli.install,
        cli.install is None ==> config.overrides.install == file.install,
        cli.start is Some ==> config.overrides.start == cli.start,
        cli.start is None ==> config.overrides.start == file.start,
        cli.check is Some ==> config.overrides.check == cli.check,
        cli.check is None ==> config.overrides.check == file.check,
{
    assert(texts(config.share@).len() == config.share@.len());
}

/// The sync command is what the command line gives, or else what the file gives,
/// or else a shallow clone. The clone is of one branch, the reference, exactly
/// when the command line or the file gives a reference.
pub proof fn law_sync_layers<P>(
    config: Config<P>,
    cli: Cli<P>,
    file: FileConfig<P>,
    mode: Mode<P>,
    around: Surroundings<P>,
)
    requires
        merged(config, cli, file, mode, around),
    ensures
        cli.sync matches Some(sync) ==> config.sync@ == sync@,
        cli.sync is None && file.sync is Some ==> config.sync@ == file.sync->0@,
        cli.sync is None && file.sync is None ==> {
            let named = cli.git_ref is Some || file.git_ref is Some;
            &&& holds(config.sync@, "--branch"@) <==> named
            &&& holds(config.sync@, "git clone --depth 1 "@)
            &&& holds(
                config.sync@,
                if around.windows {
                    "\"%TINYCD_REPO%\" ."@
                } else {
                    "\"$TINYCD_REPO\" ."@
                },
            )
            &&& named ==> holds(
                config.sync@,
                if around.windows {
                    "--branch \"%TINYCD_REF%\""@
                } else {
                    "--branch \"$TINYCD_REF\""@
                },
            )
        },
{
    if cli.sync is None && file.sync is None {
        lemma_default_sync(around.windows, cli.git_ref is Some || file.git_ref is Some);
    }
}

proof fn lemma_default_sync(windows: bool, with_ref: bool)
    ensures
        ({
            let sync = default_sync(windows, with_ref);
            &&& holds(sync, "--branch"@) <==> with_ref
            &&& holds(sync, "git clone --depth 1 "@)
            &&& holds(
                sync,
                if windows {
                    "\"%TINYCD_REPO%\" ."@
                } else {
                    "\"$TINYCD_REPO\" ."@
                },
            )
            &&& with_ref ==> holds(
                sync,
                if windows {
                    "--branch \"%TINYCD_REF%\""@
                } else {
                    "--branch \"$TINYCD_REF\""@
                },
            )
        }),
{
    reveal_strlit("--branch");
    reveal_strlit("git clone --depth 1 ");
    let sync = default_sync(windows, with_ref);
    if windows {
        reveal_strlit("\"%TINYCD_REPO%\" .");
        reveal_strlit("--branch \"%TINYCD_REF%\"");
        if with_ref {
            reveal_strlit("git clone --depth 1 --branch \"%TINYCD_REF%\" \"%TINYCD_REPO%\" .");
            lemma_holds_at(sync, "--branch"@, 20);
            lemma_holds_at(sync, "--branch \"%TINYCD_REF%\""@, 20);
            lemma_holds_at(sync, "\"%TINYCD_REPO%\" ."@, 44);
        } else {
            reveal_strlit("git clone --depth 1 \"%TINYCD_REPO%\" .");
            lemma_holds_at(sync, "\"%TINYCD_REPO%\" ."@, 20);
        }
    } else {
        reveal_strlit("\"$TINYCD_REPO\" .");
        reveal_strlit("--branch \"$TINYCD_REF\"");
        if with_ref {
            reveal_strlit("git clone --depth 1 --branch \"$TINYCD_REF\" \"$TINYCD_REPO\" .");
            lemma_holds_at(sync, "--branch"@, 20);
            lemma_holds_at(sync, "--branch \"$TINYCD_REF\""@, 20);
            lemma_holds_at(sync, "\"$TINYCD_REPO\" ."@, 43);
        } else {
            reveal_strlit("git clone --depth 1 \"$TINYCD_REPO\" .");
            lemma_holds_at(sync, "\"$TINYCD_REPO\" ."@, 20);
        }
    }
    lemma_holds_at(sync, "git clone --depth 1 "@, 0);
    if !with_ref {
        assert forall|at: int| !stands_at(sync, "--branch"@, at) by {
            if stands_at(sync, "--branch"@, at) {
                assert(sync.subrange(at, at + 8)[2] == sync[at + 2]);
                assert(sync[at + 2] == 'b');
                lemma_no_b(sync, at + 2);
            }
        }
    }
}

proof fn lemma_no_b(sync: Seq<char>, i: int)
    requires
        sync == "git clone --depth 1 \"%TINYCD_REPO%\" ."@ || sync
            == "git clone --depth 1 \"$TINYCD_REPO\" ."@,
        0 <= i < sync.len(),
    ensures
        sync[i] != 'b',
{
    reveal_strlit("git clone --depth 1 \"%TINYCD_REPO%\" .");
    reveal_strlit("git clone --depth 1 \"$TINYCD_REPO\" .");
}

proof fn lemma_holds_at(s: Seq<char>, part: Seq<char>, at: int)
    requires
        0 <= at,
        at + part.len() <= s.len(),
        forall|i: int| 0 <= i < part.len() ==> s[at + i] == #[trigger] part[i],
    ensures
        holds(s, part),
{
    assert(s.subrange(at, at + part.len()) =~= part);
    assert(stands_at(s, part, at));
}

/// The repository of a URL deployment is the URL. That of a checkout is what Git
/// prints for its remote; where Git knows none, it is what the command line
/// gives, or else what the file gives.
pub proof fn law_repository_layers<P>(
    config: Config<P>,
    cli: Cli<P>,
    file: FileConfig<P>,
    mode: Mode<P>,
    around: Surroundings<P>,
)
    requires
        merged(config, cli, file, mode, around),
    ensures
        mode matches Mode::Url { repo, home } ==> config.repo@ == repo@,
        mode is Local && around.remote_url is Some ==> config.repo@ == trimmed(
            around.remote_url->0@,
        ),
        mode is Local && around.remote_url is None && cli.repo is Some ==> config.repo@
            == cli.repo->0@,
        mode is Local && around.remote_url is None && cli.repo is None && file.repo is Some
            ==> config.repo@ == file.repo->0@,
{
}

/// The root is what the command line gives, or else what the file gives. Where
/// neither gives one, a URL deployment keeps its deployments in its own folder
/// and a checkout keeps them in the home folder of the user, under a key of its
/// own.
pub proof fn law_root_layers<P>(
    config: Config<P>,
    cli: Cli<P>,
    file: FileConfig<P>,
    mode: Mode<P>,
    around: Surroundings<P>,
)
    requires
        merged(config, cli, file, mode, around),
    ensures
        cli.root matches Some(path) ==> config.root == Root::Given(path),
        cli.root is None && file.root is Some ==> config.root == Root::BesideConfig(file.root->0),
        cli.root is None && file.root is None ==> (mode matches Mode::Url { repo, home }
            ==> config.root == Root::Home(home)),
        cli.root is None && file.root is None && mode is Local ==> (config.root matches Root::State {
            home,
            key,
        } && Some(home) == around.user_home && key@ == key_of(
            text_of(around.project_name),
            sha256_of(around.project_path@)@,
        )),
{
}

/// A variable has the value that the last `--env` argument gives it which names
/// it, and where none names it, what the file gives it.
pub proof fn law_environment_layers<P>(
    config: Config<P>,
    cli: Cli<P>,
    file: FileConfig<P>,
    mode: Mode<P>,
    around: Surroundings<P>,
    name: Seq<char>,
    last: int,
)
    requires
        merged(config, cli, file, mode, around),
        refusal(cli, file, mode, around) is None,
        -1 <= last < cli.env.len(),
        last >= 0 ==> sets(texts(cli.env@)[last], name),
        forall|i: int| last < i < cli.env.len() ==> !sets(#[trigger] texts(cli.env@)[i], name),
    ensures
        last >= 0 ==> config.overrides.env@.contains_key(name) && config.overrides.env@[name] == (
        pair_of(texts(cli.env@)[last])->0).1,
        last < 0 ==> config.overrides.env@.contains_key(name) == file.env@.contains_key(name),
        last < 0 && file.env@.contains_key(name) ==> config.overrides.env@[name] == file.env@[name],
{
    let args = texts(cli.env@);
    assert(args.len() == cli.env@.len());
    if last >= 0 {
        law_last_env_argument_wins(file.env@, args, last, name);
    } else {
        law_unnamed_variable_is_kept(file.env@, args, name);
    }
}

/// An `--env` argument looks like `KEY=VALUE` exactly when it has an equals sign
/// that is not its first character, and the first one is where the name ends.
pub proof fn law_env_argument(arg: Seq<char>, key: Seq<char>, value: Seq<char>)
    ensures
        key.len() > 0 && !key.contains('=') ==> pair_of(key + seq!['='] + value) == Some(
            (key, value),
        ),
        pair_of(arg) matches Some(pair) ==> pair.0.len() > 0 && !pair.0.contains('=') && arg
            == pair.0 + seq!['='] + pair.1,
        pair_of(arg) is None <==> !arg.contains('=') || arg[0] == '=',
{
    if !key.contains('=') {
        law_split_undoes_joining(key, '=', value);
    }
    law_split(arg, '=');
    if let Some((before, behind)) = split_at(arg, '=') {
        if before.len() == 0 {
            assert(arg[0] == seq!['='][0]);
        } else {
            assert(arg[0] == before[0]);
            assert(before.contains(before[0]));
        }
    }
}

/// The settings, and no other names, are out of place in `[env]`.
pub proof fn law_settings_are(name: Seq<char>)
    ensures
        setting(name) <==> seq![
            "poll"@,
            "hook"@,
            "token"@,
            "repo"@,
            "ref"@,
            "share"@,
            "interlock"@,
            "root"@,
            "shell"@,
            "env"@,
            "sync"@,
            "install"@,
            "start"@,
            "check"@,
            "keep"@,
        ].contains(name),
{
    let all = seq![
        "poll"@,
        "hook"@,
        "token"@,
        "repo"@,
        "ref"@,
        "share"@,
        "interlock"@,
        "root"@,
        "shell"@,
        "env"@,
        "sync"@,
        "install"@,
        "start"@,
        "check"@,
        "keep"@,
    ];
    assert(all[0] == "poll"@ && all[1] == "hook"@ && all[2] == "token"@ && all[3] == "repo"@);
    assert(all[4] == "ref"@ && all[5] == "share"@ && all[6] == "interlock"@ && all[7] == "root"@);
    assert(all[8] == "shell"@ && all[9] == "env"@ && all[10] == "sync"@ && all[11] == "install"@);
    assert(all[12] == "start"@ && all[13] == "check"@ && all[14] == "keep"@);
}

/// The name that is complained of in `[env]` is the first one that is a setting,
/// and there is one to complain of exactly when one of the names is a setting.
pub proof fn law_first_setting(pairs: Seq<(Seq<char>, Seq<char>)>)
    ensures
        first_setting(pairs) is None <==> forall|i: int|
            0 <= i < pairs.len() ==> !setting((#[trigger] pairs[i]).0),
        first_setting(pairs) matches Some(name) ==> {
            &&& setting(name)
            &&& holds(misplaced(name), name)
            &&& exists|i: int|
                {
                    &&& 0 <= i < pairs.len()
                    &&& (#[trigger] pairs[i]).0 == name
                    &&& forall|j: int| 0 <= j < i ==> !setting((#[trigger] pairs[j]).0)
                }
        },
    decreases pairs.len(),
{
    if pairs.len() > 0 {
        let rest = pairs.skip(1);
        law_first_setting(rest);
        assert forall|i: int| 0 <= i < rest.len() implies #[trigger] rest[i] == pairs[i + 1] by {}
        if setting(pairs[0].0) {
        } else if first_setting(rest) is None {
            assert forall|i: int| 0 <= i < pairs.len() implies !setting((#[trigger] pairs[i]).0) by {
                if i > 0 {
                    assert(rest[i - 1] == pairs[i]);
                }
            }
        } else {
            let name = first_setting(rest)->0;
            let i = choose|i: int|
                {
                    &&& 0 <= i < rest.len()
                    &&& (#[trigger] rest[i]).0 == name
                    &&& forall|j: int| 0 <= j < i ==> !setting((#[trigger] rest[j]).0)
                };
            assert(pairs[i + 1].0 == name);
            assert forall|j: int| 0 <= j < i + 1 implies !setting((#[trigger] pairs[j]).0) by {
                if j > 0 {
                    assert(rest[j - 1] == pairs[j]);
                }
            }
        }
    }
    if let Some(name) = first_setting(pairs) {
        let behind = "', which is a tinycd setting; move it above the [env] table, or pass --env "@
            + name + "=... for a variable really named that"@;
        law_holds("[env] contains '"@, name, behind, misplaced(name));
        assert("[env] contains '"@ + name + behind =~= misplaced(name));
    }
}

/// The `--env` argument that is complained of is the first one that does not look
/// like `KEY=VALUE`, and there is one to complain of exactly when one does not.
pub proof fn law_first_bad_pair(args: Seq<Seq<char>>)
    ensures
        first_bad_pair(args) is None <==> forall|i: int|
            0 <= i < args.len() ==> pair_of(#[trigger] args[i]) is Some,
        first_bad_pair(args) matches Some(arg) ==> {
            &&& pair_of(arg) is None
            &&& holds(bad_pair(arg), arg)
            &&& exists|i: int|
                {
                    &&& 0 <= i < args.len()
                    &&& #[trigger] args[i] == arg
                    &&& forall|j: int| 0 <= j < i ==> pair_of(#[trigger] args[j]) is Some
                }
        },
    decreases args.len(),
{
    if args.len() > 0 {
        let rest = args.skip(1);
        law_first_bad_pair(rest);
        assert forall|i: int| 0 <= i < rest.len() implies #[trigger] rest[i] == args[i + 1] by {}
        if pair_of(args[0]) is None {
        } else if first_bad_pair(rest) is None {
            assert forall|i: int| 0 <= i < args.len() implies pair_of(#[trigger] args[i]) is Some by {
                if i > 0 {
                    assert(rest[i - 1] == args[i]);
                }
            }
        } else {
            let arg = first_bad_pair(rest)->0;
            let i = choose|i: int|
                {
                    &&& 0 <= i < rest.len()
                    &&& #[trigger] rest[i] == arg
                    &&& forall|j: int| 0 <= j < i ==> pair_of(#[trigger] rest[j]) is Some
                };
            assert(args[i + 1] == arg);
            assert forall|j: int| 0 <= j < i + 1 implies pair_of(#[trigger] args[j]) is Some by {
                if j > 0 {
                    assert(rest[j - 1] == args[j]);
                }
            }
        }
    }
    if let Some(arg) = first_bad_pair(args) {
        law_holds("--env "@, arg, " must look like KEY=VALUE"@, bad_pair(arg));
    }
}

/// Permission bits expose a file when one of the last six is set, those of the
/// group and of others, whatever the owner may do.
pub proof fn law_exposed(bits: u32)
    ensures
        !exposed(None),
        exposed(Some(bits)) <==> bits % 64 != 0,
{
    assert((bits & 0o077 != 0) == (bits % 64 != 0)) by (bit_vector);
}

/// What has to hold of a webhook token: at least thirty-two bytes, each of them
/// a printable ASCII character other than the space.
pub open spec fn token_fits(token: Option<String>) -> bool {
    token matches Some(token) ==> {
        let bytes = encode_utf8(token@);
        bytes.len() >= 32 && forall|i: int|
            0 <= i < bytes.len() ==> 0x21 <= #[trigger] bytes[i] <= 0x7e
    }
}

/// A configuration is accepted exactly when the repository is given once, a
/// token in the file is for its owner alone, polling takes at least a second,
/// the webhook has a token, the token is strong, there is a place for the
/// deployments, the shell names a program, no variable of the file is named like
/// a setting, every `--env` argument looks like `KEY=VALUE`, at least one release
/// is kept, there is a repository, and every shared path is plain.
pub proof fn law_what_is_accepted<P>(
    cli: Cli<P>,
    file: FileConfig<P>,
    mode: Mode<P>,
    around: Surroundings<P>,
)
    ensures
        refusal(cli, file, mode, around) is None <==> {
            &&& mode is Url ==> cli.repo is None
            &&& file.token is Some ==> (around.config_permissions matches Some(bits) ==> bits % 64
                == 0)
            &&& if cli.poll is Some {
                cli.poll->0 >= 1
            } else {
                file.poll is Some ==> file.poll->0 >= 1
            }
            &&& cli.hook is Some || file.hook is Some ==> cli.token is Some || file.token is Some
            &&& token_fits(
                if cli.token is Some {
                    cli.token
                } else {
                    file.token
                },
            )
            &&& cli.root is Some || file.root is Some || mode is Url || (around.user_home is Some
                && !around.user_home_empty)
            &&& cli.shell.len() > 0 || (file.shell is Some ==> file.shell->0.len() > 0)
            &&& forall|i: int|
                0 <= i < file.env.pairs().len() ==> !setting((#[trigger] file.env.pairs()[i]).0)
            &&& forall|i: int|
                0 <= i < cli.env.len() ==> pair_of(#[trigger] texts(cli.env@)[i]) is Some
            &&& if cli.keep is Some {
                cli.keep->0 >= 1
            } else {
                file.keep is Some ==> file.keep->0 >= 1
            }
            &&& mode is Url || around.remote_url is Some || cli.repo is Some || file.repo is Some
            &&& if cli.share.len() > 0 {
                forall|i: int|
                    0 <= i < cli.share.len() ==> plain(
                        relative_of(#[trigger] texts(cli.share@)[i]),
                        around.windows,
                    )
            } else {
                file.share is Some ==> forall|i: int|
                    0 <= i < file.share->0.len() ==> plain(
                        relative_of(#[trigger] texts(file.share->0@)[i]),
                        around.windows,
                    )
            }
        },
{
    if let Some(bits) = around.config_permissions {
        law_exposed(bits);
    }
    law_first_setting(file.env.pairs());
    law_first_bad_pair(texts(cli.env@));
    assert(texts(cli.env@).len() == cli.env@.len());
    law_first_bad_entry(share_of(cli, file), around.windows);
    assert(texts(cli.share@).len() == cli.share@.len());
    if file.share is Some {
        assert(texts(file.share->0@).len() == file.share->0@.len());
    }
    let token = or(cli.token, file.token);
    if token is Some {
        assert(strong(token->0@) <==> token_fits(token));
    }
}

/// The key of a tracked checkout is its name, with a dash for each character that
/// is not a letter, a digit, a dot, an underscore or a dash, then a dash, and
/// then the first four bytes of the digest, each as two digits. A folder without
/// a name counts as `project`.
pub proof fn law_state_key(name: Option<Seq<char>>, digest: Seq<u8>)
    requires
        digest.len() == 32,
    ensures
        ({
            let source = if name is Some && name->0.len() > 0 {
                name->0
            } else {
                "project"@
            };
            let key = key_of(name, digest);
            &&& key.len() == source.len() + 9
            &&& key[source.len() as int] == '-'
            &&& forall|i: int|
                0 <= i < source.len() ==> {
                    let c = source[i] as u32;
                    #[trigger] key[i] == if 0x30 <= c <= 0x39 || 0x41 <= c <= 0x5a || 0x61 <= c
                        <= 0x7a || source[i] == '.' || source[i] == '_' || source[i] == '-' {
                        source[i]
                    } else {
                        '-'
                    }
                }
            &&& key.skip((source.len() + 1) as int) == hex_of(seq![digest[0], digest[1], digest[2], digest[3]])
        }),
{
    reveal_strlit("-");
    let source = folder_name(name);
    let key = key_of(name, digest);
    let front = safe_name(source);
    let back = hex_of(digest.take(4));
    assert(digest.take(4) =~= seq![digest[0], digest[1], digest[2], digest[3]]);
    assert(key.skip((source.len() + 1) as int) =~= back);
    assert forall|i: int| 0 <= i < source.len() implies {
        let c = source[i] as u32;
        #[trigger] key[i] == if 0x30 <= c <= 0x39 || 0x41 <= c <= 0x5a || 0x61 <= c <= 0x7a
            || source[i] == '.' || source[i] == '_' || source[i] == '-' {
            source[i]
        } else {
            '-'
        }
    } by {
        assert(key[i] == front[i]);
    }
}

/// A path from the command line is used as it is; one from the file is made
/// absolute, against the folder of the file where it is relative; and a path in
/// the home folder or the root is below it by its names.
pub proof fn law_places<P>(place: Place<P>, path: P, dir: P, names: Seq<Seq<char>>)
    ensures
        as_given(place, path) <==> place.base == path && place.below is None && place.names.len()
            == 0 && !place.made_absolute,
        beside_file(place, path, true, dir) <==> place.base == path && place.below is None
            && place.names.len() == 0 && place.made_absolute,
        beside_file(place, path, false, dir) <==> place.base == dir && place.below == Some(path)
            && place.names.len() == 0 && place.made_absolute,
        names_below(place, path, names) <==> place.base == path && place.below is None && texts(
            place.names@,
        ) == names && !place.made_absolute,
{
}

/// What is said of a failure tells what was being done, where, and what the
/// system says.
pub proof fn law_failure_is_told(doing: Seq<char>, path: Seq<char>, error: Seq<char>)
    ensures
        holds(failure(doing, path, error), doing),
        holds(failure(doing, path, error), path),
        holds(failure(doing, path, error), error),
{
    let whole = failure(doing, path, error);
    let empty = Seq::<char>::empty();
    law_holds("failed to "@, doing, " "@ + path + ": "@ + error, whole);
    assert("failed to "@ + doing + (" "@ + path + ": "@ + error) =~= whole);
    law_holds("failed to "@ + doing + " "@, path, ": "@ + error, whole);
    assert("failed to "@ + doing + " "@ + path + (": "@ + error) =~= whole);
    law_holds("failed to "@ + doing + " "@ + path + ": "@, error, empty, whole);
    assert("failed to "@ + doing + " "@ + path + ": "@ + error + empty =~= whole);
}

/// What is said where there is no home folder names the variable that is looked
/// at on the platform.
pub proof fn law_no_home_names_the_variable(windows: bool)
    ensures
        holds(
            no_home(windows),
            if windows {
                "USERPROFILE"@
            } else {
                "HOME"@
            },
        ),
{
    let behind = " must be set to place deployments; or pass --root"@;
    law_holds(Seq::empty(), home_variable(windows), behind, no_home(windows));
    assert(Seq::<char>::empty() + home_variable(windows) + behind =~= no_home(windows));
}

/// The first thing that is wrong with a configuration is what is said of it, in
/// this order: the repository given twice, a token that others can read, the
/// polling interval, a webhook without a token, a weak token, no place for the
/// deployments, an empty shell, a variable named like a setting, an `--env`
/// argument, the number of releases, no repository, and a shared path.
pub proof fn law_why_it_is_refused<P>(
    cli: Cli<P>,
    file: FileConfig<P>,
    mode: Mode<P>,
    around: Surroundings<P>,
)
    ensures
        ({
            let refused = refusal(cli, file, mode, around);
            let twice = cli.repo is Some && mode is Url;
            let open = file.token is Some && (around.config_permissions matches Some(bits) && bits
                % 64 != 0);
            let idle = cli.poll == Some(0u64) || (cli.poll is None && file.poll == Some(0u64));
            let tokenless = (cli.hook is Some || file.hook is Some) && cli.token is None
                && file.token is None;
            let weak = !token_fits(
                if cli.token is Some {
                    cli.token
                } else {
                    file.token
                },
            );
            let homeless = cli.root is None && file.root is None && mode is Local && (
            around.user_home is None || around.user_home_empty);
            let shell_less = cli.shell.len() == 0 && file.shell is Some && file.shell->0.len() == 0;
            let first = !twice && !open && !idle && !tokenless;
            let second = first && !weak && !homeless && !shell_less;
            &&& twice ==> refused == Some(
                "pass the repository as either the first argument or --repo, not both"@,
            )
            &&& !twice && open ==> refused == Some(
                around.config_path@
                    + " contains a token and must not be readable by group or other users"@,
            )
            &&& !twice && !open && idle ==> refused == Some("poll must be at least one second"@)
            &&& !twice && !open && !idle && tokenless ==> refused == Some(
                "hook mode requires --token, TINYCD_TOKEN, or token in .tinycd/config.toml"@,
            )
            &&& first && weak ==> refused == Some(
                "the webhook token must be at least 32 printable non-space ASCII bytes"@,
            )
            &&& first && !weak && homeless ==> refused == Some(no_home(around.windows))
            &&& first && !weak && !homeless && shell_less ==> refused == Some(
                "shell must name a program"@,
            )
            &&& second ==> {
                let misplaced_name = first_setting(file.env.pairs());
                let bad_arg = first_bad_pair(texts(cli.env@));
                let none_kept = cli.keep == Some(0usize) || (cli.keep is None && file.keep == Some(
                    0usize,
                ));
                let rootless = mode is Local && around.remote_url is None && cli.repo is None
                    && file.repo is None;
                &&& misplaced_name matches Some(name) ==> refused == Some(misplaced(name))
                &&& misplaced_name is None && bad_arg is Some ==> refused == Some(
                    bad_pair(bad_arg->0),
                )
                &&& misplaced_name is None && bad_arg is None && none_kept ==> refused == Some(
                    "keep must be at least one deployment"@,
                )
                &&& misplaced_name is None && bad_arg is None && !none_kept && rootless ==> refused
                    == Some(no_repo(around.project_text@))
                &&& misplaced_name is None && bad_arg is None && !none_kept && !rootless ==> {
                    let shared = if cli.share.len() > 0 {
                        texts(cli.share@)
                    } else if file.share is Some {
                        texts(file.share->0@)
                    } else {
                        Seq::empty()
                    };
                    match first_bad(shared, around.windows) {
                        Some(entry) => refused == Some(bad_entry(entry)),
                        None => refused is None,
                    }
                }
            }
        }),
{
    if let Some(bits) = around.config_permissions {
        law_exposed(bits);
    }
    let token = or(cli.token, file.token);
    if token is Some {
        assert(strong(token->0@) <==> token_fits(token));
    }
}

/// A file that is not required may be missing; any other failure to read it is
/// told, with its path.
pub proof fn law_missing_file(
    read: ReadFile,
    required: bool,
    path: &str,
    source: Result<Option<String>, String>,
)
    requires
        call_ensures(file_source, (read, required, path), source),
    ensures
        read matches ReadFile::Text(text) ==> source == Ok::<Option<String>, String>(Some(text)),
        read is Missing && !required ==> source == Ok::<Option<String>, String>(None),
        source is Err <==> read is Failed || (read is Missing && required),
        source matches Err(message) ==> holds(message@, path@),
{
    if let ReadFile::Missing(error) = read {
        law_failure_is_told("read"@, path@, error@);
    }
    if let ReadFile::Failed(error) = read {
        law_failure_is_told("read"@, path@, error@);
    }
}

/// A tracked checkout needs the home folder of the user, set and not empty, and
/// keeps its deployments there.
pub proof fn law_state_needs_a_home<P>(
    user_home: Option<P>,
    user_home_empty: bool,
    windows: bool,
    project_name: Option<&str>,
    project_path: &[u8],
    state: Result<(P, String), String>,
)
    requires
        call_ensures(
            state_root::<P>,
            (user_home, user_home_empty, windows, project_name, project_path),
            state,
        ),
    ensures
        state is Ok <==> user_home is Some && !user_home_empty,
        state matches Ok(place) ==> user_home == Some(place.0),
{
}

/// The root is where it was given, or beside the file, or below the home folder
/// in `.tinycd`: under the key of the checkout, or for a URL deployment in its
/// own folder.
pub proof fn law_where_the_root_is<P>(root: Root<P>, is_absolute: bool, dir: P, place: Place<P>)
    requires
        call_ensures(locate_root::<P>, (root, is_absolute, dir), place),
    ensures
        root matches Root::Given(path) ==> place.base == path && place.below is None
            && place.names.len() == 0,
        root matches Root::BesideConfig(path) ==> place.names.len() == 0 && (if is_absolute {
            place.base == path && place.below is None
        } else {
            place.base == dir && place.below == Some(path)
        }),
        root matches Root::State { home, key } ==> place.base == home && place.below is None
            && texts(place.names@) == seq![".tinycd"@, key@],
        root matches Root::Home(home) ==> place.base == home && place.below is None && texts(
            place.names@,
        ) == seq![".tinycd"@],
        place.made_absolute <==> root is BesideConfig,
{
}

/// The interlock is where it was given, or beside the file, or in the root.
pub proof fn law_where_the_interlock_is<P>(
    interlock: Interlock<P>,
    is_absolute: bool,
    dir: P,
    root: P,
    place: Place<P>,
)
    requires
        call_ensures(locate_interlock::<P>, (interlock, is_absolute, dir, root), place),
    ensures
        interlock matches Interlock::Given(path) ==> place.base == path && place.below is None
            && place.names.len() == 0,
        interlock matches Interlock::BesideConfig(path) ==> place.names.len() == 0 && (
        if is_absolute {
            place.base == path && place.below is None
        } else {
            place.base == dir && place.below == Some(path)
        }),
        interlock is InRoot ==> place.base == root && place.below is None && texts(place.names@)
            == seq!["interlock"@],
        place.made_absolute <==> interlock is BesideConfig,
{
}

/// A configuration that was accepted polls or listens, polls no more often than
/// once a second, listens with a strong token, keeps at least one release, and
/// has a shell that names a program where it has one.
pub proof fn law_accepted_is_sound<P>(config: Config<P>)
    requires
        sound(config),
    ensures
        config.poll is Some || config.hook is Some,
        config.poll != Some(0u64),
        config.hook is Some ==> config.token is Some,
        token_fits(config.token),
        config.keep > 0,
        config.overrides.shell is Some ==> config.overrides.shell->0.len() > 0,
{
}

} // verus!
