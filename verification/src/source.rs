//! What to deploy: a Git URL or a checkout, and the commit that its remote
//! points at.

use vstd::prelude::*;
use vstd::utf8::encode_utf8;

use crate::text::{
    begins, contains, contains_char, first_of, first_word, first_word_of, holds, law_holds,
    law_split, law_split_undoes_joining, lemma_first_word, lemma_position, lines, lines_of,
    optional, or, position, same, second_word, second_word_of, split_at, split_once, starts_with,
    text_of, texts, trim, trim_start, trimmed, white, word_len,
};
use crate::toml_text::{
    assignment, escaped, forbidden, law_escaped_reads_back, lemma_read_assignment,
    lemma_read_comment, lemma_root_line, printable, read_settings, read_string, toml_escape,
};

verus! {

/// Whether a source names a remote: it has a scheme, or it looks like
/// `host:path` with a host of more than one byte and without a slash.
pub open spec fn git_url(source: Seq<char>) -> bool {
    ||| holds(source, "://"@)
    ||| (split_at(source, ':') matches Some((host, path)) && encode_utf8(host).len() > 1
        && !host.contains('/') && !host.contains('\\'))
}

/// A `scheme://` URL or an scp-like `[user@]host:path`. Windows drive paths
/// such as `C:\app` have a host of a single letter and stay paths.
pub fn looks_like_git_url(source: &str) -> (r: bool)
    ensures
        r == git_url(source@),
{
    if contains(source, "://") {
        return true;
    }
    match split_once(source, ':') {
        Some(parts) => parts.0.as_str().as_bytes().len() > 1 && !contains_char(
            parts.0.as_str(),
            '/',
        ) && !contains_char(parts.0.as_str(), '\\'),
        None => false,
    }
}

/// A path that begins with a drive letter and a colon is no URL, unless it
/// holds `://`.
pub proof fn law_drive_path_is_no_url(letter: char, rest: Seq<char>)
    requires
        65 <= letter as u32 <= 90 || 97 <= letter as u32 <= 122,
        !holds(seq![letter, ':'] + rest, "://"@),
    ensures
        !git_url(seq![letter, ':'] + rest),
{
    let s = seq![letter, ':'] + rest;
    lemma_position(s, ':');
    assert(s[1] == ':');
    assert(s[0] == letter);
    assert(position(s, ':') == 1);
    let host = s.take(1);
    assert(host =~= seq![letter]);
    assert(vstd::utf8::is_ascii_chars(host));
    vstd::utf8::is_ascii_chars_encode_utf8(host);
}

/// What the first arguments ask for.
pub enum Source<D> {
    /// Track a checkout: the one at the path, or the working directory.
    Checkout(Option<String>),
    /// Deploy a Git URL into a directory, or into the working directory.
    Url {
        repo: String,
        home: Option<D>,
    },
}

impl<D> Source<D> {
    /// Tell a Git URL from a checkout. A second path is only accepted behind a
    /// URL; without a source it is not looked at.
    pub fn resolve(source: Option<String>, dir: Option<D>) -> (r: Result<Source<D>, String>)
        ensures
            source is None ==> r == Ok::<Source<D>, String>(Source::Checkout(None)),
            source matches Some(text) ==> {
                &&& git_url(text@) ==> r == Ok::<Source<D>, String>(
                    Source::Url { repo: text, home: dir },
                )
                &&& !git_url(text@) && dir is None ==> r == Ok::<Source<D>, String>(
                    Source::Checkout(Some(text)),
                )
                &&& !git_url(text@) && dir is Some ==> (r matches Err(message) && message@
                    == "a second path is only accepted after a Git URL"@)
            },
    {
        match source {
            None => Ok(Source::Checkout(None)),
            Some(text) => if looks_like_git_url(text.as_str()) {
                Ok(Source::Url { repo: text, home: dir })
            } else if dir.is_some() {
                Err("a second path is only accepted after a Git URL".to_owned())
            } else {
                Ok(Source::Checkout(Some(text)))
            },
        }
    }
}

/// The directory of a checkout: `found` is its absolute path when `path` is an
/// existing directory.
pub fn project_dir<P>(path: &str, found: Option<P>) -> (r: Result<P, String>)
    ensures
        found matches Some(dir) ==> r == Ok::<P, String>(dir),
        found is None ==> (r matches Err(message) && message@ == path@
            + " is neither an existing directory nor a Git URL"@),
{
    match found {
        Some(dir) => Ok(dir),
        None => {
            let mut message: String = path.to_owned();
            message.append(" is neither an existing directory nor a Git URL");
            Err(message)
        },
    }
}

/// The first line of a file that records a deployment begins like this.
pub open spec fn marker() -> Seq<char> {
    "# Written by tinycd"@
}

/// The file that records a deployed repository beside its deployments.
pub open spec fn record_of(repo: Seq<char>) -> Seq<char> {
    marker() + "; running `tinycd` in this directory resumes the deployment.\nrepo = \""@ + escaped(
        repo,
    ) + "\"\nroot = \".\"\n"@
}

/// The contents of the file that records a deployed repository.
pub fn local_config(repo: &str) -> (r: String)
    ensures
        r@ == record_of(repo@),
{
    let mut out: String = "# Written by tinycd".to_owned();
    out.append("; running `tinycd` in this directory resumes the deployment.\nrepo = \"");
    out.append(toml_escape(repo).as_str());
    out.append("\"\nroot = \".\"\n");
    out
}

/// What the record file is to hold: `None` leaves it as it is. A file without
/// the marker was written by the user and stays; one that already says the
/// same needs no writing.
pub fn refresh_local_config(existing: Option<&str>, repo: &str) -> (r: Option<String>)
    ensures
        existing is None ==> r is Some,
        existing matches Some(text) ==> (r is None <==> text@ == record_of(repo@) || !begins(
            text@,
            marker(),
        )),
        r matches Some(contents) ==> contents@ == record_of(repo@),
{
    let contents: String = local_config(repo);
    if let Some(text) = existing {
        if same(text, contents.as_str()) || !starts_with(text, "# Written by tinycd") {
            return None;
        }
    }
    Some(contents)
}

/// A record begins with the marker, so a later run recognises it as its own.
pub proof fn law_record_is_recognised(repo: Seq<char>)
    ensures
        begins(record_of(repo), marker()),
{
    assert(record_of(repo).take(marker().len() as int) =~= marker());
}

/// Reading the repository back from the line of the record that holds it gives
/// the URL that was deployed, as long as there is no control character in it.
pub proof fn law_record_reads_back(repo: Seq<char>)
    requires
        printable(repo),
    ensures
        ({
            let line = marker()
                + "; running `tinycd` in this directory resumes the deployment.\nrepo = \""@;
            &&& begins(record_of(repo), line)
            &&& read_string(record_of(repo).skip(line.len() as int)) == Some(
                (repo, "\nroot = \".\"\n"@),
            )
        }),
{
    let line = marker() + "; running `tinycd` in this directory resumes the deployment.\nrepo = \""@;
    let tail = "\"\nroot = \".\"\n"@;
    let rest = "\nroot = \".\"\n"@;
    reveal_strlit("\"\nroot = \".\"\n");
    reveal_strlit("\nroot = \".\"\n");
    assert(tail =~= seq!['"'] + rest);
    assert(record_of(repo).take(line.len() as int) =~= line);
    assert(record_of(repo).skip(line.len() as int) =~= escaped(repo) + seq!['"'] + rest);
    law_escaped_reads_back(repo, rest);
}

/// The record, read as a whole, gives the URL that was deployed and the root
/// beside the record, and nothing else, as long as there is no control character
/// in the URL.
pub proof fn law_record_gives_repository_and_root(repo: Seq<char>)
    requires
        printable(repo),
    ensures
        read_settings(record_of(repo)) == Some(
            Map::empty().insert("root"@, "."@).insert("repo"@, repo),
        ),
{
    let none = Seq::<char>::empty();
    reveal_strlit("repo");
    reveal_strlit("root");
    lemma_root_line();
    lemma_record_lines(repo);
    lemma_record_comment();
    assert("repo"@[1] != "root"@[1]);
    let root_line = assignment("root"@, "."@) + none;
    lemma_read_comment(record_comment(), assignment("repo"@, repo) + root_line);
    lemma_read_assignment("repo"@, repo, root_line);
    lemma_read_assignment("root"@, "."@, none);
}

spec fn record_comment() -> Seq<char> {
    let first = "; running `tinycd` in this directory resumes the deployment.\nrepo = \""@;
    marker() + first.take(first.len() - 9)
}

proof fn lemma_record_comment()
    ensures
        record_comment().len() > 0,
        record_comment()[0] == '#',
        printable(record_comment()),
{
    let first = "; running `tinycd` in this directory resumes the deployment.\nrepo = \""@;
    reveal_strlit("# Written by tinycd");
    reveal_strlit("; running `tinycd` in this directory resumes the deployment.\nrepo = \"");
    let says = first.take(first.len() - 9);
    let comment = record_comment();
    assert(printable(marker()));
    assert(printable(says));
    assert forall|i: int| 0 <= i < comment.len() implies !forbidden(#[trigger] comment[i]) by {
        if i < marker().len() {
            assert(comment[i] == marker()[i]);
        } else {
            assert(comment[i] == says[i - marker().len()]);
        }
    }
}

proof fn lemma_record_lines(repo: Seq<char>)
    ensures
        record_of(repo) == record_comment().push('\n') + (assignment("repo"@, repo) + (assignment(
            "root"@,
            "."@,
        ) + Seq::<char>::empty())),
{
    let first = "; running `tinycd` in this directory resumes the deployment.\nrepo = \""@;
    let says = first.take(first.len() - 9);
    lemma_root_line();
    assert(first =~= says.push('\n') + ("repo"@ + " = \""@)) by {
        reveal_strlit("; running `tinycd` in this directory resumes the deployment.\nrepo = \"");
        reveal_strlit("repo");
        reveal_strlit(" = \"");
    }
    assert("\"\nroot = \".\"\n"@ =~= "\"\n"@ + "root = \".\"\n"@) by {
        reveal_strlit("\"\nroot = \".\"\n");
        reveal_strlit("\"\n");
        reveal_strlit("root = \".\"\n");
    }
    assert(record_of(repo) =~= record_comment().push('\n') + (assignment("repo"@, repo) + (
    assignment("root"@, "."@) + Seq::<char>::empty())));
}

/// The remote to ask for its URL: the configured one, or `origin`.
pub open spec fn remote_of(configured: Option<Seq<char>>) -> Seq<char> {
    match configured {
        Some(name) => name,
        None => "origin"@,
    }
}

/// The arguments with which Git is asked for the URL of the remote.
pub fn get_url_args(configured: Option<&str>) -> (r: Vec<String>)
    ensures
        texts(r@) == seq!["remote"@, "get-url"@, remote_of(optional(configured))],
{
    let remote: String = match configured {
        Some(name) => name.to_owned(),
        None => "origin".to_owned(),
    };
    let mut args: Vec<String> = Vec::new();
    args.push("remote".to_owned());
    args.push("get-url".to_owned());
    args.push(remote);
    assert(texts(args@) =~= seq!["remote"@, "get-url"@, remote_of(optional(configured))]);
    args
}

/// What is said when no repository can be found.
pub open spec fn no_repo(dir: Seq<char>) -> Seq<char> {
    dir
        + " is not a Git checkout with an origin remote; pass a Git URL or set repo in .tinycd/config.toml"@
}

/// The URL of a remote, from what Git printed for its name if it knows one.
/// Values that are not a known remote are used as they are.
pub fn repo_url(configured: Option<String>, printed: Option<&str>, dir: &str) -> (r: Result<
    String,
    String,
>)
    ensures
        printed matches Some(text) ==> (r matches Ok(url) && url@ == trimmed(text@)),
        printed is None && configured is Some ==> r == Ok::<String, String>(configured->0),
        printed is None && configured is None ==> (r matches Err(message) && message@ == no_repo(
            dir@,
        )),
{
    match printed {
        Some(text) => Ok(trim(text)),
        None => match configured {
            Some(url) => Ok(url),
            None => {
                let mut message: String = dir.to_owned();
                message.append(
                    " is not a Git checkout with an origin remote; pass a Git URL or set repo in .tinycd/config.toml",
                );
                Err(message)
            },
        },
    }
}

/// The ref to look up on the remote: the configured one, or `HEAD`.
pub open spec fn target_of(git_ref: Option<Seq<char>>) -> Seq<char> {
    match git_ref {
        Some(name) => name,
        None => "HEAD"@,
    }
}

/// The arguments with which Git looks the ref up.
pub fn ls_remote_args(repo: &str, git_ref: Option<&str>) -> (r: Vec<String>)
    ensures
        texts(r@) == seq![
            "ls-remote"@,
            repo@,
            target_of(optional(git_ref)),
        ],
{
    let target: String = match git_ref {
        Some(name) => name.to_owned(),
        None => "HEAD".to_owned(),
    };
    let mut args: Vec<String> = Vec::new();
    args.push("ls-remote".to_owned());
    args.push(repo.to_owned());
    args.push(target);
    assert(texts(args@) =~= seq![
        "ls-remote"@,
        repo@,
        target_of(optional(git_ref)),
    ]);
    args
}

/// What a finished `git ls-remote` left behind.
pub struct LsRemote {
    /// Whether it succeeded.
    pub success: bool,
    /// Its exit status as text.
    pub status: String,
    /// What it printed.
    pub stdout: String,
    /// What it complained about.
    pub stderr: String,
}

/// The first word of the first line whose second word is `name`.
pub open spec fn commit_on(lines: Seq<Seq<char>>, name: Seq<char>) -> Option<Seq<char>>
    decreases lines.len(),
{
    if lines.len() == 0 {
        None
    } else if second_word_of(lines[0]) == Some(name) {
        first_word_of(lines[0])
    } else {
        commit_on(lines.skip(1), name)
    }
}

/// The commit that a ref has in a listing: the ref of that very name, or the
/// branch, or the tag, or the one below `refs/`, whichever comes first in this
/// order. Git also lists refs that merely end like the name; they do not count.
pub open spec fn commit_among(lines: Seq<Seq<char>>, target: Seq<char>) -> Option<Seq<char>> {
    or(
        commit_on(lines, target),
        or(
            commit_on(lines, "refs/heads/"@ + target),
            or(
                commit_on(lines, "refs/tags/"@ + target),
                commit_on(lines, "refs/"@ + target),
            ),
        ),
    )
}

/// The commit that a ref has in what `git ls-remote` printed.
pub open spec fn commit_of(stdout: Seq<char>, target: Seq<char>) -> Option<Seq<char>> {
    commit_among(lines_of(stdout), target)
}

fn find_commit(listed: &Vec<String>, prefix: &str, target: &str) -> (r: Option<String>)
    ensures
        text_of(r) == commit_on(texts(listed@), prefix@ + target@),
{
    let mut name: String = prefix.to_owned();
    name.append(target);
    let ghost all = texts(listed@);
    let mut i: usize = 0;
    assert(all.skip(0) == all);
    while i < listed.len()
        invariant
            i <= listed.len(),
            all == texts(listed@),
            name@ == prefix@ + target@,
            commit_on(all, name@) == commit_on(all.skip(i as int), name@),
        decreases listed.len() - i,
    {
        assert(all.skip(i as int)[0] == listed@[i as int]@);
        assert(all.skip(i as int).skip(1) == all.skip(i + 1));
        if let Some(word) = second_word(listed[i].as_str()) {
            if same(word.as_str(), name.as_str()) {
                return first_word(listed[i].as_str());
            }
        }
        i = i + 1;
    }
    None
}

/// The commit that the ref points at on the remote.
pub fn remote_head(output: &LsRemote, repo: &str, git_ref: Option<&str>) -> (r: Result<
    String,
    String,
>)
    ensures
        match r {
            Ok(head) => output.success && commit_of(
                output.stdout@,
                target_of(optional(git_ref)),
            ) == Some(head@),
            Err(message) => if output.success {
                &&& commit_of(output.stdout@, target_of(optional(git_ref))) is None
                &&& message@ == repo@ + " has no ref "@ + target_of(optional(git_ref))
            } else {
                message@ == "git ls-remote exited with "@ + output.status@ + ": "@ + trimmed(
                    output.stderr@,
                )
            },
        },
{
    if !output.success {
        let mut message: String = "git ls-remote exited with ".to_owned();
        message.append(output.status.as_str());
        message.append(": ");
        message.append(trim(output.stderr.as_str()).as_str());
        return Err(message);
    }
    let target: &str = match git_ref {
        Some(name) => name,
        None => "HEAD",
    };
    let listed: Vec<String> = lines(output.stdout.as_str());
    proof {
        reveal_strlit("");
        assert(""@ + target@ =~= target@);
    }
    let exact: Option<String> = find_commit(&listed, "", target);
    let branch: Option<String> = find_commit(&listed, "refs/heads/", target);
    let tag: Option<String> = find_commit(&listed, "refs/tags/", target);
    let below: Option<String> = find_commit(&listed, "refs/", target);
    match first_of(exact, first_of(branch, first_of(tag, below))) {
        Some(head) => Ok(head),
        None => {
            let mut message: String = repo.to_owned();
            message.append(" has no ref ");
            message.append(target);
            Err(message)
        },
    }
}

/// Whether a full name is one by which a ref is looked for.
pub open spec fn names_ref(name: Seq<char>, target: Seq<char>) -> bool {
    name == target || name == "refs/"@ + target || name == "refs/heads/"@ + target || name
        == "refs/tags/"@ + target
}

/// A ref of another name, such as `feature/production` beside `production`,
/// changes nothing about the commit that is found, wherever it is listed.
pub proof fn law_other_refs_do_not_matter(
    above: Seq<Seq<char>>,
    other: Seq<char>,
    below: Seq<Seq<char>>,
    target: Seq<char>,
)
    requires
        second_word_of(other) matches Some(name) ==> !names_ref(name, target),
    ensures
        commit_among(above.push(other) + below, target) == commit_among(above + below, target),
{
    lemma_other_line(above, other, below, target);
    lemma_other_line(above, other, below, "refs/"@ + target);
    lemma_other_line(above, other, below, "refs/heads/"@ + target);
    lemma_other_line(above, other, below, "refs/tags/"@ + target);
}

proof fn lemma_other_line(
    above: Seq<Seq<char>>,
    other: Seq<char>,
    below: Seq<Seq<char>>,
    name: Seq<char>,
)
    requires
        second_word_of(other) != Some(name),
    ensures
        commit_on(above.push(other) + below, name) == commit_on(above + below, name),
    decreases above.len(),
{
    let with = above.push(other) + below;
    let without = above + below;
    if above.len() == 0 {
        assert(with[0] == other);
        assert(with.skip(1) =~= without);
    } else {
        let rest = above.skip(1);
        assert(with[0] == above[0] && without[0] == above[0]);
        assert(with.skip(1) =~= rest.push(other) + below);
        assert(without.skip(1) =~= rest + below);
        lemma_other_line(rest, other, below, name);
    }
}

/// A commit that was found is a word: not empty, and without white space.
pub proof fn lemma_commit_is_a_word(stdout: Seq<char>, target: Seq<char>)
    ensures
        commit_of(stdout, target) matches Some(commit) ==> commit.len() > 0 && forall|i: int|
            0 <= i < commit.len() ==> !white(#[trigger] commit[i]),
{
    let all = lines_of(stdout);
    lemma_commit_on_is_a_word(all, target);
    lemma_commit_on_is_a_word(all, "refs/"@ + target);
    lemma_commit_on_is_a_word(all, "refs/heads/"@ + target);
    lemma_commit_on_is_a_word(all, "refs/tags/"@ + target);
}

proof fn lemma_commit_on_is_a_word(lines: Seq<Seq<char>>, name: Seq<char>)
    ensures
        commit_on(lines, name) matches Some(commit) ==> commit.len() > 0 && forall|i: int|
            0 <= i < commit.len() ==> !white(#[trigger] commit[i]),
    decreases lines.len(),
{
    if lines.len() > 0 {
        lemma_first_word(lines[0]);
        lemma_commit_on_is_a_word(lines.skip(1), name);
    }
}

/// A text with a scheme is a URL, and so is one with a colon behind a host of more
/// than one byte in which no separator stands. Nothing else is.
pub proof fn law_what_is_a_url(host: Seq<char>, path: Seq<char>, other: Seq<char>)
    ensures
        git_url(host + "://"@ + path),
        !host.contains(':') && !host.contains('/') && !host.contains('\\') && encode_utf8(
            host,
        ).len() > 1 ==> git_url(host + seq![':'] + path),
        !holds(other, "://"@) && !other.contains(':') ==> !git_url(other),
        !host.contains(':') && (host.contains('/') || host.contains('\\') || encode_utf8(
            host,
        ).len() <= 1) && !holds(host + seq![':'] + path, "://"@) ==> !git_url(
            host + seq![':'] + path,
        ),
{
    law_holds(host, "://"@, path, other);
    if !host.contains(':') {
        law_split_undoes_joining(host, ':', path);
    }
    law_split(other, ':');
}

/// A source is deployed as a URL exactly when it is one, and a second path is
/// refused exactly when the source is a path.
pub proof fn law_what_is_resolved(
    source: Option<String>,
    dir: Option<String>,
    resolved: Result<Source<String>, String>,
)
    requires
        call_ensures(Source::<String>::resolve, (source, dir), resolved),
    ensures
        resolved is Err <==> source is Some && !git_url(source->0@) && dir is Some,
        resolved matches Ok(found) ==> (found is Url <==> source is Some && git_url(source->0@)),
        resolved matches Ok(Source::Url { repo, home }) ==> source == Some(repo) && home == dir,
        resolved matches Ok(Source::Checkout(path)) ==> path == source,
{
}

/// A file that records a deployment is written where there is none, and written
/// anew where an earlier run wrote it and it says something else. A file of the
/// user's own is left as it is.
pub proof fn law_record_is_refreshed(existing: Option<&str>, repo: &str, written: Option<String>)
    requires
        call_ensures(refresh_local_config, (existing, repo), written),
    ensures
        existing is None ==> written is Some,
        existing matches Some(text) ==> (!begins(text@, "# Written by tinycd"@) ==> written
            is None),
        existing matches Some(text) ==> (text@ == record_of(repo@) ==> written is None),
        existing matches Some(text) ==> (begins(text@, "# Written by tinycd"@) && text@
            != record_of(repo@) ==> written is Some),
        written matches Some(text) ==> text@ == record_of(repo@),
{
}

/// The commit of a name is the first word of the first line whose second word is
/// the name, and there is none exactly when no line has it as its second word.
pub proof fn law_commit_on(lines: Seq<Seq<char>>, name: Seq<char>)
    ensures
        commit_on(lines, name) is None <==> forall|i: int|
            0 <= i < lines.len() ==> second_word_of(#[trigger] lines[i]) != Some(name),
        commit_on(lines, name) is Some ==> exists|i: int|
            {
                &&& 0 <= i < lines.len()
                &&& second_word_of(#[trigger] lines[i]) == Some(name)
                &&& commit_on(lines, name) == first_word_of(lines[i])
                &&& forall|j: int|
                    0 <= j < i ==> second_word_of(#[trigger] lines[j]) != Some(name)
            },
    decreases lines.len(),
{
    if lines.len() > 0 {
        let rest = lines.skip(1);
        law_commit_on(rest, name);
        assert forall|i: int| 0 <= i < rest.len() implies #[trigger] rest[i] == lines[i + 1] by {}
        if second_word_of(lines[0]) == Some(name) {
            lemma_second_word_follows_a_first(lines[0]);
        } else if commit_on(rest, name) is None {
            assert forall|i: int| 0 <= i < lines.len() implies second_word_of(#[trigger] lines[i])
                != Some(name) by {
                if i > 0 {
                    assert(rest[i - 1] == lines[i]);
                }
            }
        } else {
            let i = choose|i: int|
                {
                    &&& 0 <= i < rest.len()
                    &&& second_word_of(#[trigger] rest[i]) == Some(name)
                    &&& commit_on(rest, name) == first_word_of(rest[i])
                    &&& forall|j: int|
                        0 <= j < i ==> second_word_of(#[trigger] rest[j]) != Some(name)
                };
            assert(lines[i + 1] == rest[i]);
            assert forall|j: int| 0 <= j < i + 1 implies second_word_of(#[trigger] lines[j])
                != Some(name) by {
                if j > 0 {
                    assert(rest[j - 1] == lines[j]);
                }
            }
        }
    }
}

proof fn lemma_second_word_follows_a_first(line: Seq<char>)
    ensures
        second_word_of(line) is Some ==> first_word_of(line) is Some,
{
    let t = trim_start(line);
    if t.len() == 0 {
        assert(t.skip(word_len(t)).len() == 0);
        assert(t.skip(word_len(t)) =~= Seq::<char>::empty());
    }
}

/// A ref is looked up by its very name first, then as a branch, then as a tag,
/// then below `refs/`. The first of these that is listed counts.
pub proof fn law_lookup_order(lines: Seq<Seq<char>>, target: Seq<char>)
    ensures
        ({
            let exact = commit_on(lines, target);
            let branch = commit_on(lines, "refs/heads/"@ + target);
            let tag = commit_on(lines, "refs/tags/"@ + target);
            let below = commit_on(lines, "refs/"@ + target);
            let found = commit_among(lines, target);
            &&& exact is Some ==> found == exact
            &&& exact is None && branch is Some ==> found == branch
            &&& exact is None && branch is None && tag is Some ==> found == tag
            &&& exact is None && branch is None && tag is None ==> found == below
        }),
{
}

/// Without a configured ref the remote's `HEAD` is looked up, and without a
/// configured remote `origin` is asked for its URL; otherwise what is configured.
pub proof fn law_defaults_of_the_remote(name: Seq<char>)
    ensures
        target_of(None) == "HEAD"@,
        target_of(Some(name)) == name,
        remote_of(None) == "origin"@,
        remote_of(Some(name)) == name,
{
}

/// The remote's commit is told exactly when Git succeeded and lists the ref. A
/// failure tells what Git says, and a ref that is not there is named.
pub proof fn law_remote_head(
    output: &LsRemote,
    repo: &str,
    git_ref: Option<&str>,
    head: Result<String, String>,
)
    requires
        call_ensures(remote_head, (output, repo, git_ref), head),
    ensures
        ({
            let target = match git_ref {
                Some(name) => name@,
                None => "HEAD"@,
            };
            let found = commit_of(output.stdout@, target);
            &&& head is Ok <==> output.success && found is Some
            &&& head matches Ok(commit) ==> found == Some(commit@)
            &&& head is Err && output.success ==> holds(head->Err_0@, repo@) && holds(
                head->Err_0@,
                target,
            )
            &&& !output.success ==> holds(head->Err_0@, output.status@) && holds(
                head->Err_0@,
                trimmed(output.stderr@),
            )
        }),
{
    let target = target_of(optional(git_ref));
    let none = Seq::<char>::empty();
    let missing = repo@ + " has no ref "@ + target;
    law_holds(none, repo@, " has no ref "@ + target, missing);
    assert(none + repo@ + (" has no ref "@ + target) =~= missing);
    law_holds(repo@ + " has no ref "@, target, none, missing);
    assert(repo@ + " has no ref "@ + target + none =~= missing);
    let front = "git ls-remote exited with "@;
    let says = trimmed(output.stderr@);
    let failed = front + output.status@ + ": "@ + says;
    law_holds(front, output.status@, ": "@ + says, failed);
    assert(front + output.status@ + (": "@ + says) =~= failed);
    law_holds(front + output.status@ + ": "@, says, none, failed);
    assert(front + output.status@ + ": "@ + says + none =~= failed);
}

/// The URL that Git prints for a remote counts before what is configured, and
/// without either there is none.
pub proof fn law_repo_url(
    configured: Option<String>,
    printed: Option<&str>,
    dir: &str,
    url: Result<String, String>,
)
    requires
        call_ensures(repo_url, (configured, printed, dir), url),
    ensures
        url is Err <==> printed is None && configured is None,
        printed matches Some(text) ==> url->Ok_0@ == trimmed(text@),
        printed is None && configured is Some ==> url->Ok_0@ == configured->0@,
        url matches Err(message) ==> begins(message@, dir@),
{
    if url is Err {
        assert(no_repo(dir@).take(dir@.len() as int) =~= dir@);
    }
}

} // verus!
