//! The names below the root: releases, markers, logs, and the link to the
//! current release.

use vstd::prelude::*;

use crate::share::{has_drive, separates};
use crate::source::{commit_of, lemma_commit_is_a_word};
use crate::text::{
    blank, chars_of, law_trimmed, lemma_trim_between, one_word, optional, text_of, trim, trimmed,
    white,
};

verus! {

/// Whether a path is only the name of a drive, such as `C:`.
pub open spec fn bare_drive(path: Seq<char>) -> bool {
    path.len() == 2 && has_drive(path)
}

/// A path with a name below it. A separator stands between them, unless the
/// path ends with one, is empty, or is only the name of a drive.
pub open spec fn joined(path: Seq<char>, name: Seq<char>, windows: bool) -> Seq<char> {
    if path.len() == 0 || separates(path.last(), windows) || (windows && bare_drive(path)) {
        path + name
    } else if windows {
        path + "\\"@ + name
    } else {
        path + "/"@ + name
    }
}

/// A path with a name below it.
pub fn join(path: &str, name: &str, windows: bool) -> (r: String)
    ensures
        r@ == joined(path@, name@, windows),
{
    let chars: Vec<char> = chars_of(path);
    let n: usize = chars.len();
    let mut out: String = path.to_owned();
    let mut ends: bool = n == 0 || chars[n - 1] == '/' || (windows && chars[n - 1] == '\\');
    if windows && n == 2 && chars[1] == ':' {
        let u: u32 = chars[0] as u32;
        if (65 <= u && u <= 90) || (97 <= u && u <= 122) {
            ends = true;
        }
    }
    if !ends {
        if windows {
            out.append("\\");
        } else {
            out.append("/");
        }
    }
    out.append(name);
    out
}

/// The log of a release, in which the output of its commands lands.
pub open spec fn log_of(root: Seq<char>, id: Seq<char>, windows: bool) -> Seq<char> {
    joined(joined(root, "logs"@, windows), id + ".log"@, windows)
}

/// The name of the log of a release.
pub fn log_name(id: &str) -> (r: String)
    ensures
        r@ == id@ + ".log"@,
{
    let mut name: String = id.to_owned();
    name.append(".log");
    name
}

/// The log of a release, in which the output of its commands lands.
pub fn release_log(root: &str, id: &str, windows: bool) -> (r: String)
    ensures
        r@ == log_of(root@, id@, windows),
{
    let logs: String = join(root, "logs", windows);
    join(logs.as_str(), log_name(id).as_str(), windows)
}

/// The folder of a release.
pub open spec fn release_of(root: Seq<char>, id: Seq<char>, windows: bool) -> Seq<char> {
    joined(joined(root, "deployments"@, windows), id, windows)
}

/// The folder of a release. It carries its final name from the beginning.
pub fn release_dir(root: &str, id: &str, windows: bool) -> (r: String)
    ensures
        r@ == release_of(root@, id@, windows),
{
    let deployments: String = join(root, "deployments", windows);
    join(deployments.as_str(), id, windows)
}

/// The name of the file that marks a release as not complete.
pub open spec fn marker_of(id: Seq<char>) -> Seq<char> {
    ".incomplete-"@ + id
}

/// The name of the file that marks a release as not complete.
pub fn marker_name(id: &str) -> (r: String)
    ensures
        r@ == marker_of(id@),
{
    let mut name: String = ".incomplete-".to_owned();
    name.append(id);
    name
}

/// The name under which the link to a release is prepared.
pub fn staging_name(id: &str) -> (r: String)
    ensures
        r@ == ".current-"@ + id@,
{
    let mut name: String = ".current-".to_owned();
    name.append(id);
    name
}

/// What the current link points at, seen from the root.
pub fn link_target(id: &str) -> (r: String)
    ensures
        r@ == "deployments/"@ + id@,
{
    let mut path: String = "deployments/".to_owned();
    path.append(id);
    path
}

/// The name of the folder in which a dry run takes place.
pub fn scratch_name(id: &str) -> (r: String)
    ensures
        r@ == ".dry-run-"@ + id@,
{
    let mut name: String = ".dry-run-".to_owned();
    name.append(id);
    name
}

/// What the file `head` holds for a commit.
pub open spec fn record_of_head(commit: Seq<char>) -> Seq<char> {
    commit + "\n"@
}

/// What is written into the file `head` for a commit.
pub fn head_record(commit: &str) -> (r: String)
    ensures
        r@ == record_of_head(commit@),
{
    let mut record: String = commit.to_owned();
    record.append("\n");
    record
}

/// The commit that the file `head` records, if it can be read and is not
/// blank.
pub open spec fn head_in(contents: Option<Seq<char>>) -> Option<Seq<char>> {
    match contents {
        Some(contents) => if trimmed(contents).len() > 0 {
            Some(trimmed(contents))
        } else {
            None
        },
        None => None,
    }
}

/// The commit that the file `head` records, if it can be read and is not
/// blank.
pub fn recorded_head(contents: Option<&str>) -> (r: Option<String>)
    ensures
        text_of(r) == head_in(optional(contents)),
{
    match contents {
        Some(contents) => {
            let commit: String = trim(contents);
            if commit.as_str().is_empty() {
                None
            } else {
                Some(commit)
            }
        },
        None => None,
    }
}

/// The commit that was read from the remote and recorded is the commit that is
/// read back.
pub proof fn law_recorded_head_reads_back(
    output: Seq<char>,
    target: Seq<char>,
    commit: Seq<char>,
)
    requires
        commit_of(output, target) == Some(commit),
    ensures
        head_in(Some(record_of_head(commit))) == Some(commit),
{
    reveal_strlit("\n");
    lemma_commit_is_a_word(output, target);
    let record = record_of_head(commit);
    assert("\n"@ =~= seq!['\n']);
    assert(record == commit.push('\n'));
    lemma_trim_between(record, 0, commit.len() as int);
    assert(record.subrange(0, commit.len() as int) =~= commit);
}

/// A path with a name below it is the path, then at most one separator, then the
/// name. There is none where the path is empty, ends with a separator or is only
/// the name of a drive; and only on Windows a backslash separates and a drive
/// counts.
pub proof fn law_joined(path: Seq<char>, name: Seq<char>, windows: bool)
    ensures
        ({
            let whole = joined(path, name, windows);
            let ended = {
                ||| path.len() == 0
                ||| path.last() == '/'
                ||| windows && path.last() == '\\'
                ||| windows && path.len() == 2 && path[1] == ':' && (0x41 <= path[0] as u32 <= 0x5a
                    || 0x61 <= path[0] as u32 <= 0x7a)
            };
            &&& ended ==> whole == path + name
            &&& !ended && windows ==> whole == path.push('\\') + name
            &&& !ended && !windows ==> whole == path.push('/') + name
        }),
{
    reveal_strlit("\\");
    reveal_strlit("/");
    assert("\\"@ =~= seq!['\\']);
    assert("/"@ =~= seq!['/']);
    assert(path + "\\"@ =~= path.push('\\'));
    assert(path + "/"@ =~= path.push('/'));
}

/// The log of a release lies in the folder `logs` of the root, and the release
/// itself in the folder `deployments`.
pub proof fn law_folders_of_the_root(root: Seq<char>, id: Seq<char>)
    requires
        root.len() > 0,
        root.last() != '/',
    ensures
        log_of(root, id, false) == root + "/logs/"@ + id + ".log"@,
        release_of(root, id, false) == root + "/deployments/"@ + id,
{
    reveal_strlit("logs");
    reveal_strlit("/logs/");
    reveal_strlit("deployments");
    reveal_strlit("/deployments/");
    let logs = root.push('/') + "logs"@;
    let deployments = root.push('/') + "deployments"@;
    law_joined(root, "logs"@, false);
    law_joined(root, "deployments"@, false);
    assert(logs.last() == 's');
    assert(deployments.last() == 's');
    law_joined(logs, id + ".log"@, false);
    law_joined(deployments, id, false);
    assert(logs.push('/') =~= root + "/logs/"@);
    assert(deployments.push('/') =~= root + "/deployments/"@);
    assert(log_of(root, id, false) =~= root + "/logs/"@ + id + ".log"@);
}

/// The file `head` records the text in it without the white space around it, and
/// nothing where there is no other text.
pub proof fn law_head_in(gap: Seq<char>, commit: Seq<char>, rest: Seq<char>)
    requires
        blank(gap),
        blank(rest),
        one_word(commit),
    ensures
        head_in(None) is None,
        head_in(Some(gap)) is None,
        head_in(Some(gap + commit + rest)) == Some(commit),
{
    let s = gap + commit + rest;
    let from = gap.len() as int;
    let to = from + commit.len();
    assert(s[from] == commit[0]);
    assert(s[to - 1] == commit[commit.len() - 1]);
    assert forall|j: int| 0 <= j < from implies white(s[j]) by {
        assert(s[j] == gap[j]);
    }
    assert forall|j: int| to <= j < s.len() implies white(s[j]) by {
        assert(s[j] == rest[j - to]);
    }
    lemma_trim_between(s, from, to);
    assert(s.subrange(from, to) =~= commit);
    law_trimmed(gap);
    let (a, b) = choose|a: int, b: int|
        {
            &&& 0 <= a <= b <= gap.len()
            &&& trimmed(gap) == #[trigger] gap.subrange(a, b)
            &&& forall|j: int| 0 <= j < a ==> white(gap[j])
            &&& forall|j: int| b <= j < gap.len() ==> white(gap[j])
            &&& a < b ==> !white(gap[a]) && !white(gap[b - 1])
        };
    if a < b {
        assert(white(gap[a]));
    }
}

/// What is put beside the releases while something is going on has a name that
/// begins with a dot, so it is never taken for a release; and different releases
/// have different names for it.
pub proof fn law_own_names_are_hidden(
    id: &str,
    marker: String,
    staging: String,
    scratch: String,
)
    requires
        call_ensures(marker_name, (id,), marker),
        call_ensures(staging_name, (id,), staging),
        call_ensures(scratch_name, (id,), scratch),
    ensures
        marker@.len() > 0 && marker@[0] == '.',
        staging@.len() > 0 && staging@[0] == '.',
        scratch@.len() > 0 && scratch@[0] == '.',
        marker@.skip(12) == id@,
        staging@.skip(9) == id@,
        scratch@.skip(9) == id@,
{
    reveal_strlit(".incomplete-");
    reveal_strlit(".current-");
    reveal_strlit(".dry-run-");
    assert(marker@.skip(12) =~= id@);
    assert(staging@.skip(9) =~= id@);
    assert(scratch@.skip(9) =~= id@);
}

/// The link to the current release leads, from the root, to the folder of the
/// release.
pub proof fn law_link_leads_to_the_release(root: Seq<char>, id: &str, target: String)
    requires
        root.len() > 0,
        root.last() != '/',
        call_ensures(link_target, (id,), target),
    ensures
        joined(root, target@, false) == release_of(root, id@, false),
{
    reveal_strlit("deployments/");
    reveal_strlit("/deployments/");
    law_folders_of_the_root(root, id@);
    law_joined(root, target@, false);
    assert(root.push('/') + target@ =~= root + "/deployments/"@ + id@);
}

/// On Windows the folders of the root are separated by backslashes.
pub proof fn law_folders_of_the_root_on_windows(root: Seq<char>, id: Seq<char>)
    requires
        root.len() > 2,
        root.last() != '/',
        root.last() != '\\',
    ensures
        log_of(root, id, true) == root + "\\logs\\"@ + id + ".log"@,
        release_of(root, id, true) == root + "\\deployments\\"@ + id,
{
    reveal_strlit("logs");
    reveal_strlit("\\logs\\");
    reveal_strlit("deployments");
    reveal_strlit("\\deployments\\");
    let logs = root.push('\\') + "logs"@;
    let deployments = root.push('\\') + "deployments"@;
    law_joined(root, "logs"@, true);
    law_joined(root, "deployments"@, true);
    assert(logs.last() == 's');
    assert(deployments.last() == 's');
    law_joined(logs, id + ".log"@, true);
    law_joined(deployments, id, true);
    assert(logs.push('\\') =~= root + "\\logs\\"@);
    assert(deployments.push('\\') =~= root + "\\deployments\\"@);
    assert(log_of(root, id, true) =~= root + "\\logs\\"@ + id + ".log"@);
}

} // verus!
