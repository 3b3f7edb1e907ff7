//! Paths that every release shares: which entries are accepted, and how one is
//! linked into a release.

use vstd::prelude::*;

use crate::text::{chars_of, quoted, debug_of, string_of, texts};

verus! {

/// The separators that an entry may end with.
pub open spec fn slash(c: char) -> bool {
    c == '/' || c == '\\'
}

/// An entry without the separators at its end.
pub open spec fn relative_of(entry: Seq<char>) -> Seq<char>
    decreases entry.len(),
{
    if entry.len() > 0 && slash(entry.last()) {
        relative_of(entry.drop_last())
    } else {
        entry
    }
}

proof fn lemma_relative_at(s: Seq<char>, i: int)
    requires
        0 <= i <= s.len(),
        forall|j: int| i <= j < s.len() ==> slash(s[j]),
        i > 0 ==> !slash(s[i - 1]),
    ensures
        relative_of(s) == s.take(i),
    decreases s.len() - i,
{
    if i == s.len() {
        assert(s.take(i) == s);
    } else {
        assert(slash(s[s.len() - 1]));
        lemma_relative_at(s.drop_last(), i);
        assert(s.drop_last().take(i) == s.take(i));
    }
}

/// The path that an entry names below the shared folder and below a release.
pub fn relative(entry: &str) -> (r: String)
    ensures
        r@ == relative_of(entry@),
{
    let chars: Vec<char> = chars_of(entry);
    let mut to: usize = chars.len();
    while to > 0 && (chars[to - 1] == '/' || chars[to - 1] == '\\')
        invariant
            to <= chars.len(),
            forall|j: int| to <= j < chars.len() ==> slash(chars@[j]),
        decreases to,
    {
        to = to - 1;
    }
    proof {
        lemma_relative_at(entry@, to as int);
        assert(entry@.take(to as int) == entry@.subrange(0, to as int));
    }
    string_of(&chars, 0, to)
}

/// The characters that separate the components of a path.
pub open spec fn separates(c: char, windows: bool) -> bool {
    c == '/' || (windows && c == '\\')
}

/// Where the component ends that begins at `from`.
pub open spec fn component_end(s: Seq<char>, from: int, windows: bool) -> int
    decreases s.len() - from,
{
    if from >= s.len() || separates(s[from], windows) {
        from
    } else {
        component_end(s, from + 1, windows)
    }
}

/// Whether a component begins at `at`.
pub open spec fn component_start(s: Seq<char>, at: int, windows: bool) -> bool {
    0 <= at < s.len() && (at == 0 || separates(s[at - 1], windows))
}

/// The component that begins at `at`.
pub open spec fn component(s: Seq<char>, at: int, windows: bool) -> Seq<char> {
    s.subrange(at, component_end(s, at, windows))
}

/// Whether a path begins with a drive, such as `C:`.
pub open spec fn has_drive(s: Seq<char>) -> bool {
    &&& s.len() >= 2
    &&& s[1] == ':'
    &&& (65 <= s[0] as u32 <= 90 || 97 <= s[0] as u32 <= 122)
}

/// Whether a path is made of plain names alone: it is not empty, has no root
/// and no drive, does not begin with `.`, and nowhere climbs with `..`.
pub open spec fn plain(s: Seq<char>, windows: bool) -> bool {
    &&& s.len() > 0
    &&& !separates(s[0], windows)
    &&& !(windows && has_drive(s))
    &&& component(s, 0, windows) != "."@
    &&& forall|at: int| #[trigger]
        component_start(s, at, windows) ==> component(s, at, windows) != ".."@
}

fn end_of(chars: &Vec<char>, from: usize, windows: bool) -> (r: usize)
    requires
        from <= chars.len(),
    ensures
        r == component_end(chars@, from as int, windows),
        from <= r <= chars.len(),
{
    let mut i: usize = from;
    while i < chars.len() && !(chars[i] == '/' || (windows && chars[i] == '\\'))
        invariant
            from <= i <= chars.len(),
            component_end(chars@, from as int, windows) == component_end(chars@, i as int, windows),
        decreases chars.len() - i,
    {
        i = i + 1;
    }
    i
}

fn is_dots(chars: &Vec<char>, from: usize, to: usize) -> (r: (bool, bool))
    requires
        from <= to <= chars.len(),
    ensures
        r.0 == (chars@.subrange(from as int, to as int) == "."@),
        r.1 == (chars@.subrange(from as int, to as int) == ".."@),
{
    let ghost s = chars@.subrange(from as int, to as int);
    proof {
        reveal_strlit(".");
        reveal_strlit("..");
    }
    let one: bool = to - from == 1 && chars[from] == '.';
    let two: bool = to - from == 2 && chars[from] == '.' && chars[from + 1] == '.';
    proof {
        if one {
            assert(s =~= "."@);
        }
        if two {
            assert(s =~= ".."@);
        }
        assert(s.len() == 1 ==> s[0] == chars@[from as int]);
        assert(s.len() == 2 ==> s[0] == chars@[from as int] && s[1] == chars@[from + 1]);
        assert(s =~= "."@ ==> s.len() == 1 && s[0] == "."@[0]);
        assert(s =~= ".."@ ==> s.len() == 2 && s[0] == ".."@[0] && s[1] == ".."@[1]);
    }
    (one, two)
}

/// Whether a path is made of plain names alone.
pub fn is_plain(path: &str, windows: bool) -> (r: bool)
    ensures
        r == plain(path@, windows),
{
    let chars: Vec<char> = chars_of(path);
    if chars.len() == 0 {
        return false;
    }
    if chars[0] == '/' || (windows && chars[0] == '\\') {
        return false;
    }
    if windows && chars.len() >= 2 && chars[1] == ':' {
        let u: u32 = chars[0] as u32;
        if (65 <= u && u <= 90) || (97 <= u && u <= 122) {
            return false;
        }
    }
    let first_end: usize = end_of(&chars, 0, windows);
    if is_dots(&chars, 0, first_end).0 {
        return false;
    }
    let mut at: usize = 0;
    while at < chars.len()
        invariant
            chars@ == path@,
            at <= chars.len(),
            forall|k: int|
                0 <= k < at && #[trigger] component_start(path@, k, windows) ==> component(
                    path@,
                    k,
                    windows,
                ) != ".."@,
        decreases chars.len() - at,
    {
        if at == 0 || chars[at - 1] == '/' || (windows && chars[at - 1] == '\\') {
            let end: usize = end_of(&chars, at, windows);
            if is_dots(&chars, at, end).1 {
                assert(component_start(path@, at as int, windows));
                return false;
            }
        }
        at = at + 1;
    }
    true
}

/// The first entry that is not a relative path of plain names.
pub open spec fn first_bad(entries: Seq<Seq<char>>, windows: bool) -> Option<Seq<char>>
    decreases entries.len(),
{
    if entries.len() == 0 {
        None
    } else if !plain(relative_of(entries[0]), windows) {
        Some(entries[0])
    } else {
        first_bad(entries.skip(1), windows)
    }
}

/// What is said of an entry that is not accepted.
pub open spec fn bad_entry(entry: Seq<char>) -> Seq<char> {
    "share entry "@ + debug_of(entry) + " must be a relative path"@
}

/// Accept the entries, or complain about the first that is not a relative
/// path.
pub fn check_entries(entries: &Vec<String>, windows: bool) -> (r: Result<(), String>)
    ensures
        r is Ok <==> first_bad(texts(entries@), windows) is None,
        r matches Err(message) ==> message@ == bad_entry(first_bad(texts(entries@), windows)->0),
{
    let ghost all = texts(entries@);
    let mut i: usize = 0;
    assert(all.skip(0) == all);
    while i < entries.len()
        invariant
            i <= entries.len(),
            all == texts(entries@),
            first_bad(all, windows) == first_bad(all.skip(i as int), windows),
        decreases entries.len() - i,
    {
        let path: String = relative(entries[i].as_str());
        assert(all.skip(i as int)[0] == entries@[i as int]@);
        if !is_plain(path.as_str(), windows) {
            let mut message: String = "share entry ".to_owned();
            message.append(quoted(entries[i].as_str()).as_str());
            message.append(" must be a relative path");
            return Err(message);
        }
        assert(all.skip(i as int).skip(1) == all.skip(i + 1));
        i = i + 1;
    }
    Ok(())
}

/// Once the entries are accepted, each of them names a path of plain names.
pub proof fn law_accepted_entries_are_plain(entries: Seq<Seq<char>>, windows: bool, i: int)
    requires
        first_bad(entries, windows) is None,
        0 <= i < entries.len(),
    ensures
        plain(relative_of(entries[i]), windows),
    decreases entries.len(),
{
    if i > 0 {
        law_accepted_entries_are_plain(entries.skip(1), windows, i - 1);
        assert(entries.skip(1)[i - 1] == entries[i]);
    }
}

/// What stands at the place where the link is to go.
#[derive(Clone, Copy, Debug, PartialEq, Eq, Structural)]
pub enum Target {
    Missing,
    Directory,
    Other,
}

/// One step of linking an entry into a release.
#[derive(Clone, Copy, Debug, PartialEq, Eq, Structural)]
pub enum LinkStep {
    /// Create the shared source as a directory, with its parents.
    CreateSourceDir,
    /// Create the parents of the shared source.
    CreateSourceParent,
    /// Create the shared source as an empty file.
    CreateSourceFile,
    /// Remove the directory that the sync produced at the target.
    RemoveTargetDir,
    /// Remove what else the sync produced at the target.
    RemoveTargetFile,
    /// Create the parents of the target.
    CreateTargetParent,
    /// Link the target to the source.
    Link,
}

/// Whether an entry asks for a directory: it ends with a separator.
pub open spec fn asks_for_directory(entry: Seq<char>) -> bool {
    entry.len() > 0 && slash(entry.last())
}

/// The steps that create a missing source: as a directory when the entry asks
/// for one, else as an empty file.
pub open spec fn source_steps(entry: Seq<char>, source_exists: bool) -> Seq<LinkStep> {
    if source_exists {
        seq![]
    } else if asks_for_directory(entry) {
        seq![LinkStep::CreateSourceDir]
    } else {
        seq![LinkStep::CreateSourceParent, LinkStep::CreateSourceFile]
    }
}

/// The steps that clear the target.
pub open spec fn target_steps(target: Target) -> Seq<LinkStep> {
    match target {
        Target::Missing => seq![],
        Target::Directory => seq![LinkStep::RemoveTargetDir],
        Target::Other => seq![LinkStep::RemoveTargetFile],
    }
}

/// The steps that link one entry into a release, in their order.
pub fn link_steps(entry: &str, source_exists: bool, target: Target) -> (r: Vec<LinkStep>)
    ensures
        r@ == source_steps(entry@, source_exists) + target_steps(target) + seq![
            LinkStep::CreateTargetParent,
            LinkStep::Link,
        ],
{
    let chars: Vec<char> = chars_of(entry);
    let n: usize = chars.len();
    let mut steps: Vec<LinkStep> = Vec::new();
    if !source_exists {
        if n > 0 && (chars[n - 1] == '/' || chars[n - 1] == '\\') {
            steps.push(LinkStep::CreateSourceDir);
        } else {
            steps.push(LinkStep::CreateSourceParent);
            steps.push(LinkStep::CreateSourceFile);
        }
    }
    assert(steps@ =~= source_steps(entry@, source_exists));
    match target {
        Target::Missing => {},
        Target::Directory => {
            steps.push(LinkStep::RemoveTargetDir);
        },
        Target::Other => {
            steps.push(LinkStep::RemoveTargetFile);
        },
    }
    assert(steps@ =~= source_steps(entry@, source_exists) + target_steps(target));
    steps.push(LinkStep::CreateTargetParent);
    steps.push(LinkStep::Link);
    steps
}

/// A source that exists is never created anew or removed, so what a release
/// has written there stays.
pub proof fn law_existing_source_is_kept(entry: Seq<char>, target: Target)
    ensures
        ({
            let steps = source_steps(entry, true) + target_steps(target) + seq![
                LinkStep::CreateTargetParent,
                LinkStep::Link,
            ];
            forall|i: int|
                0 <= i < steps.len() ==> {
                    &&& #[trigger] steps[i] != LinkStep::CreateSourceDir
                    &&& steps[i] != LinkStep::CreateSourceParent
                    &&& steps[i] != LinkStep::CreateSourceFile
                }
        }),
{
}

/// An entry names the path that is left when every slash and every backslash at
/// its end is taken away.
pub proof fn law_relative(entry: Seq<char>)
    ensures
        ({
            let path = relative_of(entry);
            &&& path.len() <= entry.len()
            &&& entry.take(path.len() as int) == path
            &&& forall|i: int|
                path.len() <= i < entry.len() ==> #[trigger] entry[i] == '/' || entry[i] == '\\'
            &&& path.len() > 0 ==> path.last() != '/' && path.last() != '\\'
        }),
    decreases entry.len(),
{
    if entry.len() > 0 && slash(entry.last()) {
        let rest = entry.drop_last();
        law_relative(rest);
        let path = relative_of(entry);
        assert(rest.take(path.len() as int) =~= entry.take(path.len() as int));
        assert forall|i: int| path.len() <= i < entry.len() implies #[trigger] entry[i] == '/'
            || entry[i] == '\\' by {
            if i < rest.len() {
                assert(rest[i] == entry[i]);
            }
        }
    } else {
        assert(entry.take(entry.len() as int) =~= entry);
    }
}

proof fn lemma_dot(s: Seq<char>, at: int, windows: bool)
    requires
        0 <= at < s.len(),
    ensures
        component(s, at, windows) == "."@ <==> {
            &&& s[at] == '.'
            &&& at + 1 == s.len() || separates(s[at + 1], windows)
        },
        component(s, at, windows) == ".."@ <==> {
            &&& s[at] == '.'
            &&& at + 1 < s.len() && s[at + 1] == '.'
            &&& at + 2 == s.len() || separates(s[at + 2], windows)
        },
{
    reveal_strlit(".");
    reveal_strlit("..");
    let end = component_end(s, at, windows);
    let part = component(s, at, windows);
    lemma_component_end(s, at, windows);
    assert(part.len() == end - at);
    if !separates(s[at], windows) {
        assert(end == component_end(s, at + 1, windows));
        lemma_component_end(s, at + 1, windows);
        assert(part[0] == s[at]);
        if at + 1 == s.len() || separates(s[at + 1], windows) {
            assert(end == at + 1);
            assert(s[at] == '.' ==> part =~= "."@);
        } else {
            assert(end == component_end(s, at + 2, windows));
            lemma_component_end(s, at + 2, windows);
            assert(part[1] == s[at + 1]);
            if at + 2 == s.len() || separates(s[at + 2], windows) {
                assert(end == at + 2);
                assert(s[at] == '.' && s[at + 1] == '.' ==> part =~= ".."@);
            } else {
                assert(end == component_end(s, at + 3, windows));
                lemma_component_end(s, at + 3, windows);
            }
        }
    }
}

proof fn lemma_component_end(s: Seq<char>, from: int, windows: bool)
    requires
        0 <= from <= s.len(),
    ensures
        from <= component_end(s, from, windows) <= s.len(),
    decreases s.len() - from,
{
    if from < s.len() && !separates(s[from], windows) {
        lemma_component_end(s, from + 1, windows);
    }
}

/// A path is plain exactly when it is not empty, does not begin with a separator
/// or, on Windows, with a drive, its first name is not a single dot, and none of
/// its names is a pair of dots. A slash separates names, and on Windows a
/// backslash does too.
pub proof fn law_plain(s: Seq<char>, windows: bool)
    ensures
        plain(s, windows) <==> {
            &&& s.len() > 0
            &&& s[0] != '/' && !(windows && s[0] == '\\')
            &&& !(windows && s.len() > 1 && s[1] == ':' && (0x41 <= s[0] as u32 <= 0x5a || 0x61
                <= s[0] as u32 <= 0x7a))
            &&& !(s[0] == '.' && (s.len() == 1 || s[1] == '/' || (windows && s[1] == '\\')))
            &&& forall|i: int|
                0 <= i < s.len() && (i == 0 || s[i - 1] == '/' || (windows && s[i - 1] == '\\'))
                    && i + 1 < s.len() && #[trigger] s[i] == '.' && s[i + 1] == '.' ==> i + 2
                    < s.len() && s[i + 2] != '/' && !(windows && s[i + 2] == '\\')
        },
{
    if s.len() > 0 {
        lemma_dot(s, 0, windows);
    }
    assert forall|at: int| #[trigger] component_start(s, at, windows) implies (component(
        s,
        at,
        windows,
    ) == ".."@ <==> s[at] == '.' && at + 1 < s.len() && s[at + 1] == '.' && (at + 2 == s.len()
        || separates(s[at + 2], windows))) by {
        lemma_dot(s, at, windows);
    }
    if plain(s, windows) {
        assert forall|i: int|
            0 <= i < s.len() && (i == 0 || s[i - 1] == '/' || (windows && s[i - 1] == '\\')) && i
                + 1 < s.len() && #[trigger] s[i] == '.' && s[i + 1] == '.' implies i + 2 < s.len()
            && s[i + 2] != '/' && !(windows && s[i + 2] == '\\') by {
            assert(component_start(s, i, windows));
        }
    } else if s.len() > 0 && !separates(s[0], windows) && !(windows && has_drive(s)) && component(
        s,
        0,
        windows,
    ) != "."@ {
        let at = choose|at: int| #[trigger]
            component_start(s, at, windows) && component(s, at, windows) == ".."@;
        assert(s[at] == '.' && s[at + 1] == '.');
    }
}

/// The entry that is complained of is the first one that does not name a plain
/// path, and there is one to complain of exactly when one does not.
pub proof fn law_first_bad_entry(entries: Seq<Seq<char>>, windows: bool)
    ensures
        first_bad(entries, windows) is None <==> forall|i: int|
            0 <= i < entries.len() ==> plain(relative_of(#[trigger] entries[i]), windows),
        first_bad(entries, windows) matches Some(entry) ==> exists|i: int|
            {
                &&& 0 <= i < entries.len()
                &&& #[trigger] entries[i] == entry
                &&& !plain(relative_of(entry), windows)
                &&& forall|j: int|
                    0 <= j < i ==> plain(relative_of(#[trigger] entries[j]), windows)
            },
    decreases entries.len(),
{
    if entries.len() > 0 {
        let rest = entries.skip(1);
        law_first_bad_entry(rest, windows);
        assert forall|i: int| 0 <= i < rest.len() implies #[trigger] rest[i] == entries[i + 1] by {}
        if !plain(relative_of(entries[0]), windows) {
        } else if first_bad(rest, windows) is None {
            assert forall|i: int| 0 <= i < entries.len() implies plain(
                relative_of(#[trigger] entries[i]),
                windows,
            ) by {
                if i > 0 {
                    assert(rest[i - 1] == entries[i]);
                }
            }
        } else {
            let entry = first_bad(rest, windows)->0;
            let i = choose|i: int|
                {
                    &&& 0 <= i < rest.len()
                    &&& #[trigger] rest[i] == entry
                    &&& !plain(relative_of(entry), windows)
                    &&& forall|j: int|
                        0 <= j < i ==> plain(relative_of(#[trigger] rest[j]), windows)
                };
            assert(entries[i + 1] == entry);
            assert forall|j: int| 0 <= j < i + 1 implies plain(
                relative_of(#[trigger] entries[j]),
                windows,
            ) by {
                if j > 0 {
                    assert(rest[j - 1] == entries[j]);
                }
            }
        }
    }
}

/// A missing source is created, as a directory where the entry ends with a slash
/// or a backslash and as a file below its parents where it does not; what stands
/// in the way of the link is removed as what it is; and the last step makes the
/// link, in parents that are there.
pub proof fn law_link_steps(entry: Seq<char>, source_exists: bool, target: Target)
    ensures
        ({
            let steps = source_steps(entry, source_exists) + target_steps(target) + seq![
                LinkStep::CreateTargetParent,
                LinkStep::Link,
            ];
            let directory = entry.len() > 0 && (entry.last() == '/' || entry.last() == '\\');
            &&& steps.last() == LinkStep::Link
            &&& steps[steps.len() - 2] == LinkStep::CreateTargetParent
            &&& steps.contains(LinkStep::CreateSourceDir) <==> !source_exists && directory
            &&& steps.contains(LinkStep::CreateSourceFile) <==> !source_exists && !directory
            &&& !source_exists && !directory ==> steps[0] == LinkStep::CreateSourceParent
                && steps[1] == LinkStep::CreateSourceFile
            &&& steps.contains(LinkStep::RemoveTargetDir) <==> target == Target::Directory
            &&& steps.contains(LinkStep::RemoveTargetFile) <==> target == Target::Other
        }),
{
    let first = source_steps(entry, source_exists);
    let second = target_steps(target);
    let steps = first + second + seq![LinkStep::CreateTargetParent, LinkStep::Link];
    let n = first.len() as int;
    if first.len() > 0 {
        assert(steps[0] == first[0]);
        if first.len() > 1 {
            assert(steps[1] == first[1]);
        }
    }
    if second.len() > 0 {
        assert(steps[n] == second[0]);
    }
}

} // verus!
