//! The releases that are retained: which are pruned after a deployment, and
//! which one a rollback goes to.

use vstd::prelude::*;

use crate::layout::{marker_name, marker_of};
use crate::numbers::{decimal_of, digit};
use crate::order::{
    before, in_order, is_before, law_in_order, lemma_before_irreflexive, lemma_in_order_contains,
    ordered, sort,
};
use crate::text::{
    begins, chars_of, holds, join_texts, joined_texts, law_holds, lemma_texts_push, optional, same,
    starts_with, texts,
};

verus! {

/// What a folder holds under a name.
pub struct Entry {
    pub name: String,
    pub directory: bool,
}

/// The names of entries, each with whether it is a directory.
pub open spec fn listing(entries: Seq<Entry>) -> Seq<(Seq<char>, bool)> {
    entries.map_values(|e: Entry| (e.name@, e.directory))
}

/// Something to remove.
pub enum Removal {
    /// A folder, with all that it holds.
    Folder(String),
    /// A marker file.
    Marker(String),
}

/// Something to remove, with its name as characters.
pub enum Removed {
    Folder(Seq<char>),
    Marker(Seq<char>),
}

impl View for Removal {
    type V = Removed;

    open spec fn view(&self) -> Removed {
        match self {
            Removal::Folder(name) => Removed::Folder(name@),
            Removal::Marker(name) => Removed::Marker(name@),
        }
    }
}

/// The views of a sequence of removals.
pub open spec fn removals(list: Seq<Removal>) -> Seq<Removed> {
    list.map_values(|r: Removal| r@)
}

/// Whether a name begins with a dot.
pub open spec fn hidden(name: Seq<char>) -> bool {
    name.len() > 0 && name[0] == '.'
}

/// Whether a name begins with a dot.
pub fn is_hidden(name: &str) -> (r: bool)
    ensures
        r == hidden(name@),
{
    let chars: Vec<char> = chars_of(name);
    chars.len() > 0 && chars[0] == '.'
}

/// What is removed without looking further: hidden folders and markers.
pub open spec fn swept(entries: Seq<(Seq<char>, bool)>, live: Seq<char>) -> Seq<Removed>
    decreases entries.len(),
{
    if entries.len() == 0 {
        Seq::empty()
    } else {
        let front = swept(entries.drop_last(), live);
        let (name, directory) = entries.last();
        if name == live {
            front
        } else if directory && hidden(name) {
            front.push(Removed::Folder(name))
        } else if !directory && begins(name, ".incomplete-"@) {
            front.push(Removed::Marker(name))
        } else {
            front
        }
    }
}

/// The folders of releases other than the live one.
pub open spec fn folders(entries: Seq<(Seq<char>, bool)>, live: Seq<char>) -> Seq<Seq<char>>
    decreases entries.len(),
{
    if entries.len() == 0 {
        Seq::empty()
    } else {
        let front = folders(entries.drop_last(), live);
        let (name, directory) = entries.last();
        if directory && name != live && !hidden(name) {
            front.push(name)
        } else {
            front
        }
    }
}

/// Whether a file marks the release as not complete.
pub open spec fn marked(entries: Seq<(Seq<char>, bool)>, live: Seq<char>, id: Seq<char>) -> bool {
    exists|i: int|
        0 <= i < entries.len() && !(#[trigger] entries[i]).1 && entries[i].0 == marker_of(id)
            && entries[i].0 != live
}

/// Those of the names that are marked, or those that are not.
pub open spec fn picked(
    names: Seq<Seq<char>>,
    entries: Seq<(Seq<char>, bool)>,
    live: Seq<char>,
    wanted: bool,
) -> Seq<Seq<char>>
    decreases names.len(),
{
    if names.len() == 0 {
        Seq::empty()
    } else {
        let front = picked(names.drop_last(), entries, live, wanted);
        if marked(entries, live, names.last()) == wanted {
            front.push(names.last())
        } else {
            front
        }
    }
}

/// The releases that were interrupted.
pub open spec fn interrupted(entries: Seq<(Seq<char>, bool)>, live: Seq<char>) -> Seq<Seq<char>> {
    picked(folders(entries, live), entries, live, true)
}

/// The complete releases besides the live one, oldest first.
pub open spec fn complete(entries: Seq<(Seq<char>, bool)>, live: Seq<char>) -> Seq<Seq<char>> {
    in_order(picked(folders(entries, live), entries, live, false))
}

/// How many of `count` are more than may be kept.
pub open spec fn surplus(count: int, kept: int) -> int {
    if count > kept {
        count - kept
    } else {
        0
    }
}

/// The removal of folders.
pub open spec fn of_folders(names: Seq<Seq<char>>) -> Seq<Removed> {
    names.map_values(|name: Seq<char>| Removed::Folder(name))
}

/// What is removed after a deployment, in this order: hidden folders and
/// markers, interrupted releases, and the oldest complete releases beyond the
/// number that is kept, in which the live one counts.
pub open spec fn pruned(entries: Seq<(Seq<char>, bool)>, live: Seq<char>, keep: int) -> Seq<
    Removed,
> {
    let old = complete(entries, live);
    swept(entries, live) + of_folders(interrupted(entries, live)) + of_folders(
        old.take(surplus(old.len() as int, keep - 1)),
    )
}

fn is_marked(entries: &Vec<Entry>, live: &str, id: &str) -> (r: bool)
    ensures
        r == marked(listing(entries@), live@, id@),
{
    let marker: String = marker_name(id);
    let ghost all = listing(entries@);
    let mut i: usize = 0;
    while i < entries.len()
        invariant
            all == listing(entries@),
            marker@ == marker_of(id@),
            i <= entries.len(),
            forall|k: int|
                0 <= k < i ==> (#[trigger] all[k]).1 || all[k].0 != marker_of(id@) || all[k].0
                    == live@,
        decreases entries.len() - i,
    {
        assert(all[i as int] == (entries@[i as int].name@, entries@[i as int].directory));
        if !entries[i].directory && same(entries[i].name.as_str(), marker.as_str()) && !same(
            entries[i].name.as_str(),
            live,
        ) {
            return true;
        }
        i = i + 1;
    }
    false
}

fn pick(names: &Vec<String>, entries: &Vec<Entry>, live: &str, wanted: bool) -> (r: Vec<String>)
    ensures
        texts(r@) == picked(texts(names@), listing(entries@), live@, wanted),
{
    broadcast use lemma_texts_push;

    let ghost all = texts(names@);
    let mut out: Vec<String> = Vec::new();
    let mut i: usize = 0;
    assert(texts(out@) =~= picked(all.take(0), listing(entries@), live@, wanted));
    while i < names.len()
        invariant
            all == texts(names@),
            i <= names.len(),
            texts(out@) == picked(all.take(i as int), listing(entries@), live@, wanted),
        decreases names.len() - i,
    {
        assert(all.take(i + 1).drop_last() == all.take(i as int));
        assert(all.take(i + 1).last() == names@[i as int]@);
        if is_marked(entries, live, names[i].as_str()) == wanted {
            out.push(names[i].clone());
        }
        i = i + 1;
    }
    assert(all.take(i as int) == all);
    out
}

fn add_folders(plan: &mut Vec<Removal>, names: &Vec<String>, count: usize)
    requires
        count <= names.len(),
    ensures
        removals(final(plan)@) == removals(old(plan)@) + of_folders(
            texts(names@).take(count as int),
        ),
{
    let ghost start = removals(plan@);
    let ghost all = texts(names@);
    let mut i: usize = 0;
    assert(removals(plan@) =~= start + of_folders(all.take(0)));
    while i < count
        invariant
            count <= names.len(),
            all == texts(names@),
            i <= count,
            removals(plan@) == start + of_folders(all.take(i as int)),
        decreases count - i,
    {
        let ghost front = plan@;
        plan.push(Removal::Folder(names[i].clone()));
        assert(removals(plan@) =~= removals(front).push(Removed::Folder(all[i as int])));
        assert(of_folders(all.take(i + 1)) =~= of_folders(all.take(i as int)).push(
            Removed::Folder(all[i as int]),
        ));
        i = i + 1;
    }
}

/// What to remove once a release is live: leftovers of interrupted deployments,
/// and the oldest releases beyond the number that is kept.
pub fn prune(entries: &Vec<Entry>, live: &str, keep: usize) -> (r: Vec<Removal>)
    requires
        keep >= 1,
    ensures
        removals(r@) == pruned(listing(entries@), live@, keep as int),
{
    broadcast use lemma_texts_push;

    let ghost all = listing(entries@);
    let mut plan: Vec<Removal> = Vec::new();
    let mut names: Vec<String> = Vec::new();
    let mut i: usize = 0;
    assert(removals(plan@) =~= swept(all.take(0), live@));
    assert(texts(names@) =~= folders(all.take(0), live@));
    while i < entries.len()
        invariant
            all == listing(entries@),
            i <= entries.len(),
            removals(plan@) == swept(all.take(i as int), live@),
            texts(names@) == folders(all.take(i as int), live@),
        decreases entries.len() - i,
    {
        let ghost front = plan@;
        assert(all.take(i + 1).drop_last() == all.take(i as int));
        assert(all.take(i + 1).last() == (entries@[i as int].name@, entries@[i as int].directory));
        let name: &str = entries[i].name.as_str();
        if !same(name, live) {
            let dotted: bool = is_hidden(name);
            if entries[i].directory {
                if dotted {
                    plan.push(Removal::Folder(name.to_owned()));
                    assert(removals(plan@) =~= removals(front).push(Removed::Folder(name@)));
                } else {
                    names.push(name.to_owned());
                }
            } else if starts_with(name, ".incomplete-") {
                plan.push(Removal::Marker(name.to_owned()));
                assert(removals(plan@) =~= removals(front).push(Removed::Marker(name@)));
            }
        }
        i = i + 1;
    }
    assert(all.take(i as int) == all);

    let broken: Vec<String> = pick(&names, entries, live, true);
    assert(texts(broken@).len() == broken.len());
    assert(texts(broken@).take(broken.len() as int) == texts(broken@));
    add_folders(&mut plan, &broken, broken.len());

    let old: Vec<String> = sort(pick(&names, entries, live, false));
    assert(texts(old@).len() == old.len());
    let count: usize = if old.len() > keep - 1 {
        old.len() - (keep - 1)
    } else {
        0
    };
    add_folders(&mut plan, &old, count);
    plan
}

proof fn lemma_folders(entries: Seq<(Seq<char>, bool)>, live: Seq<char>, name: Seq<char>)
    ensures
        folders(entries, live).contains(name) <==> name != live && !hidden(name)
            && entries.contains((name, true)),
    decreases entries.len(),
{
    if entries.len() > 0 {
        let rest = entries.drop_last();
        lemma_folders(rest, live, name);
        let front = folders(rest, live);
        let all = folders(entries, live);
        assert(entries =~= rest.push(entries.last()));
        if entries.contains((name, true)) {
            let k = choose|k: int| 0 <= k < entries.len() && entries[k] == (name, true);
            if k < rest.len() {
                assert(rest[k] == (name, true));
            }
        }
        if rest.contains((name, true)) {
            let k = choose|k: int| 0 <= k < rest.len() && rest[k] == (name, true);
            assert(entries[k] == (name, true));
        }
        if all.contains(name) {
            let k = choose|k: int| 0 <= k < all.len() && all[k] == name;
            if k < front.len() {
                assert(front[k] == name);
            } else {
                assert(entries[entries.len() - 1] == (name, true));
            }
        }
        if front.contains(name) {
            let k = choose|k: int| 0 <= k < front.len() && front[k] == name;
            assert(all[k] == name);
        } else if entries.last() == (name, true) && name != live && !hidden(name) {
            assert(all[front.len() as int] == name);
        }
    }
}

proof fn lemma_picked(
    names: Seq<Seq<char>>,
    entries: Seq<(Seq<char>, bool)>,
    live: Seq<char>,
    wanted: bool,
    name: Seq<char>,
)
    ensures
        picked(names, entries, live, wanted).contains(name) <==> names.contains(name) && marked(
            entries,
            live,
            name,
        ) == wanted,
    decreases names.len(),
{
    if names.len() > 0 {
        let rest = names.drop_last();
        lemma_picked(rest, entries, live, wanted, name);
        let front = picked(rest, entries, live, wanted);
        let all = picked(names, entries, live, wanted);
        assert(names =~= rest.push(names.last()));
        if names.contains(name) {
            let k = choose|k: int| 0 <= k < names.len() && names[k] == name;
            if k < rest.len() {
                assert(rest[k] == name);
            }
        }
        if rest.contains(name) {
            let k = choose|k: int| 0 <= k < rest.len() && rest[k] == name;
            assert(names[k] == name);
        }
        if all.contains(name) {
            let k = choose|k: int| 0 <= k < all.len() && all[k] == name;
            if k < front.len() {
                assert(front[k] == name);
            } else {
                assert(names[names.len() - 1] == name);
            }
        }
        if front.contains(name) {
            let k = choose|k: int| 0 <= k < front.len() && front[k] == name;
            assert(all[k] == name);
        } else if names.last() == name && marked(entries, live, name) == wanted {
            assert(all[front.len() as int] == name);
        }
    }
}

proof fn lemma_swept(entries: Seq<(Seq<char>, bool)>, live: Seq<char>, removed: Removed)
    ensures
        swept(entries, live).contains(removed) <==> match removed {
            Removed::Folder(name) => name != live && hidden(name) && entries.contains((name, true)),
            Removed::Marker(name) => name != live && begins(name, ".incomplete-"@)
                && entries.contains((name, false)),
        },
    decreases entries.len(),
{
    if entries.len() > 0 {
        let rest = entries.drop_last();
        lemma_swept(rest, live, removed);
        let front = swept(rest, live);
        let all = swept(entries, live);
        let entry = match removed {
            Removed::Folder(name) => (name, true),
            Removed::Marker(name) => (name, false),
        };
        assert(entries =~= rest.push(entries.last()));
        if entries.contains(entry) {
            let k = choose|k: int| 0 <= k < entries.len() && entries[k] == entry;
            if k < rest.len() {
                assert(rest[k] == entry);
            }
        }
        if rest.contains(entry) {
            let k = choose|k: int| 0 <= k < rest.len() && rest[k] == entry;
            assert(entries[k] == entry);
        }
        if all.contains(removed) {
            let k = choose|k: int| 0 <= k < all.len() && all[k] == removed;
            if k < front.len() {
                assert(front[k] == removed);
            } else {
                assert(entries[entries.len() - 1] == entry);
            }
        }
        if front.contains(removed) {
            let k = choose|k: int| 0 <= k < front.len() && front[k] == removed;
            assert(all[k] == removed);
        } else if all.len() > front.len() && all[front.len() as int] == removed {
            assert(all.contains(removed));
        }
    }
}

proof fn lemma_of_folders(names: Seq<Seq<char>>, removed: Removed)
    ensures
        of_folders(names).contains(removed) <==> match removed {
            Removed::Folder(name) => names.contains(name),
            Removed::Marker(_) => false,
        },
{
    let list = of_folders(names);
    if list.contains(removed) {
        let k = choose|k: int| 0 <= k < list.len() && list[k] == removed;
        assert(list[k] == Removed::Folder(names[k]));
    }
    if let Removed::Folder(name) = removed {
        if names.contains(name) {
            let k = choose|k: int| 0 <= k < names.len() && names[k] == name;
            assert(list[k] == removed);
        }
    }
}

/// What is removed, name by name: a marker besides the live release; a folder
/// besides the live release that is hidden, interrupted, or among the oldest
/// complete ones beyond the number that is kept.
pub proof fn law_what_is_pruned(
    entries: Seq<(Seq<char>, bool)>,
    live: Seq<char>,
    keep: int,
    removed: Removed,
)
    requires
        keep >= 1,
    ensures
        pruned(entries, live, keep).contains(removed) <==> match removed {
            Removed::Marker(name) => {
                &&& name != live
                &&& begins(name, ".incomplete-"@)
                &&& entries.contains((name, false))
            },
            Removed::Folder(name) => {
                &&& name != live
                &&& entries.contains((name, true))
                &&& hidden(name) || marked(entries, live, name) || {
                    let old = complete(entries, live);
                    old.take(surplus(old.len() as int, keep - 1)).contains(name)
                }
            },
        },
{
    let old = complete(entries, live);
    let cut = old.take(surplus(old.len() as int, keep - 1));
    let first = swept(entries, live);
    let second = of_folders(interrupted(entries, live));
    let third = of_folders(cut);
    let plan = pruned(entries, live, keep);
    assert(plan == first + second + third);
    lemma_swept(entries, live, removed);
    lemma_of_folders(interrupted(entries, live), removed);
    lemma_of_folders(cut, removed);
    assert(plan.contains(removed) <==> first.contains(removed) || second.contains(removed)
        || third.contains(removed)) by {
        if plan.contains(removed) {
            let k = choose|k: int| 0 <= k < plan.len() && plan[k] == removed;
            if k < first.len() {
                assert(first[k] == removed);
            } else if k < first.len() + second.len() {
                assert(second[k - first.len()] == removed);
            } else {
                assert(third[k - first.len() - second.len()] == removed);
            }
        }
        if first.contains(removed) {
            let k = choose|k: int| 0 <= k < first.len() && first[k] == removed;
            assert(plan[k] == removed);
        }
        if second.contains(removed) {
            let k = choose|k: int| 0 <= k < second.len() && second[k] == removed;
            assert(plan[first.len() + k] == removed);
        }
        if third.contains(removed) {
            let k = choose|k: int| 0 <= k < third.len() && third[k] == removed;
            assert(plan[first.len() + second.len() + k] == removed);
        }
    }
    if let Removed::Folder(name) = removed {
        let names = folders(entries, live);
        lemma_folders(entries, live, name);
        lemma_picked(names, entries, live, true, name);
        lemma_picked(names, entries, live, false, name);
        lemma_in_order_contains(picked(names, entries, live, false), name);
        if cut.contains(name) {
            let k = choose|k: int| 0 <= k < cut.len() && cut[k] == name;
            assert(old[k] == name);
        }
    }
}

/// The live release is never pruned.
pub proof fn law_live_release_is_never_pruned(
    entries: Seq<(Seq<char>, bool)>,
    live: Seq<char>,
    keep: int,
)
    requires
        keep >= 1,
    ensures
        !pruned(entries, live, keep).contains(Removed::Folder(live)),
        !pruned(entries, live, keep).contains(Removed::Marker(live)),
{
    law_what_is_pruned(entries, live, keep, Removed::Folder(live));
    law_what_is_pruned(entries, live, keep, Removed::Marker(live));
}

/// Of the complete releases besides the live one, as many stay as `keep`
/// leaves room for beside it, and none that stays is older than one that goes.
pub proof fn law_the_newest_are_kept(
    entries: Seq<(Seq<char>, bool)>,
    live: Seq<char>,
    keep: int,
)
    requires
        keep >= 1,
    ensures
        ({
            let old = complete(entries, live);
            let gone = surplus(old.len() as int, keep - 1);
            &&& old.skip(gone).len() == if old.len() < keep {
                old.len() as int
            } else {
                keep - 1
            }
            &&& forall|i: int, j: int|
                0 <= i < gone && gone <= j < old.len() ==> !before(
                    #[trigger] old[j],
                    #[trigger] old[i],
                )
        }),
{
    law_in_order(picked(folders(entries, live), entries, live, false));
}

/// The logs among the names: those with the extension `log`.
pub open spec fn logs_of(names: Seq<Seq<char>>) -> Seq<Seq<char>>
    decreases names.len(),
{
    if names.len() == 0 {
        Seq::empty()
    } else {
        let front = logs_of(names.drop_last());
        if is_log(names.last()) {
            front.push(names.last())
        } else {
            front
        }
    }
}

/// Whether a name has the extension `log`: `.log` behind at least one
/// character.
pub open spec fn is_log(name: Seq<char>) -> bool {
    name.len() > 4 && name.skip(name.len() - 4) == ".log"@
}

fn has_log_extension(name: &str) -> (r: bool)
    ensures
        r == is_log(name@),
{
    let chars: Vec<char> = chars_of(name);
    let n: usize = chars.len();
    proof {
        reveal_strlit(".log");
        assert(".log"@ =~= seq!['.', 'l', 'o', 'g']);
        if n > 4 {
            let end = name@.skip(n - 4);
            assert(end[0] == name@[n - 4] && end[1] == name@[n - 3] && end[2] == name@[n - 2]
                && end[3] == name@[n - 1]);
            if name@[n - 4] == '.' && name@[n - 3] == 'l' && name@[n - 2] == 'o' && name@[n - 1]
                == 'g' {
                assert(end =~= ".log"@);
            }
        }
    }
    n > 4 && chars[n - 4] == '.' && chars[n - 3] == 'l' && chars[n - 2] == 'o' && chars[n - 1]
        == 'g'
}

/// The logs that are removed, oldest first: all but the newest `keep`.
pub open spec fn pruned_logs(names: Seq<Seq<char>>, keep: int) -> Seq<Seq<char>> {
    let logs = in_order(logs_of(names));
    logs.take(surplus(logs.len() as int, keep))
}

/// The logs to remove, oldest first: all but the newest `keep`.
pub fn prune_logs(names: &Vec<String>, keep: usize) -> (r: Vec<String>)
    ensures
        texts(r@) == pruned_logs(texts(names@), keep as int),
{
    broadcast use lemma_texts_push;

    let ghost all = texts(names@);
    let mut found: Vec<String> = Vec::new();
    let mut i: usize = 0;
    assert(texts(found@) =~= logs_of(all.take(0)));
    while i < names.len()
        invariant
            all == texts(names@),
            i <= names.len(),
            texts(found@) == logs_of(all.take(i as int)),
        decreases names.len() - i,
    {
        assert(all.take(i + 1).drop_last() == all.take(i as int));
        assert(all.take(i + 1).last() == names@[i as int]@);
        if has_log_extension(names[i].as_str()) {
            found.push(names[i].clone());
        }
        i = i + 1;
    }
    assert(all.take(i as int) == all);

    let logs: Vec<String> = sort(found);
    let ghost sorted = texts(logs@);
    assert(sorted.len() == logs.len());
    let count: usize = if logs.len() > keep {
        logs.len() - keep
    } else {
        0
    };
    let mut out: Vec<String> = Vec::new();
    let mut k: usize = 0;
    assert(texts(out@) =~= sorted.take(0));
    while k < count
        invariant
            count <= logs.len(),
            sorted == texts(logs@),
            k <= count,
            texts(out@) == sorted.take(k as int),
        decreases count - k,
    {
        let ghost taken = texts(out@);
        out.push(logs[k].clone());
        assert(texts(out@) == taken.push(sorted[k as int]));
        k = k + 1;
        assert(texts(out@) =~= sorted.take(k as int));
    }
    out
}

/// Of the logs, the newest `keep` stay.
pub proof fn law_the_newest_logs_are_kept(names: Seq<Seq<char>>, keep: int)
    requires
        keep >= 0,
    ensures
        ({
            let logs = in_order(logs_of(names));
            let gone = pruned_logs(names, keep).len();
            &&& logs.len() - gone == if logs.len() < keep {
                logs.len() as int
            } else {
                keep
            }
            &&& forall|i: int, j: int|
                0 <= i < gone && gone <= j < logs.len() ==> !before(
                    #[trigger] logs[j],
                    #[trigger] logs[i],
                )
        }),
{
    law_in_order(logs_of(names));
}

/// An entry of the folder of the releases, with whether a marker beside it says
/// that it is not complete.
pub struct Candidate {
    pub name: String,
    pub directory: bool,
    pub marked: bool,
}

/// Whether an entry is a complete release.
pub open spec fn is_retained(candidate: Candidate) -> bool {
    !hidden(candidate.name@) && candidate.directory && !candidate.marked
}

/// The names of the complete releases.
pub open spec fn retained_names(candidates: Seq<Candidate>) -> Seq<Seq<char>>
    decreases candidates.len(),
{
    if candidates.len() == 0 {
        Seq::empty()
    } else {
        let front = retained_names(candidates.drop_last());
        if is_retained(candidates.last()) {
            front.push(candidates.last().name@)
        } else {
            front
        }
    }
}

/// The complete releases, oldest first.
pub fn retained(candidates: &Vec<Candidate>) -> (r: Vec<String>)
    ensures
        texts(r@) == in_order(retained_names(candidates@)),
{
    broadcast use lemma_texts_push;

    let mut out: Vec<String> = Vec::new();
    let mut i: usize = 0;
    assert(texts(out@) =~= retained_names(candidates@.take(0)));
    while i < candidates.len()
        invariant
            i <= candidates.len(),
            texts(out@) == retained_names(candidates@.take(i as int)),
        decreases candidates.len() - i,
    {
        assert(candidates@.take(i + 1).drop_last() == candidates@.take(i as int));
        assert(candidates@.take(i + 1).last() == candidates@[i as int]);
        if !is_hidden(candidates[i].name.as_str()) && candidates[i].directory
            && !candidates[i].marked {
            out.push(candidates[i].name.clone());
        }
        i = i + 1;
    }
    assert(candidates@.take(i as int) == candidates@);
    sort(out)
}

/// The last of the names that stands before a name.
pub open spec fn last_before(names: Seq<Seq<char>>, name: Seq<char>) -> Option<Seq<char>>
    decreases names.len(),
{
    if names.len() == 0 {
        None
    } else if before(names.last(), name) {
        Some(names.last())
    } else {
        last_before(names.drop_last(), name)
    }
}

/// The release that a rollback goes to, or what is said when there is none:
/// without a target the newest release before the current one.
pub open spec fn rollback_choice(
    releases: Seq<Seq<char>>,
    current: Option<Seq<char>>,
    target: Seq<char>,
) -> Result<Seq<char>, Seq<char>> {
    if target.len() > 0 {
        if releases.contains(target) {
            Ok(target)
        } else {
            Err(
                "release "@ + target + " is not retained; retained: "@ + joined_texts(
                    releases,
                    ", "@,
                ),
            )
        }
    } else {
        match current {
            None => Err("nothing is deployed, so there is nothing to roll back"@),
            Some(current) => match last_before(releases, current) {
                Some(id) => Ok(id),
                None => Err("no release older than the current one is retained"@),
            },
        }
    }
}

fn choose_release(releases: &Vec<String>, current: Option<&str>, target: &str) -> (r: Result<
    String,
    String,
>)
    ensures
        match r {
            Ok(id) => rollback_choice(texts(releases@), optional(current), target@) == Ok::<
                Seq<char>,
                Seq<char>,
            >(id@),
            Err(message) => rollback_choice(texts(releases@), optional(current), target@) == Err::<
                Seq<char>,
                Seq<char>,
            >(message@),
        },
{
    let ghost all = texts(releases@);
    if target.is_empty() {
        let live: &str = match current {
            Some(live) => live,
            None => {
                return Err("nothing is deployed, so there is nothing to roll back".to_owned());
            },
        };
        let mut i: usize = releases.len();
        assert(all.take(i as int) == all);
        while i > 0
            invariant
                target@.len() == 0,
                current == Some(live),
                all == texts(releases@),
                i <= releases.len(),
                last_before(all, live@) == last_before(all.take(i as int), live@),
            decreases i,
        {
            assert(all.take(i as int).last() == releases@[i - 1]@);
            assert(all.take(i as int).drop_last() == all.take(i - 1));
            if is_before(releases[i - 1].as_str(), live) {
                return Ok(releases[i - 1].clone());
            }
            i = i - 1;
        }
        return Err("no release older than the current one is retained".to_owned());
    }
    let mut i: usize = 0;
    while i < releases.len()
        invariant
            target@.len() > 0,
            all == texts(releases@),
            i <= releases.len(),
            forall|k: int| 0 <= k < i ==> #[trigger] all[k] != target@,
        decreases releases.len() - i,
    {
        assert(all[i as int] == releases@[i as int]@);
        if same(releases[i].as_str(), target) {
            return Ok(target.to_owned());
        }
        i = i + 1;
    }
    assert(!all.contains(target@));
    let mut message: String = "release ".to_owned();
    message.append(target);
    message.append(" is not retained; retained: ");
    message.append(join_texts(releases, ", ").as_str());
    Err(message)
}

/// The release that a rollback goes to, or what is said when there is none.
/// `listed` is `None` when the folder of the releases cannot be read.
pub fn rollback(listed: Option<&Vec<Candidate>>, current: Option<&str>, target: &str) -> (r: Result<
    String,
    String,
>)
    ensures
        match listed {
            None => r matches Err(message) && message@ == "nothing has been deployed yet"@,
            Some(candidates) => {
                let choice = rollback_choice(
                    in_order(retained_names(candidates@)),
                    optional(current),
                    target@,
                );
                match r {
                    Ok(id) => choice == Ok::<Seq<char>, Seq<char>>(id@),
                    Err(message) => choice == Err::<Seq<char>, Seq<char>>(message@),
                }
            },
        },
        target@.len() > 0 ==> (r is Ok <==> listed is Some && holds_release(
            listed->0@,
            target@,
        )),
        target@.len() > 0 ==> (r matches Ok(id) ==> id@ == target@),
{
    if let Some(candidates) = listed {
        proof {
            if target@.len() > 0 {
                law_rollback_to_a_named_release(candidates@, optional(current), target@);
            }
        }
    }
    match listed {
        Some(candidates) => choose_release(&retained(candidates), current, target),
        None => Err("nothing has been deployed yet".to_owned()),
    }
}

proof fn lemma_last_before(names: Seq<Seq<char>>, name: Seq<char>)
    requires
        ordered(names),
    ensures
        match last_before(names, name) {
            Some(id) => {
                &&& names.contains(id)
                &&& before(id, name)
                &&& forall|i: int|
                    0 <= i < names.len() && before(#[trigger] names[i], name) ==> !before(
                        id,
                        names[i],
                    )
            },
            None => forall|i: int| 0 <= i < names.len() ==> !before(#[trigger] names[i], name),
        },
    decreases names.len(),
{
    if names.len() > 0 {
        let last = names.last();
        if before(last, name) {
            assert(names[names.len() - 1] == last);
            assert forall|i: int|
                0 <= i < names.len() && before(#[trigger] names[i], name) implies !before(
                last,
                names[i],
            ) by {
                if i == names.len() - 1 {
                    lemma_before_irreflexive(last);
                } else {
                    assert(!before(names[names.len() - 1], names[i]));
                }
            }
        } else {
            let rest = names.drop_last();
            assert(ordered(rest)) by {
                assert forall|i: int, j: int| 0 <= i < j < rest.len() implies !before(
                    #[trigger] rest[j],
                    #[trigger] rest[i],
                ) by {
                    assert(!before(names[j], names[i]));
                }
            }
            lemma_last_before(rest, name);
            assert forall|i: int| 0 <= i < names.len() - 1 implies names[i] == #[trigger] rest[i] by {}
            if let Some(id) = last_before(rest, name) {
                let k = choose|k: int| 0 <= k < rest.len() && rest[k] == id;
                assert(names[k] == id);
                assert forall|i: int|
                    0 <= i < names.len() && before(#[trigger] names[i], name) implies !before(
                    id,
                    names[i],
                ) by {
                    assert(names[i] == rest[i]);
                }
            } else {
                assert forall|i: int| 0 <= i < names.len() implies !before(
                    #[trigger] names[i],
                    name,
                ) by {
                    if i < rest.len() {
                        assert(names[i] == rest[i]);
                    }
                }
            }
        }
    }
}

proof fn lemma_retained(candidates: Seq<Candidate>, name: Seq<char>)
    requires
        retained_names(candidates).contains(name),
    ensures
        exists|i: int|
            0 <= i < candidates.len() && is_retained(#[trigger] candidates[i])
                && candidates[i].name@ == name,
    decreases candidates.len(),
{
    let rest = candidates.drop_last();
    let front = retained_names(rest);
    let all = retained_names(candidates);
    if front.contains(name) {
        lemma_retained(rest, name);
        let i = choose|i: int|
            0 <= i < rest.len() && is_retained(#[trigger] rest[i]) && rest[i].name@ == name;
        assert(candidates[i] == rest[i]);
    } else {
        let k = choose|k: int| 0 <= k < all.len() && all[k] == name;
        if k < front.len() {
            assert(front[k] == name);
        }
        let last = candidates.len() - 1;
        assert(is_retained(candidates[last]) && candidates[last].name@ == name);
    }
}

/// A rollback only goes to a complete release.
pub proof fn law_rollback_goes_to_a_complete_release(
    candidates: Seq<Candidate>,
    current: Option<Seq<char>>,
    target: Seq<char>,
)
    ensures
        rollback_choice(in_order(retained_names(candidates)), current, target) matches Ok(id)
            ==> exists|i: int|
            0 <= i < candidates.len() && is_retained(#[trigger] candidates[i])
                && candidates[i].name@ == id,
{
    let names = retained_names(candidates);
    let releases = in_order(names);
    law_in_order(names);
    if let Ok(id) = rollback_choice(releases, current, target) {
        if target.len() == 0 {
            lemma_last_before(releases, current->0);
        }
        lemma_in_order_contains(names, id);
        lemma_retained(candidates, id);
    }
}

/// Without a target a rollback goes to the release before the current one: an
/// older one, with no retained release between the two.
pub proof fn law_rollback_goes_one_release_back(
    candidates: Seq<Candidate>,
    current: Seq<char>,
    other: Seq<char>,
)
    requires
        retained_names(candidates).contains(other),
        before(other, current),
    ensures
        rollback_choice(in_order(retained_names(candidates)), Some(current), Seq::empty()) matches Ok(
            id,
        ) && before(id, current) && !before(id, other),
{
    let names = retained_names(candidates);
    let releases = in_order(names);
    law_in_order(names);
    lemma_last_before(releases, current);
    lemma_in_order_contains(names, other);
    let k = choose|k: int| 0 <= k < releases.len() && releases[k] == other;
    assert(before(releases[k], current));
}

/// Whether a folder holds a complete release of a name: a directory, with no
/// marker beside it, whose name does not begin with a dot.
pub open spec fn holds_release(candidates: Seq<Candidate>, name: Seq<char>) -> bool {
    &&& !(name.len() > 0 && name[0] == '.')
    &&& exists|i: int|
        {
            &&& 0 <= i < candidates.len()
            &&& (#[trigger] candidates[i]).name@ == name
            &&& candidates[i].directory
            &&& !candidates[i].marked
        }
}

/// The releases that are retained are the complete ones in the folder, and no
/// others.
pub proof fn law_what_is_retained(candidates: Seq<Candidate>, name: Seq<char>)
    ensures
        in_order(retained_names(candidates)).contains(name) <==> holds_release(candidates, name),
{
    lemma_in_order_contains(retained_names(candidates), name);
    if retained_names(candidates).contains(name) {
        lemma_retained(candidates, name);
        let i = choose|i: int|
            0 <= i < candidates.len() && is_retained(#[trigger] candidates[i])
                && candidates[i].name@ == name;
        assert(candidates[i].directory && !candidates[i].marked);
    }
    if holds_release(candidates, name) {
        let i = choose|i: int|
            {
                &&& 0 <= i < candidates.len()
                &&& (#[trigger] candidates[i]).name@ == name
                &&& candidates[i].directory
                &&& !candidates[i].marked
            };
        lemma_release_is_retained(candidates, i);
    }
}

proof fn lemma_release_is_retained(candidates: Seq<Candidate>, i: int)
    requires
        0 <= i < candidates.len(),
        is_retained(candidates[i]),
    ensures
        retained_names(candidates).contains(candidates[i].name@),
    decreases candidates.len(),
{
    let rest = candidates.drop_last();
    let front = retained_names(rest);
    let all = retained_names(candidates);
    let name = candidates[i].name@;
    if i < rest.len() {
        lemma_release_is_retained(rest, i);
        assert(rest[i] == candidates[i]);
        let k = choose|k: int| 0 <= k < front.len() && front[k] == name;
        assert(all[k] == name);
    } else {
        assert(all[front.len() as int] == name);
    }
}

/// A rollback to a named release goes to exactly that release where it is
/// complete and retained, whatever current points at, and fails where it is not,
/// with a message that names it.
pub proof fn law_rollback_to_a_named_release(
    candidates: Seq<Candidate>,
    current: Option<Seq<char>>,
    target: Seq<char>,
)
    requires
        target.len() > 0,
    ensures
        ({
            let choice = rollback_choice(in_order(retained_names(candidates)), current, target);
            &&& holds_release(candidates, target) ==> choice == Ok::<Seq<char>, Seq<char>>(target)
            &&& !holds_release(candidates, target) ==> (choice matches Err(message) && holds(
                message,
                target,
            ))
        }),
{
    let releases = in_order(retained_names(candidates));
    law_what_is_retained(candidates, target);
    let rest = " is not retained; retained: "@ + joined_texts(releases, ", "@);
    law_holds("release "@, target, rest, target);
    assert("release "@ + target + rest =~= "release "@ + target + " is not retained; retained: "@
        + joined_texts(releases, ", "@));
}

/// A rollback without a target succeeds exactly when something is deployed and a
/// complete release is retained that is older.
pub proof fn law_when_a_rollback_goes_back(candidates: Seq<Candidate>, current: Option<Seq<char>>)
    ensures
        ({
            let choice = rollback_choice(
                in_order(retained_names(candidates)),
                current,
                Seq::empty(),
            );
            &&& current is None ==> choice is Err
            &&& current is Some ==> (choice is Ok <==> exists|name: Seq<char>| #[trigger]
                holds_release(candidates, name) && before(name, current->0))
            &&& choice matches Ok(id) ==> holds_release(candidates, id) && before(id, current->0)
        }),
{
    let names = retained_names(candidates);
    let releases = in_order(names);
    law_in_order(names);
    if let Some(live) = current {
        lemma_last_before(releases, live);
        if let Some(id) = last_before(releases, live) {
            law_what_is_retained(candidates, id);
        }
        assert forall|name: Seq<char>| #[trigger]
            holds_release(candidates, name) && before(name, live) implies last_before(
            releases,
            live,
        ) is Some by {
            law_what_is_retained(candidates, name);
            let k = choose|k: int| 0 <= k < releases.len() && releases[k] == name;
            assert(before(releases[k], live));
        }
    }
}

/// A release counts as complete when it is a directory other than the live one,
/// its name does not begin with a dot, and no file beside it marks it, and as
/// interrupted when there is such a file. What has the name of the live release
/// marks nothing.
pub proof fn law_what_is_complete(
    entries: Seq<(Seq<char>, bool)>,
    live: Seq<char>,
    name: Seq<char>,
)
    ensures
        complete(entries, live).contains(name) <==> {
            &&& name != live
            &&& !(name.len() > 0 && name[0] == '.')
            &&& entries.contains((name, true))
            &&& !entries.contains((".incomplete-"@ + name, false)) || ".incomplete-"@ + name == live
        },
        interrupted(entries, live).contains(name) <==> {
            &&& name != live
            &&& !(name.len() > 0 && name[0] == '.')
            &&& entries.contains((name, true))
            &&& entries.contains((".incomplete-"@ + name, false)) && ".incomplete-"@ + name != live
        },
{
    let names = folders(entries, live);
    lemma_folders(entries, live, name);
    lemma_picked(names, entries, live, true, name);
    lemma_picked(names, entries, live, false, name);
    lemma_in_order_contains(picked(names, entries, live, false), name);
    let marker = ".incomplete-"@ + name;
    assert(marked(entries, live, name) <==> entries.contains((marker, false)) && marker != live) by {
        if entries.contains((marker, false)) && marker != live {
            let k = choose|k: int| 0 <= k < entries.len() && entries[k] == (marker, false);
            assert(!entries[k].1 && entries[k].0 == marker_of(name));
        }
        if marked(entries, live, name) {
            let k = choose|k: int|
                0 <= k < entries.len() && !(#[trigger] entries[k]).1 && entries[k].0 == marker_of(
                    name,
                ) && entries[k].0 != live;
            assert(entries[k] == (marker, false));
        }
    }
}

/// The number of complete releases that are pruned is the number by which they
/// and the live one exceed what is kept.
pub proof fn law_surplus(count: int, kept: int)
    ensures
        count <= kept ==> surplus(count, kept) == 0,
        count > kept ==> surplus(count, kept) + kept == count,
{
}

/// Only logs are pruned, and a log is a file whose name is `.log` behind
/// something.
pub proof fn law_only_logs_are_pruned(names: Seq<Seq<char>>, keep: int, name: Seq<char>)
    requires
        keep >= 0,
    ensures
        in_order(logs_of(names)).contains(name) <==> names.contains(name) && is_log(name),
        is_log(name) <==> exists|stem: Seq<char>| stem.len() > 0 && name == #[trigger] (stem
            + ".log"@),
        pruned_logs(names, keep).contains(name) ==> names.contains(name) && is_log(name),
{
    reveal_strlit(".log");
    let logs = logs_of(names);
    lemma_logs(names, name);
    lemma_in_order_contains(logs, name);
    if is_log(name) {
        let stem = name.take(name.len() - 4);
        assert(name =~= stem + ".log"@);
    }
    assert forall|stem: Seq<char>| stem.len() > 0 && name == #[trigger] (stem
        + ".log"@) implies is_log(name) by {
        assert(name.skip(name.len() - 4) =~= ".log"@);
    }
    let sorted = in_order(logs);
    let gone = pruned_logs(names, keep);
    if gone.contains(name) {
        let k = choose|k: int| 0 <= k < gone.len() && gone[k] == name;
        assert(sorted[k] == name);
    }
}

proof fn lemma_logs(names: Seq<Seq<char>>, name: Seq<char>)
    ensures
        logs_of(names).contains(name) <==> names.contains(name) && is_log(name),
    decreases names.len(),
{
    if names.len() > 0 {
        let rest = names.drop_last();
        lemma_logs(rest, name);
        let front = logs_of(rest);
        let all = logs_of(names);
        if names.contains(name) {
            let k = choose|k: int| 0 <= k < names.len() && names[k] == name;
            if k < rest.len() {
                assert(rest[k] == name);
            }
        }
        if rest.contains(name) {
            let k = choose|k: int| 0 <= k < rest.len() && rest[k] == name;
            assert(names[k] == name);
        }
        if all.contains(name) {
            let k = choose|k: int| 0 <= k < all.len() && all[k] == name;
            if k < front.len() {
                assert(front[k] == name);
            } else {
                assert(names[names.len() - 1] == name);
            }
        }
        if front.contains(name) {
            let k = choose|k: int| 0 <= k < front.len() && front[k] == name;
            assert(all[k] == name);
        } else if names.last() == name && is_log(name) {
            assert(all[front.len() as int] == name);
        }
    }
}

proof fn lemma_before_push(a: Seq<char>, b: Seq<char>, x: char, y: char)
    requires
        a.len() == b.len(),
        before(a, b) || (a == b && (x as int) < (y as int)),
    ensures
        before(a.push(x), b.push(y)),
    decreases a.len(),
{
    let p = a.push(x);
    let q = b.push(y);
    if a.len() > 0 {
        assert(p[0] == a[0] && q[0] == b[0]);
        if a[0] == b[0] {
            assert(p.skip(1) =~= a.skip(1).push(x));
            assert(q.skip(1) =~= b.skip(1).push(y));
            lemma_before_push(a.skip(1), b.skip(1), x, y);
        }
    } else {
        assert(p[0] == x && q[0] == y);
    }
}

/// Releases are named after the millisecond of their deployment, so the order
/// of the names is the order of the deployments, as long as the names have the
/// same number of digits.
pub proof fn law_names_are_ordered_by_time(earlier: int, later: int)
    requires
        0 <= earlier < later,
        decimal_of(earlier).len() == decimal_of(later).len(),
    ensures
        before(decimal_of(earlier), decimal_of(later)),
    decreases later,
{
    if later < 10 {
        lemma_before_push(Seq::empty(), Seq::empty(), digit(earlier), digit(later));
        assert(Seq::<char>::empty().push(digit(earlier)) =~= decimal_of(earlier));
        assert(Seq::<char>::empty().push(digit(later)) =~= decimal_of(later));
    } else {
        if earlier < 10 {
            lemma_decimal_nonempty(later / 10);
        }
        assert(earlier >= 10);
        if earlier / 10 < later / 10 {
            law_names_are_ordered_by_time(earlier / 10, later / 10);
        }
        lemma_before_push(
            decimal_of(earlier / 10),
            decimal_of(later / 10),
            digit(earlier % 10),
            digit(later % 10),
        );
    }
}

proof fn lemma_decimal_nonempty(n: int)
    ensures
        decimal_of(n).len() > 0,
    decreases n,
{
}

/// A listing has one item for each entry, with its name and whether it is a
/// directory; and what is to be removed is told with its name, a folder as a folder
/// and a marker as a marker.
pub proof fn law_views_of_entries(
    entries: Seq<Entry>,
    list: Seq<Removal>,
    names: Seq<Seq<char>>,
    i: int,
)
    ensures
        listing(entries).len() == entries.len(),
        0 <= i < entries.len() ==> listing(entries)[i] == (entries[i].name@, entries[i].directory),
        removals(list).len() == list.len(),
        0 <= i < list.len() ==> (list[i] matches Removal::Folder(name) ==> removals(list)[i]
            == Removed::Folder(name@)),
        0 <= i < list.len() ==> (list[i] matches Removal::Marker(name) ==> removals(list)[i]
            == Removed::Marker(name@)),
        of_folders(names).len() == names.len(),
        0 <= i < names.len() ==> of_folders(names)[i] == Removed::Folder(names[i]),
{
}

} // verus!
