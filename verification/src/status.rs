//! The deployed state as it stands on disk: the report of `--status`, and the
//! snapshot that the dashboard shows.

use vstd::prelude::*;

use crate::layout::{head_in, marker_name, marker_of, recorded_head};
use crate::numbers::{decimal, decimal_of, law_decimal_reads_back, number_of, parse_u64};
use crate::order::{before, in_order, law_in_order, lemma_in_order_contains, sort};
use crate::releases::{hidden, is_hidden, listing, Entry};
use crate::text::{begins, lemma_texts_push, optional, same, text_of, texts, trim, trimmed};

verus! {

/// A time span in words: seconds below a minute, minutes below an hour, hours
/// and minutes below a day, else days and hours.
pub open spec fn age_text(seconds: int) -> Seq<char> {
    if seconds < 60 {
        decimal_of(seconds) + "s"@
    } else if seconds < 3600 {
        decimal_of(seconds / 60) + "m"@
    } else if seconds < 86400 {
        decimal_of(seconds / 3600) + "h "@ + decimal_of((seconds % 3600) / 60) + "m"@
    } else {
        decimal_of(seconds / 86400) + "d "@ + decimal_of((seconds % 86400) / 3600) + "h"@
    }
}

/// A time span in words.
pub fn format_age(seconds: u64) -> (r: String)
    ensures
        r@ == age_text(seconds as int),
{
    if seconds < 60 {
        let mut text: String = decimal(seconds);
        text.append("s");
        text
    } else if seconds < 3600 {
        let mut text: String = decimal(seconds / 60);
        text.append("m");
        text
    } else if seconds < 86400 {
        let mut text: String = decimal(seconds / 3600);
        text.append("h ");
        text.append(decimal((seconds % 3600) / 60).as_str());
        text.append("m");
        text
    } else {
        let mut text: String = decimal(seconds / 86400);
        text.append("d ");
        text.append(decimal((seconds % 86400) / 3600).as_str());
        text.append("h");
        text
    }
}

/// How many seconds ago a release was deployed: its name is the millisecond of
/// the deployment. `None` when it is no such name, when it lies in the future,
/// or when the clock stands before the epoch.
pub open spec fn age_of(id: Seq<char>, now: Option<u64>) -> Option<int> {
    match (number_of(id), now) {
        (Some(millis), Some(now)) => if millis <= now {
            Some((now - millis) / 1000)
        } else {
            None
        },
        _ => None,
    }
}

/// How many seconds ago a release was deployed. `now` is in milliseconds.
pub fn release_age(id: &str, now: Option<u64>) -> (r: Option<u64>)
    ensures
        match r {
            Some(seconds) => age_of(id@, now) == Some(seconds as int),
            None => age_of(id@, now) is None,
        },
{
    match parse_u64(id) {
        Some(millis) => match now {
            Some(now) => if millis <= now {
                Some((now - millis) / 1000)
            } else {
                None
            },
            None => None,
        },
        None => None,
    }
}

/// What is known of the current release.
pub struct Current<'a> {
    pub id: &'a str,
    /// The contents of the file `head`, if it can be read.
    pub head: Option<&'a str>,
    /// The path of the log of the release, if there is one.
    pub log: Option<&'a str>,
}

/// The line that names the current release.
pub open spec fn current_line(id: Seq<char>, now: Option<u64>) -> Seq<char> {
    "current  "@ + id + match age_of(id, now) {
        Some(seconds) => " (deployed "@ + age_text(seconds) + " ago)"@,
        None => Seq::empty(),
    }
}

/// The lines on the current release.
pub open spec fn current_lines(current: Option<Current>, now: Option<u64>) -> Seq<Seq<char>> {
    match current {
        None => seq!["current  none (never deployed)"@],
        Some(current) => seq![current_line(current.id@, now)] + (match current.head {
            Some(head) => seq!["commit   "@ + trimmed(head@)],
            None => seq![],
        }) + (match current.log {
            Some(log) => seq!["log      "@ + log@],
            None => seq![],
        }),
    }
}

/// The names of the folders of releases, complete or not.
pub open spec fn release_names(entries: Seq<(Seq<char>, bool)>) -> Seq<Seq<char>>
    decreases entries.len(),
{
    if entries.len() == 0 {
        Seq::empty()
    } else {
        let front = release_names(entries.drop_last());
        let (name, directory) = entries.last();
        if directory && !hidden(name) {
            front.push(name)
        } else {
            front
        }
    }
}

/// The report on the deployed state.
pub open spec fn report(
    repo: Seq<char>,
    git_ref: Option<Seq<char>>,
    root: Seq<char>,
    current: Option<Current>,
    now: Option<u64>,
    entries: Seq<(Seq<char>, bool)>,
    running: bool,
) -> Seq<Seq<char>> {
    seq!["repo     "@ + repo] + (match git_ref {
        Some(git_ref) => seq!["ref      "@ + git_ref],
        None => seq![],
    }) + seq!["root     "@ + root] + current_lines(current, now) + seq![
        "releases "@ + decimal_of(release_names(entries).len() as int) + " retained"@,
        "daemon   "@ + if running {
            "running"@
        } else {
            "not running"@
        },
    ]
}

fn labelled(label: &str, value: &str) -> (r: String)
    ensures
        r@ == label@ + value@,
{
    let mut line: String = label.to_owned();
    line.append(value);
    line
}

fn named_releases(entries: &Vec<Entry>) -> (r: Vec<String>)
    ensures
        texts(r@) == release_names(listing(entries@)),
{
    broadcast use lemma_texts_push;

    let ghost all = listing(entries@);
    let mut names: Vec<String> = Vec::new();
    let mut i: usize = 0;
    assert(texts(names@) =~= release_names(all.take(0)));
    while i < entries.len()
        invariant
            all == listing(entries@),
            i <= entries.len(),
            texts(names@) == release_names(all.take(i as int)),
        decreases entries.len() - i,
    {
        assert(all.take(i + 1).drop_last() == all.take(i as int));
        assert(all.take(i + 1).last() == (entries@[i as int].name@, entries@[i as int].directory));
        if entries[i].directory && !is_hidden(entries[i].name.as_str()) {
            names.push(entries[i].name.clone());
        }
        i = i + 1;
    }
    assert(all.take(i as int) == all);
    names
}

/// The lines that report the deployed state. `entries` is empty when the folder
/// of the releases cannot be read, and `running` says that a daemon holds the
/// lock.
pub fn status(
    repo: &str,
    git_ref: Option<&str>,
    root: &str,
    current: Option<Current>,
    now: Option<u64>,
    entries: &Vec<Entry>,
    running: bool,
) -> (r: Vec<String>)
    ensures
        texts(r@) == report(
            repo@,
            optional(git_ref),
            root@,
            current,
            now,
            listing(entries@),
            running,
        ),
{
    broadcast use lemma_texts_push;

    let mut lines: Vec<String> = Vec::new();
    lines.push(labelled("repo     ", repo));
    if let Some(git_ref) = git_ref {
        lines.push(labelled("ref      ", git_ref));
    }
    lines.push(labelled("root     ", root));
    let ghost head = texts(lines@);
    assert(head =~= seq!["repo     "@ + repo@] + (match optional(git_ref) {
        Some(git_ref) => seq!["ref      "@ + git_ref],
        None => seq![],
    }) + seq!["root     "@ + root@]);
    match current {
        None => {
            lines.push("current  none (never deployed)".to_owned());
        },
        Some(current) => {
            let mut line: String = labelled("current  ", current.id);
            if let Some(seconds) = release_age(current.id, now) {
                line.append(" (deployed ");
                line.append(format_age(seconds).as_str());
                line.append(" ago)");
            }
            assert(line@ =~= current_line(current.id@, now));
            lines.push(line);
            if let Some(contents) = current.head {
                lines.push(labelled("commit   ", trim(contents).as_str()));
            }
            if let Some(log) = current.log {
                lines.push(labelled("log      ", log));
            }
        },
    }
    assert(texts(lines@) =~= head + current_lines(current, now));
    let releases: Vec<String> = named_releases(entries);
    assert(texts(releases@).len() == releases.len());
    let mut count: String = labelled("releases ", decimal(releases.len() as u64).as_str());
    count.append(" retained");
    lines.push(count);
    lines.push(
        labelled(
            "daemon   ",
            if running {
                "running"
            } else {
                "not running"
            },
        ),
    );
    assert(texts(lines@) =~= report(
        repo@,
        optional(git_ref),
        root@,
        current,
        now,
        listing(entries@),
        running,
    ));
    lines
}

/// Whether something marks a release as not complete.
pub open spec fn building(entries: Seq<(Seq<char>, bool)>, id: Seq<char>) -> bool {
    exists|i: int| 0 <= i < entries.len() && (#[trigger] entries[i]).0 == marker_of(id)
}

/// The releases, newest first, each with whether it is not complete.
pub open spec fn shown_releases(entries: Seq<(Seq<char>, bool)>) -> Seq<(Seq<char>, bool)> {
    in_order(release_names(entries)).reverse().map_values(
        |id: Seq<char>| (id, building(entries, id)),
    )
}

/// The deployed state as recorded on disk, and whether a server is running.
pub struct Snapshot {
    pub current: Option<String>,
    pub head: Option<String>,
    pub server_up: bool,
    /// Newest first: the name, and whether the release is not complete.
    pub releases: Vec<(String, bool)>,
}

/// The names of releases, each with whether it is not complete.
pub open spec fn flagged(releases: Seq<(String, bool)>) -> Seq<(Seq<char>, bool)> {
    releases.map_values(|r: (String, bool)| (r.0@, r.1))
}

fn is_building(entries: &Vec<Entry>, id: &str) -> (r: bool)
    ensures
        r == building(listing(entries@), id@),
{
    let marker: String = marker_name(id);
    let ghost all = listing(entries@);
    let mut i: usize = 0;
    while i < entries.len()
        invariant
            all == listing(entries@),
            marker@ == marker_of(id@),
            i <= entries.len(),
            forall|k: int| 0 <= k < i ==> (#[trigger] all[k]).0 != marker_of(id@),
        decreases entries.len() - i,
    {
        assert(all[i as int].0 == entries@[i as int].name@);
        if same(entries[i].name.as_str(), marker.as_str()) {
            return true;
        }
        i = i + 1;
    }
    false
}

impl Snapshot {
    /// What the current link, the file `head`, the server and the folder of the
    /// releases come to.
    pub fn read(
        current: Option<String>,
        head: Option<&str>,
        server_up: bool,
        entries: &Vec<Entry>,
    ) -> (r: Snapshot)
        ensures
            r.current == current,
            text_of(r.head) == head_in(optional(head)),
            r.server_up == server_up,
            flagged(r.releases@) == shown_releases(listing(entries@)),
    {
        let ghost all = listing(entries@);
        let sorted: Vec<String> = sort(named_releases(entries));
        let ghost newest = texts(sorted@).reverse();
        let n: usize = sorted.len();
        assert(newest.len() == n);
        let mut releases: Vec<(String, bool)> = Vec::new();
        let mut k: usize = 0;
        assert(flagged(releases@) =~= shown_releases(all).take(0));
        while k < n
            invariant
                all == listing(entries@),
                n == sorted.len(),
                newest == texts(sorted@).reverse(),
                newest == in_order(release_names(all)).reverse(),
                newest.len() == n,
                k <= n,
                flagged(releases@) == shown_releases(all).take(k as int),
            decreases n - k,
        {
            let id: String = sorted[n - 1 - k].clone();
            let unfinished: bool = is_building(entries, id.as_str());
            let ghost front = releases@;
            assert(newest[k as int] == texts(sorted@)[n - 1 - k]);
            assert(id@ == newest[k as int]);
            assert(shown_releases(all)[k as int] == (id@, unfinished));
            releases.push((id, unfinished));
            assert(flagged(releases@) =~= flagged(front).push((id@, unfinished)));
            k = k + 1;
            assert(flagged(releases@) =~= shown_releases(all).take(k as int));
        }
        assert(shown_releases(all).take(k as int) == shown_releases(all));
        Snapshot { current, head: recorded_head(head), server_up, releases }
    }
}

/// The snapshot shows every release that the folder holds, newest first.
pub proof fn law_snapshot_is_newest_first(entries: Seq<(Seq<char>, bool)>)
    ensures
        shown_releases(entries).len() == release_names(entries).len(),
        forall|i: int, j: int|
            0 <= i < j < shown_releases(entries).len() ==> !before(
                (#[trigger] shown_releases(entries)[i]).0,
                (#[trigger] shown_releases(entries)[j]).0,
            ),
{
    let sorted = in_order(release_names(entries));
    law_in_order(release_names(entries));
    assert forall|i: int, j: int| 0 <= i < j < shown_releases(entries).len() implies !before(
        (#[trigger] shown_releases(entries)[i]).0,
        (#[trigger] shown_releases(entries)[j]).0,
    ) by {
        let n = sorted.len();
        assert(shown_releases(entries)[i].0 == sorted[n - 1 - i]);
        assert(shown_releases(entries)[j].0 == sorted[n - 1 - j]);
    }
}

/// A time span is told in its two largest units, without rounding up: days and
/// hours, hours and minutes, minutes alone, or seconds alone.
pub proof fn law_age_text(days: int, hours: int, minutes: int, seconds: int)
    requires
        0 <= days,
        0 <= hours < 24,
        0 <= minutes < 60,
        0 <= seconds < 60,
    ensures
        ({
            let text = age_text(((days * 24 + hours) * 60 + minutes) * 60 + seconds);
            &&& days > 0 ==> text == decimal_of(days) + "d "@ + decimal_of(hours) + "h"@
            &&& days == 0 && hours > 0 ==> text == decimal_of(hours) + "h "@ + decimal_of(minutes)
                + "m"@
            &&& days == 0 && hours == 0 && minutes > 0 ==> text == decimal_of(minutes) + "m"@
            &&& days == 0 && hours == 0 && minutes == 0 ==> text == decimal_of(seconds) + "s"@
        }),
{
    let total = ((days * 24 + hours) * 60 + minutes) * 60 + seconds;
    assert(total == days * 86400 + hours * 3600 + minutes * 60 + seconds);
    let below = hours * 3600 + minutes * 60 + seconds;
    assert(total / 86400 == days && total % 86400 == below) by (nonlinear_arith)
        requires
            total == days * 86400 + below,
            0 <= below < 86400,
    ;
}

/// The age of a release is the number of whole seconds since the millisecond that
/// its name tells. There is none where the name tells none, where it lies in the
/// future, or where the time is not known.
pub proof fn law_age_of(id: Seq<char>, millis: int, now: u64)
    requires
        0 <= millis <= u64::MAX,
    ensures
        age_of(id, None) is None,
        number_of(id) is None ==> age_of(id, Some(now)) is None,
        millis > now ==> age_of(decimal_of(millis), Some(now)) is None,
        millis <= now ==> (age_of(decimal_of(millis), Some(now)) matches Some(seconds) && seconds
            * 1000 <= now - millis < seconds * 1000 + 1000),
{
    law_decimal_reads_back(millis);
}

/// The releases that are counted and shown are the directories whose names do
/// not begin with a dot, each as often as it is listed.
pub proof fn law_release_names(entries: Seq<(Seq<char>, bool)>)
    ensures
        release_names(entries) == entries.filter(
            |entry: (Seq<char>, bool)| entry.1 && !(entry.0.len() > 0 && entry.0[0] == '.'),
        ).map_values(|entry: (Seq<char>, bool)| entry.0),
    decreases entries.len(),
{
    reveal(Seq::filter);
    let keep = |entry: (Seq<char>, bool)| entry.1 && !(entry.0.len() > 0 && entry.0[0] == '.');
    let name = |entry: (Seq<char>, bool)| entry.0;
    if entries.len() > 0 {
        let rest = entries.drop_last();
        law_release_names(rest);
        let front = rest.filter(keep);
        assert(front.push(entries.last()).map_values(name) =~= front.map_values(name).push(
            entries.last().0,
        ));
    } else {
        assert(entries.filter(keep).map_values(name) =~= Seq::empty());
    }
}

/// The line on the current release names it and, where its age is known, tells
/// the age.
pub proof fn law_current_line(id: Seq<char>, now: Option<u64>)
    ensures
        begins(current_line(id, now), "current  "@ + id),
        age_of(id, now) is None ==> current_line(id, now) == "current  "@ + id,
        age_of(id, now) matches Some(seconds) ==> current_line(id, now) == "current  "@ + id
            + " (deployed "@ + age_text(seconds) + " ago)"@,
{
    let line = current_line(id, now);
    let front = "current  "@ + id;
    assert(line.take(front.len() as int) =~= front);
    match age_of(id, now) {
        Some(seconds) => {
            assert(line =~= front + " (deployed "@ + age_text(seconds) + " ago)"@);
        },
        None => {
            assert(line =~= front);
        },
    }
}

/// The report has a line on the repository, one on the reference where there is
/// one, and one on the root; then what is deployed, with the commit and the log
/// where they are known; and last the number of releases and whether a daemon is
/// running. It has no other lines.
pub proof fn law_report(
    repo: Seq<char>,
    git_ref: Option<Seq<char>>,
    root: Seq<char>,
    current: Option<Current>,
    now: Option<u64>,
    entries: Seq<(Seq<char>, bool)>,
    running: bool,
)
    ensures
        ({
            let lines = report(repo, git_ref, root, current, now, entries, running);
            let n = lines.len() as int;
            let at: int = if git_ref is Some {
                3
            } else {
                2
            };
            let told: int = match current {
                Some(current) => 1 + (if current.head is Some {
                    1int
                } else {
                    0
                }) + (if current.log is Some {
                    1int
                } else {
                    0
                }),
                None => 1,
            };
            &&& n == at + told + 2
            &&& lines[0] == "repo     "@ + repo
            &&& git_ref matches Some(name) ==> lines[1] == "ref      "@ + name
            &&& lines[at - 1] == "root     "@ + root
            &&& current is None ==> lines[at] == "current  none (never deployed)"@
            &&& current matches Some(current) ==> {
                &&& lines[at] == current_line(current.id@, now)
                &&& current.head matches Some(head) ==> lines[at + 1] == "commit   "@ + trimmed(
                    head@,
                )
                &&& current.log matches Some(log) ==> lines[n - 3] == "log      "@ + log@
            }
            &&& lines[n - 2] == "releases "@ + decimal_of(release_names(entries).len() as int)
                + " retained"@
            &&& running ==> lines[n - 1] == "daemon   "@ + "running"@
            &&& !running ==> lines[n - 1] == "daemon   "@ + "not running"@
        }),
{
}

/// The snapshot shows a release as often as the folder lists it, and marks it as
/// not complete exactly when its marker stands beside it.
pub proof fn law_snapshot_shows_releases(
    entries: Seq<(Seq<char>, bool)>,
    id: Seq<char>,
    unfinished: bool,
)
    ensures
        shown_releases(entries).contains((id, unfinished)) <==> {
            &&& release_names(entries).contains(id)
            &&& unfinished <==> exists|i: int|
                0 <= i < entries.len() && (#[trigger] entries[i]).0 == ".incomplete-"@ + id
        },
{
    let names = release_names(entries);
    let sorted = in_order(names);
    let newest = sorted.reverse();
    let shown = shown_releases(entries);
    lemma_in_order_contains(names, id);
    if shown.contains((id, unfinished)) {
        let k = choose|k: int| 0 <= k < shown.len() && shown[k] == (id, unfinished);
        assert(shown[k] == (newest[k], building(entries, newest[k])));
        assert(sorted[sorted.len() - 1 - k] == id);
    }
    if names.contains(id) {
        let k = choose|k: int| 0 <= k < sorted.len() && sorted[k] == id;
        let j = sorted.len() - 1 - k;
        assert(newest[j] == id);
        assert(shown[j] == (id, building(entries, id)));
    }
}

/// A release of a snapshot is viewed with its name and whether it is complete.
pub proof fn law_view_of_a_snapshot(releases: Seq<(String, bool)>, i: int)
    ensures
        flagged(releases).len() == releases.len(),
        0 <= i < releases.len() ==> flagged(releases)[i].0 == releases[i].0@ && flagged(
            releases,
        )[i].1 == releases[i].1,
{
}

} // verus!
