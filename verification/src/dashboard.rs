//! The live dashboard: the repository and the state of the daemon, the retained
//! releases, and the activity that plain mode would print.

use std::collections::VecDeque;

use vstd::prelude::*;
use vstd::utf8::{
    decode_utf8, encode_utf8, encode_utf8_decode_utf8, is_ascii_chars, is_ascii_chars_encode_utf8,
    is_char_boundary,
};

use crate::numbers::{decimal, decimal_of};
use crate::screen::{add_line, bold, rows, toned, Key, KeyCode, Line, Piece, Span, Tone};
use crate::status::{age_of, age_text, flagged, format_age, release_age, Snapshot};
use crate::text::{
    begins, chars_of, contains, holds, optional, same, starts_with, text_of, texts,
};

verus! {

/// How many lines of activity are kept.
pub const SCROLLBACK: usize = 300;

/// How many releases are shown.
pub const ROWS: usize = 6;

/// The last `count` of a sequence, or all of it.
pub open spec fn last_of<T>(s: Seq<T>, count: int) -> Seq<T> {
    if s.len() > count {
        s.skip(s.len() - count)
    } else {
        s
    }
}

/// Put a line behind the others, and forget the oldest beyond the limit.
pub fn push(activity: &mut VecDeque<String>, line: String)
    ensures
        final(activity)@ == last_of(old(activity)@.push(line), SCROLLBACK as int),
{
    let ghost all = activity@.push(line);
    activity.push_back(line);
    assert(all.skip(0) == all);
    while activity.len() > SCROLLBACK
        invariant
            all.len() > 0,
            activity.len() <= all.len(),
            activity@ == all.skip(all.len() - activity.len()),
            activity.len() >= SCROLLBACK || activity.len() == all.len(),
        decreases activity.len(),
    {
        let ghost before_pop = activity@;
        let _ = activity.pop_front();
        assert(activity@ =~= before_pop.skip(1));
        assert(activity@ =~= all.skip(all.len() - activity.len()));
    }
}

/// Once the lines are within the limit they stay within it.
pub proof fn law_activity_stays_within_the_limit(activity: Seq<String>, line: String)
    requires
        activity.len() <= SCROLLBACK,
    ensures
        last_of(activity.push(line), SCROLLBACK as int).len() <= SCROLLBACK,
        last_of(activity.push(line), SCROLLBACK as int).last() == line,
{
}

/// Whether the terminal says that it shows 24-bit colours: by `COLORTERM`, or
/// by a `-direct` entry in `TERM`.
pub fn truecolor(colorterm: Option<&str>, term: Option<&str>) -> (r: bool)
    ensures
        r == ((colorterm matches Some(value) && (holds(value@, "truecolor"@) || holds(
            value@,
            "24bit"@,
        ))) || (term matches Some(value) && holds(value@, "direct"@))),
{
    let colour: bool = match colorterm {
        Some(value) => contains(value, "truecolor") || contains(value, "24bit"),
        None => false,
    };
    colour || match term {
        Some(value) => contains(value, "direct"),
        None => false,
    }
}

/// Whether a key quits the dashboard: `q`, or Ctrl+C.
pub fn quits(key: Key) -> (r: bool)
    ensures
        r == (key.code == KeyCode::Char('q') || (key.code == KeyCode::Char('c') && key.control)),
{
    key.code == KeyCode::Char('q') || (key.code == KeyCode::Char('c') && key.control)
}

/// Whether the snapshot is taken anew at a frame: at every fifth.
pub fn refreshes(frame: u64) -> (r: bool)
    ensures
        r == (frame % 5 == 0),
{
    frame % 5 == 0
}

/// The picture of the spinner at a frame.
pub open spec fn spinner_at(frame: int) -> Seq<char> {
    let i = frame % 10;
    if i == 0 {
        "⠋"@
    } else if i == 1 {
        "⠙"@
    } else if i == 2 {
        "⠹"@
    } else if i == 3 {
        "⠸"@
    } else if i == 4 {
        "⠼"@
    } else if i == 5 {
        "⠴"@
    } else if i == 6 {
        "⠦"@
    } else if i == 7 {
        "⠧"@
    } else if i == 8 {
        "⠇"@
    } else {
        "⠏"@
    }
}

fn spinner(frame: u64) -> (r: &'static str)
    ensures
        r@ == spinner_at(frame as int),
{
    let i: u64 = frame % 10;
    if i == 0 {
        "⠋"
    } else if i == 1 {
        "⠙"
    } else if i == 2 {
        "⠹"
    } else if i == 3 {
        "⠸"
    } else if i == 4 {
        "⠼"
    } else if i == 5 {
        "⠴"
    } else if i == 6 {
        "⠦"
    } else if i == 7 {
        "⠧"
    } else if i == 8 {
        "⠇"
    } else {
        "⠏"
    }
}

fn with_prefix(prefix: &str, text: &str) -> (r: String)
    ensures
        r@ == prefix@ + text@,
{
    let mut out: String = prefix.to_owned();
    out.append(text);
    out
}

/// A repeated character.
pub open spec fn repeated(c: char, count: int) -> Seq<char> {
    Seq::new(
        if count > 0 {
            count as nat
        } else {
            0
        },
        |i: int| c,
    )
}

/// A divider across the screen, with a title on it.
pub open spec fn rule_row(title: Seq<char>, width: int, accent: Tone) -> Seq<Piece> {
    seq![
        toned(" ── "@, Tone::DarkGray),
        bold(title, accent),
        toned(" "@, Tone::DarkGray),
        toned(repeated('─', width - (title.len() + 6)), Tone::DarkGray),
    ]
}

/// A divider across the screen, with a title on it.
pub fn rule(title: &str, width: u16, accent: Tone) -> (r: Line)
    ensures
        r@ == rule_row(title@, width as int, accent),
{
    let used: usize = chars_of(title).len();
    let total: usize = width as usize;
    let count: usize = if total > used && total - used > 6 {
        total - used - 6
    } else {
        0
    };
    let mut fill: String = String::new();
    let mut i: usize = 0;
    assert(fill@ =~= repeated('─', 0));
    while i < count
        invariant
            i <= count,
            fill@ == repeated('─', i as int),
        decreases count - i,
    {
        fill.push('─');
        i = i + 1;
        assert(fill@ =~= repeated('─', i as int));
    }
    assert(fill@ =~= repeated('─', width - (title@.len() + 6)));
    let mut line: Line = Line::empty();
    line.add(Span::toned(" ── ".to_owned(), Tone::DarkGray));
    line.add(Span::bold(title.to_owned(), accent));
    line.add(Span::toned(" ".to_owned(), Tone::DarkGray));
    line.add(Span::toned(fill, Tone::DarkGray));
    assert(line@ =~= rule_row(title@, width as int, accent));
    line
}

/// The line with the title and what is watched.
pub open spec fn title_row(frame: int, repo: Seq<char>, git_ref: Option<Seq<char>>) -> Seq<Piece> {
    seq![
        toned(" "@ + spinner_at(frame) + " "@, Tone::Magenta),
        bold("t"@, Tone::Shimmer(0)),
        bold("i"@, Tone::Shimmer(1)),
        bold("n"@, Tone::Shimmer(2)),
        bold("y"@, Tone::Shimmer(3)),
        bold("c"@, Tone::Shimmer(4)),
        bold("d"@, Tone::Shimmer(5)),
        toned("  "@ + repo, Tone::White),
    ] + match git_ref {
        Some(git_ref) => seq![toned(" @ "@, Tone::DarkGray), toned(git_ref, Tone::Yellow)],
        None => seq![],
    }
}

/// A part behind a separator.
pub open spec fn separated(text: Seq<char>, tone: Tone) -> Seq<Piece> {
    seq![toned("  ·  "@, Tone::DarkGray), toned(text, tone)]
}

/// The line with the state of the server and of the daemon.
pub open spec fn state_row(
    server_up: bool,
    poll: Option<u64>,
    hook: Option<Seq<char>>,
    root: Seq<char>,
) -> Seq<Piece> {
    seq![toned("   "@, Tone::Plain)] + (if server_up {
        seq![toned("●"@, Tone::ServerGlow), toned(" server up"@, Tone::Green)]
    } else {
        seq![toned("●"@, Tone::Red), toned(" server down"@, Tone::Red)]
    }) + (match poll {
        Some(seconds) => separated(
            "polling every "@ + decimal_of(seconds as int) + "s"@,
            Tone::Cyan,
        ),
        None => seq![],
    }) + (match hook {
        Some(address) => separated("hook on "@ + address, Tone::Cyan),
        None => seq![],
    }) + separated("root "@ + root, Tone::DarkGray)
}

/// What the daemon was configured with.
pub struct Watched<'a> {
    pub repo: &'a str,
    pub git_ref: Option<&'a str>,
    pub poll: Option<u64>,
    pub hook: Option<&'a str>,
    pub root: &'a str,
}

fn title(frame: u64, repo: &str, git_ref: Option<&str>) -> (r: Line)
    ensures
        r@ == title_row(frame as int, repo@, optional(git_ref)),
{
    let mut line: Line = Line::empty();
    let mut mark: String = with_prefix(" ", spinner(frame));
    mark.append(" ");
    line.add(Span::toned(mark, Tone::Magenta));
    line.add(Span::bold("t".to_owned(), Tone::Shimmer(0)));
    line.add(Span::bold("i".to_owned(), Tone::Shimmer(1)));
    line.add(Span::bold("n".to_owned(), Tone::Shimmer(2)));
    line.add(Span::bold("y".to_owned(), Tone::Shimmer(3)));
    line.add(Span::bold("c".to_owned(), Tone::Shimmer(4)));
    line.add(Span::bold("d".to_owned(), Tone::Shimmer(5)));
    line.add(Span::toned(with_prefix("  ", repo), Tone::White));
    if let Some(git_ref) = git_ref {
        line.add(Span::toned(" @ ".to_owned(), Tone::DarkGray));
        line.add(Span::toned(git_ref.to_owned(), Tone::Yellow));
    }
    assert(line@ =~= title_row(frame as int, repo@, optional(git_ref)));
    line
}

fn add_separated(line: &mut Line, text: String, tone: Tone)
    ensures
        final(line)@ == old(line)@ + separated(text@, tone),
{
    let ghost front = line@;
    line.add(Span::toned("  ·  ".to_owned(), Tone::DarkGray));
    line.add(Span::toned(text, tone));
    assert(line@ =~= front + separated(text@, tone));
}

fn state(server_up: bool, watched: &Watched) -> (r: Line)
    ensures
        r@ == state_row(server_up, watched.poll, optional(watched.hook), watched.root@),
{
    let mut line: Line = Line::empty();
    line.add(Span::toned("   ".to_owned(), Tone::Plain));
    if server_up {
        line.add(Span::toned("●".to_owned(), Tone::ServerGlow));
        line.add(Span::toned(" server up".to_owned(), Tone::Green));
    } else {
        line.add(Span::toned("●".to_owned(), Tone::Red));
        line.add(Span::toned(" server down".to_owned(), Tone::Red));
    }
    if let Some(seconds) = watched.poll {
        let mut text: String = with_prefix("polling every ", decimal(seconds).as_str());
        text.append("s");
        add_separated(&mut line, text, Tone::Cyan);
    }
    if let Some(address) = watched.hook {
        add_separated(&mut line, with_prefix("hook on ", address), Tone::Cyan);
    }
    add_separated(&mut line, with_prefix("root ", watched.root), Tone::DarkGray);
    assert(line@ =~= state_row(
        server_up,
        watched.poll,
        optional(watched.hook),
        watched.root@,
    ));
    line
}

/// The header: an empty line, the title, and the state.
pub fn header(frame: u64, server_up: bool, watched: &Watched) -> (r: Vec<Line>)
    ensures
        rows(r@) == seq![
            Seq::empty(),
            title_row(frame as int, watched.repo@, optional(watched.git_ref)),
            state_row(server_up, watched.poll, optional(watched.hook), watched.root@),
        ],
{
    let mut lines: Vec<Line> = Vec::new();
    add_line(&mut lines, Line::empty());
    add_line(&mut lines, title(frame, watched.repo, watched.git_ref));
    add_line(&mut lines, state(server_up, watched));
    assert(rows(lines@) =~= seq![
        Seq::empty(),
        title_row(frame as int, watched.repo@, optional(watched.git_ref)),
        state_row(server_up, watched.poll, optional(watched.hook), watched.root@),
    ]);
    lines
}

/// Whether a commit can be cut behind its twelfth byte.
pub open spec fn cuttable(commit: Seq<char>) -> bool {
    encode_utf8(commit).len() <= 12 || is_char_boundary(encode_utf8(commit), 12)
}

/// The first twelve bytes of a commit.
pub open spec fn short_commit(commit: Seq<char>) -> Seq<char> {
    if encode_utf8(commit).len() <= 12 {
        commit
    } else {
        decode_utf8(encode_utf8(commit).subrange(0, 12))
    }
}

/// The first twelve bytes of a commit.
pub fn shorten(commit: &str) -> (r: String)
    requires
        cuttable(commit@),
    ensures
        r@ == short_commit(commit@),
{
    if commit.as_bytes().len() <= 12 {
        commit.to_owned()
    } else {
        let front: &str = commit.split_at(12).0;
        proof {
            assert(encode_utf8(front@) =~= encode_utf8(commit@).subrange(0, 12));
            encode_utf8_decode_utf8(front@);
        }
        front.to_owned()
    }
}

/// Of a commit in ASCII, as Git prints it, the first twelve characters are
/// shown.
pub proof fn law_ascii_commit_is_cut_to_twelve(commit: Seq<char>)
    requires
        is_ascii_chars(commit),
    ensures
        commit.len() <= 12 ==> short_commit(commit) == commit,
        commit.len() > 12 ==> short_commit(commit) == commit.take(12),
{
    is_ascii_chars_encode_utf8(commit);
    if commit.len() > 12 {
        let front = commit.take(12);
        is_ascii_chars_encode_utf8(front);
        assert(encode_utf8(commit).subrange(0, 12) =~= encode_utf8(front));
        encode_utf8_decode_utf8(front);
    }
}

/// What is said of the age of a release.
pub open spec fn ago(id: Seq<char>, now: Option<u64>) -> Seq<char> {
    match age_of(id, now) {
        Some(seconds) => age_text(seconds) + " ago"@,
        None => Seq::empty(),
    }
}

/// The line of a release.
pub open spec fn release_row(
    id: Seq<char>,
    building: bool,
    current: bool,
    head: Option<Seq<char>>,
    now: Option<u64>,
    frame: int,
) -> Seq<Piece> {
    (if current {
        seq![
            toned(" ● "@, Tone::ReleaseGlow),
            bold(id, Tone::Cyan),
            toned("  "@ + ago(id, now), Tone::DarkGray),
            toned("  current"@, Tone::Green),
        ] + match head {
            Some(head) => seq![toned("  "@ + short_commit(head), Tone::Yellow)],
            None => seq![],
        }
    } else {
        seq![
            toned("   "@, Tone::Plain),
            toned(id, Tone::Gray),
            toned("  "@ + ago(id, now), Tone::DarkGray),
        ]
    }) + if building {
        seq![toned("  "@ + spinner_at(frame) + " building"@, Tone::Yellow)]
    } else {
        seq![]
    }
}

fn release_line(
    id: &str,
    building: bool,
    current: bool,
    head: Option<&str>,
    now: Option<u64>,
    frame: u64,
) -> (r: Line)
    requires
        current ==> (head matches Some(commit) ==> cuttable(commit@)),
    ensures
        r@ == release_row(id@, building, current, optional(head), now, frame as int),
{
    let mut age: String = "  ".to_owned();
    if let Some(seconds) = release_age(id, now) {
        age.append(format_age(seconds).as_str());
        age.append(" ago");
    }
    assert(age@ =~= "  "@ + ago(id@, now));
    let mut line: Line = Line::empty();
    if current {
        line.add(Span::toned(" ● ".to_owned(), Tone::ReleaseGlow));
        line.add(Span::bold(id.to_owned(), Tone::Cyan));
        line.add(Span::toned(age, Tone::DarkGray));
        line.add(Span::toned("  current".to_owned(), Tone::Green));
        if let Some(commit) = head {
            line.add(Span::toned(with_prefix("  ", shorten(commit).as_str()), Tone::Yellow));
        }
    } else {
        line.add(Span::toned("   ".to_owned(), Tone::Plain));
        line.add(Span::toned(id.to_owned(), Tone::Gray));
        line.add(Span::toned(age, Tone::DarkGray));
    }
    if building {
        let mut text: String = with_prefix("  ", spinner(frame));
        text.append(" building");
        line.add(Span::toned(text, Tone::Yellow));
    }
    assert(line@ =~= release_row(id@, building, current, optional(head), now, frame as int));
    line
}

/// The first place at which the current release stands, or the number of
/// releases when it is not among them.
pub open spec fn current_at(releases: Seq<(Seq<char>, bool)>, current: Option<Seq<char>>) -> int
    decreases releases.len(),
{
    if releases.len() == 0 || Some(releases[0].0) == current {
        0
    } else {
        1 + current_at(releases.skip(1), current)
    }
}

/// The releases that get a row: the newest six; where the current one is among
/// the others, it stands in place of the sixth.
pub open spec fn shown_of(
    releases: Seq<(Seq<char>, bool)>,
    current: Option<Seq<char>>,
) -> Seq<(Seq<char>, bool)> {
    let at = current_at(releases, current);
    if releases.len() <= ROWS {
        releases
    } else if ROWS <= at < releases.len() {
        releases.take(ROWS - 1).push(releases[at])
    } else {
        releases.take(ROWS as int)
    }
}

/// The lines of the releases that get a row, or that there are none.
pub open spec fn release_rows(
    releases: Seq<(Seq<char>, bool)>,
    current: Option<Seq<char>>,
    head: Option<Seq<char>>,
    now: Option<u64>,
    frame: int,
) -> Seq<Seq<Piece>> {
    if releases.len() == 0 {
        seq![seq![toned("   none yet"@, Tone::DarkGray)]]
    } else {
        shown_of(releases, current).map_values(
            |release: (Seq<char>, bool)|
                release_row(release.0, release.1, current == Some(release.0), head, now, frame),
        )
    }
}

/// Whether no two releases have the same name.
pub open spec fn distinct(releases: Seq<(Seq<char>, bool)>) -> bool {
    forall|i: int, j: int|
        0 <= i < j < releases.len() ==> (#[trigger] releases[i]).0 != (#[trigger] releases[j]).0
}

proof fn lemma_current_at(releases: Seq<(Seq<char>, bool)>, current: Option<Seq<char>>)
    ensures
        0 <= current_at(releases, current) <= releases.len(),
        current_at(releases, current) < releases.len() ==> Some(
            releases[current_at(releases, current)].0,
        ) == current,
        forall|i: int|
            0 <= i < current_at(releases, current) ==> Some((#[trigger] releases[i]).0) != current,
    decreases releases.len(),
{
    if releases.len() > 0 && Some(releases[0].0) != current {
        let rest = releases.skip(1);
        lemma_current_at(rest, current);
        assert forall|i: int| 0 <= i < current_at(releases, current) implies Some(
            (#[trigger] releases[i]).0,
        ) != current by {
            if i > 0 {
                assert(rest[i - 1] == releases[i]);
            }
        }
    }
}

/// The current release, if it is among the releases, has a row that is marked
/// as current, and every other row is one of another release, without the mark.
pub proof fn law_current_release_is_marked(
    releases: Seq<(Seq<char>, bool)>,
    current: Seq<char>,
    head: Option<Seq<char>>,
    now: Option<u64>,
    frame: int,
    at: int,
)
    requires
        distinct(releases),
        0 <= at < releases.len(),
        releases[at].0 == current,
    ensures
        ({
            let shown = shown_of(releases, Some(current));
            let rows = release_rows(releases, Some(current), head, now, frame);
            &&& rows.len() == shown.len()
            &&& shown.len() <= ROWS
            &&& exists|k: int|
                {
                    &&& 0 <= k < shown.len()
                    &&& #[trigger] shown[k] == releases[at]
                    &&& rows[k] == release_row(current, releases[at].1, true, head, now, frame)
                    &&& forall|i: int|
                        0 <= i < shown.len() && i != k ==> {
                            &&& (#[trigger] shown[i]).0 != current
                            &&& rows[i] == release_row(
                                shown[i].0,
                                shown[i].1,
                                false,
                                head,
                                now,
                                frame,
                            )
                        }
                }
        }),
{
    let found = current_at(releases, Some(current));
    let shown = shown_of(releases, Some(current));
    let rows = release_rows(releases, Some(current), head, now, frame);
    lemma_current_at(releases, Some(current));
    assert(Some(releases[at].0) == Some(current));
    if at < found {
        assert(Some(releases[at].0) != Some(current));
    } else if found < at {
        assert(releases[found].0 != releases[at].0);
    }
    assert(found == at);
    let k = if releases.len() > ROWS && at >= ROWS {
        ROWS - 1
    } else {
        at
    };
    assert(shown[k] == releases[at]);
    assert forall|i: int| 0 <= i < shown.len() && i != k implies {
        &&& (#[trigger] shown[i]).0 != current
        &&& rows[i] == release_row(shown[i].0, shown[i].1, false, head, now, frame)
    } by {
        assert(shown[i] == releases[i]);
        if i < at {
            assert(releases[i].0 != releases[at].0);
        } else {
            assert(releases[at].0 != releases[i].0);
        }
    }
}

fn find_current(releases: &Vec<(String, bool)>, current: &Option<String>) -> (r: usize)
    ensures
        r == current_at(flagged(releases@), text_of(*current)),
        r <= releases.len(),
{
    let ghost all = flagged(releases@);
    let mut i: usize = 0;
    assert(all.skip(0) == all);
    while i < releases.len()
        invariant
            all == flagged(releases@),
            i <= releases.len(),
            current_at(all, text_of(*current)) == i + current_at(
                all.skip(i as int),
                text_of(*current),
            ),
        decreases releases.len() - i,
    {
        assert(all.skip(i as int)[0] == (releases@[i as int].0@, releases@[i as int].1));
        assert(all.skip(i as int).skip(1) == all.skip(i + 1));
        if let Some(live) = current {
            if same(live.as_str(), releases[i].0.as_str()) {
                return i;
            }
        }
        i = i + 1;
    }
    i
}

/// The lines of the releases that get a row: the newest, at most six, with the
/// current one among them; or that there are none.
pub fn release_lines(snapshot: &Snapshot, now: Option<u64>, frame: u64) -> (r: Vec<Line>)
    requires
        (exists|i: int|
            0 <= i < snapshot.releases.len() && Some((#[trigger] snapshot.releases@[i]).0@)
                == text_of(snapshot.current)) ==> (snapshot.head matches Some(commit) ==> cuttable(
            commit@,
        )),
    ensures
        rows(r@) == release_rows(
            flagged(snapshot.releases@),
            text_of(snapshot.current),
            text_of(snapshot.head),
            now,
            frame as int,
        ),
{
    let ghost all = flagged(snapshot.releases@);
    let ghost shown = shown_of(all, text_of(snapshot.current));
    let ghost wanted = release_rows(
        all,
        text_of(snapshot.current),
        text_of(snapshot.head),
        now,
        frame as int,
    );
    let mut lines: Vec<Line> = Vec::new();
    let n: usize = snapshot.releases.len();
    if n == 0 {
        add_line(&mut lines, Line::of(Span::toned("   none yet".to_owned(), Tone::DarkGray)));
        assert(rows(lines@) =~= wanted);
        return lines;
    }
    let count: usize = if n > ROWS {
        ROWS
    } else {
        n
    };
    let found: usize = find_current(&snapshot.releases, &snapshot.current);
    let head: Option<&str> = match &snapshot.head {
        Some(commit) => Some(commit.as_str()),
        None => None,
    };
    let mut i: usize = 0;
    assert(rows(lines@) =~= wanted.take(0));
    while i < count
        invariant
            all == flagged(snapshot.releases@),
            shown == shown_of(all, text_of(snapshot.current)),
            wanted == release_rows(
                all,
                text_of(snapshot.current),
                text_of(snapshot.head),
                now,
                frame as int,
            ),
            n == snapshot.releases.len(),
            n > 0,
            count == (if n > ROWS {
                ROWS
            } else {
                n
            }),
            found == current_at(all, text_of(snapshot.current)),
            found <= n,
            optional(head) == text_of(snapshot.head),
            (exists|i: int|
                0 <= i < snapshot.releases.len() && Some((#[trigger] snapshot.releases@[i]).0@)
                    == text_of(snapshot.current)) ==> (snapshot.head matches Some(commit)
                ==> cuttable(commit@)),
            i <= count,
            rows(lines@) == wanted.take(i as int),
        decreases count - i,
    {
        let at: usize = if i + 1 == ROWS && found >= ROWS && found < n {
            found
        } else {
            i
        };
        let id: &str = snapshot.releases[at].0.as_str();
        let current: bool = match &snapshot.current {
            Some(live) => same(live.as_str(), id),
            None => false,
        };
        assert(all[at as int] == (id@, snapshot.releases@[at as int].1));
        assert(shown[i as int] == all[at as int]);
        assert(current == (text_of(snapshot.current) == Some(id@)));
        let line: Line = release_line(id, snapshot.releases[at].1, current, head, now, frame);
        assert(wanted[i as int] == line@);
        add_line(&mut lines, line);
        i = i + 1;
        assert(rows(lines@) =~= wanted.take(i as int));
    }
    assert(shown.len() == count);
    assert(wanted.take(i as int) == wanted);
    lines
}

/// The number of lines that the releases take.
pub fn releases_height(count: usize) -> (r: u16)
    ensures
        r == (if count < 1 {
            1
        } else if count > 6 {
            6
        } else {
            count as int
        }),
{
    if count < 1 {
        1
    } else if count > 6 {
        6
    } else {
        count as u16
    }
}

/// The colour of a line of activity.
pub open spec fn activity_tone(line: Seq<char>) -> Tone {
    if holds(line, "failed"@) || begins(line, "error"@) {
        Tone::Red
    } else if begins(line, "deployed"@) {
        Tone::Green
    } else if begins(line, "running "@) {
        Tone::Yellow
    } else if begins(line, "tracking"@) || begins(line, "listening"@) || begins(
        line,
        "deployments in"@,
    ) {
        Tone::Cyan
    } else if begins(line, "shutting down"@) {
        Tone::Magenta
    } else {
        Tone::Gray
    }
}

/// A line of activity: that of a deployment is bold, and all but the newest are
/// dim.
pub open spec fn activity_row(line: Seq<char>, newest: bool) -> Seq<Piece> {
    seq![
        Piece {
            text: " "@ + line,
            tone: activity_tone(line),
            bold: activity_tone(line) == Tone::Green,
            dim: !newest,
        },
    ]
}

/// The last lines of the activity, as many as are visible.
pub open spec fn activity_rows(lines: Seq<Seq<char>>, visible: int) -> Seq<Seq<Piece>> {
    let shown = last_of(lines, visible);
    Seq::new(shown.len(), |i: int| activity_row(shown[i], i + 1 == shown.len()))
}

fn tone_of(line: &str) -> (r: Tone)
    ensures
        r == activity_tone(line@),
{
    if contains(line, "failed") || starts_with(line, "error") {
        Tone::Red
    } else if starts_with(line, "deployed") {
        Tone::Green
    } else if starts_with(line, "running ") {
        Tone::Yellow
    } else if starts_with(line, "tracking") || starts_with(line, "listening") || starts_with(
        line,
        "deployments in",
    ) {
        Tone::Cyan
    } else if starts_with(line, "shutting down") {
        Tone::Magenta
    } else {
        Tone::Gray
    }
}

/// The last lines of the activity, as many as are visible.
pub fn activity_lines(activity: &VecDeque<String>, visible: usize) -> (r: Vec<Line>)
    ensures
        rows(r@) == activity_rows(texts(activity@), visible as int),
{
    let n: usize = activity.len();
    let ghost all = texts(activity@);
    let from: usize = if n > visible {
        n - visible
    } else {
        0
    };
    let ghost shown = last_of(all, visible as int);
    let ghost wanted = activity_rows(all, visible as int);
    assert(all.len() == n);
    assert(all.skip(0) == all);
    assert(shown == all.skip(from as int));
    let mut lines: Vec<Line> = Vec::new();
    let mut i: usize = from;
    assert(rows(lines@) =~= wanted.take(0));
    while i < n
        invariant
            n == activity.len(),
            all == texts(activity@),
            from <= i <= n,
            shown == last_of(all, visible as int),
            shown == all.skip(from as int),
            wanted == activity_rows(all, visible as int),
            rows(lines@) == wanted.take(i - from),
        decreases n - i,
    {
        let text: &str = activity[i].as_str();
        assert(shown[i - from] == all[i as int]);
        assert(all[i as int] == text@);
        let tone: Tone = tone_of(text);
        let span: Span = Span {
            text: with_prefix(" ", text),
            tone,
            bold: tone == Tone::Green,
            dim: i + 1 < n,
        };
        assert(wanted[i - from] == seq![span@]);
        add_line(&mut lines, Line::of(span));
        i = i + 1;
        assert(rows(lines@) =~= wanted.take(i - from));
    }
    assert(wanted.take(i - from) == wanted);
    lines
}

/// The footer.
pub fn footer() -> (r: Line)
    ensures
        r@ == seq![toned(" q quit"@, Tone::DarkGray)],
{
    Line::of(Span::toned(" q quit".to_owned(), Tone::DarkGray))
}

/// The last of a sequence are a stretch at its end: as many as are asked for, or
/// all of them where there are fewer.
pub proof fn law_last_of<T>(s: Seq<T>, count: int, i: int)
    requires
        count >= 0,
    ensures
        last_of(s, count).len() == if s.len() < count {
            s.len() as int
        } else {
            count
        },
        0 <= i < last_of(s, count).len() ==> last_of(s, count)[i] == s[s.len() - last_of(
            s,
            count,
        ).len() + i],
{
}

/// A new line of activity stands last. Up to three hundred lines are kept, and
/// when there are more the oldest one is forgotten.
pub proof fn law_oldest_activity_is_forgotten(activity: Seq<String>, line: String)
    requires
        activity.len() <= 300,
    ensures
        activity.len() < 300 ==> last_of(activity.push(line), SCROLLBACK as int) == activity.push(
            line,
        ),
        activity.len() == 300 ==> last_of(activity.push(line), SCROLLBACK as int) == activity.skip(
            1,
        ).push(line),
{
    if activity.len() == 300 {
        assert(last_of(activity.push(line), 300) =~= activity.skip(1).push(line));
    }
}

/// The spinner turns through ten pictures, one for each frame, and then begins
/// again: two frames have the same picture exactly when ten or a multiple of ten
/// lies between them.
pub proof fn law_spinner_turns(frame: int, other: int)
    requires
        frame >= 0,
        other >= 0,
    ensures
        spinner_at(frame) == seq!["⠋⠙⠹⠸⠼⠴⠦⠧⠇⠏"@[frame % 10]],
        spinner_at(frame) == spinner_at(other) <==> frame % 10 == other % 10,
{
    lemma_spinner(frame);
    lemma_spinner(other);
    reveal_strlit("⠋⠙⠹⠸⠼⠴⠦⠧⠇⠏");
    assert(spinner_at(frame) == spinner_at(other) ==> spinner_at(frame)[0] == spinner_at(other)[0]);
}

proof fn lemma_spinner(frame: int)
    requires
        frame >= 0,
    ensures
        spinner_at(frame) == seq!["⠋⠙⠹⠸⠼⠴⠦⠧⠇⠏"@[frame % 10]],
{
    reveal_strlit("⠋⠙⠹⠸⠼⠴⠦⠧⠇⠏");
    reveal_strlit("⠋");
    reveal_strlit("⠙");
    reveal_strlit("⠹");
    reveal_strlit("⠸");
    reveal_strlit("⠼");
    reveal_strlit("⠴");
    reveal_strlit("⠦");
    reveal_strlit("⠧");
    reveal_strlit("⠇");
    reveal_strlit("⠏");
    assert(spinner_at(frame) =~= seq!["⠋⠙⠹⠸⠼⠴⠦⠧⠇⠏"@[frame % 10]]);
}

/// A divider shows its title in the accent, and with the line behind it it takes
/// the whole width but one column, where there is room for it.
pub proof fn law_rule(title: Seq<char>, width: int, accent: Tone)
    ensures
        ({
            let row = rule_row(title, width, accent);
            &&& row.len() == 4
            &&& row[1].text == title && row[1].tone == accent && row[1].bold
            &&& width >= title.len() + 6 ==> row[0].text.len() + row[1].text.len()
                + row[2].text.len() + row[3].text.len() == width - 1
            &&& width < title.len() + 6 ==> row[3].text.len() == 0
            &&& forall|i: int| 0 <= i < row[3].text.len() ==> #[trigger] row[3].text[i] == '─'
            &&& row[0].tone == Tone::DarkGray && row[2].tone == Tone::DarkGray && row[3].tone
                == Tone::DarkGray
        }),
{
    reveal_strlit(" ── ");
    reveal_strlit(" ");
}

/// The title names the repository, and the reference exactly where there is one.
pub proof fn law_title(frame: int, repo: Seq<char>, git_ref: Option<Seq<char>>)
    ensures
        ({
            let row = title_row(frame, repo, git_ref);
            &&& row[0].text == " "@ + spinner_at(frame) + " "@
            &&& row[0].tone == Tone::Magenta
            &&& forall|i: int|
                1 <= i < 7 ==> (#[trigger] row[i]).tone == Tone::Shimmer((i - 1) as usize)
                    && row[i].bold && row[i].text.len() == 1
            &&& row[1].text + row[2].text + row[3].text + row[4].text + row[5].text + row[6].text
                == "tinycd"@
            &&& row[7].text == "  "@ + repo && row[7].tone == Tone::White
            &&& git_ref is None ==> row.len() == 8
            &&& git_ref matches Some(name) ==> row.len() == 10 && row[9].text == name && row[9].tone
                == Tone::Yellow && row[8].tone == Tone::DarkGray
        }),
{
    reveal_strlit("t");
    reveal_strlit("i");
    reveal_strlit("n");
    reveal_strlit("y");
    reveal_strlit("c");
    reveal_strlit("d");
    reveal_strlit("tinycd");
    assert("t"@ + "i"@ + "n"@ + "y"@ + "c"@ + "d"@ =~= "tinycd"@);
}

/// The line of the state tells whether the server is up, how often the remote is
/// polled and where the webhook listens, each of these exactly where it is done,
/// and last where the root is.
pub proof fn law_state(
    server_up: bool,
    poll: Option<u64>,
    hook: Option<Seq<char>>,
    root: Seq<char>,
)
    ensures
        ({
            let row = state_row(server_up, poll, hook, root);
            let polled: int = if poll is Some {
                2
            } else {
                0
            };
            let hooked: int = if hook is Some {
                2
            } else {
                0
            };
            &&& row.len() == 5 + polled + hooked
            &&& server_up ==> row[2].text == " server up"@ && row[2].tone == Tone::Green
                && row[1].tone == Tone::ServerGlow
            &&& !server_up ==> row[2].text == " server down"@ && row[2].tone == Tone::Red
                && row[1].tone == Tone::Red
            &&& poll matches Some(seconds) ==> row[4].text == "polling every "@ + decimal_of(
                seconds as int,
            ) + "s"@ && row[4].tone == Tone::Cyan
            &&& hook matches Some(address) ==> row[4 + polled].text == "hook on "@ + address && row[4
                + polled].tone == Tone::Cyan
            &&& row.last().text == "root "@ + root && row.last().tone == Tone::DarkGray
        }),
{
}

/// What is said of an age is the age, and nothing where it is not known.
pub proof fn law_ago(id: Seq<char>, now: Option<u64>)
    ensures
        age_of(id, now) is None ==> ago(id, now).len() == 0,
        age_of(id, now) matches Some(seconds) ==> ago(id, now) == age_text(seconds) + " ago"@,
{
}

/// The row of a release shows its name and its age. The current one, and no
/// other, is marked as current, with its commit where that is known; and one that
/// is being built is marked as such.
pub proof fn law_release_row(
    id: Seq<char>,
    building: bool,
    current: bool,
    head: Option<Seq<char>>,
    now: Option<u64>,
    frame: int,
)
    ensures
        ({
            let row = release_row(id, building, current, head, now, frame);
            let extra: int = if current {
                if head is Some {
                    2
                } else {
                    1
                }
            } else {
                0
            };
            let built: int = if building {
                1
            } else {
                0
            };
            &&& row.len() == 3 + extra + built
            &&& row[0].tone == if current {
                Tone::ReleaseGlow
            } else {
                Tone::Plain
            }
            &&& row[1].text == id
            &&& row[1].bold <==> current
            &&& row[1].tone == if current {
                Tone::Cyan
            } else {
                Tone::Gray
            }
            &&& row[2].text == "  "@ + ago(id, now) && row[2].tone == Tone::DarkGray
            &&& current ==> row[3].text == "  current"@ && row[3].tone == Tone::Green
            &&& current && head is Some ==> row[4].text == "  "@ + short_commit(head->0)
                && row[4].tone == Tone::Yellow
            &&& building ==> row.last().text == "  "@ + spinner_at(frame) + " building"@
                && row.last().tone == Tone::Yellow
        }),
{
}

/// Up to six releases are all shown. Of more, the newest six are shown; only where
/// the current one is not among these, it is shown behind the newest five.
pub proof fn law_shown_releases(
    releases: Seq<(Seq<char>, bool)>,
    current: Option<Seq<char>>,
    at: int,
)
    requires
        0 <= at <= releases.len(),
        at < releases.len() ==> Some(releases[at].0) == current,
        forall|i: int| 0 <= i < at ==> Some((#[trigger] releases[i]).0) != current,
    ensures
        releases.len() <= 6 ==> shown_of(releases, current) == releases,
        releases.len() > 6 && (at < 6 || at == releases.len()) ==> shown_of(releases, current)
            == releases.take(6),
        releases.len() > 6 && 6 <= at < releases.len() ==> shown_of(releases, current)
            == releases.take(5).push(releases[at]),
{
    lemma_current_at(releases, current);
    let found = current_at(releases, current);
    if found < at {
        assert(Some(releases[found].0) != current);
    } else if at < found {
        assert(Some(releases[at].0) != current);
    }
}

/// Each release that is shown has a row of its own, in order, and only a folder
/// without releases says that there are none.
pub proof fn law_rows_of_releases(
    releases: Seq<(Seq<char>, bool)>,
    current: Option<Seq<char>>,
    head: Option<Seq<char>>,
    now: Option<u64>,
    frame: int,
    i: int,
)
    ensures
        ({
            let shown = shown_of(releases, current);
            let rows = release_rows(releases, current, head, now, frame);
            &&& releases.len() == 0 ==> rows == seq![seq![toned("   none yet"@, Tone::DarkGray)]]
            &&& releases.len() > 0 ==> rows.len() == shown.len()
            &&& releases.len() > 0 && 0 <= i < shown.len() ==> rows[i] == release_row(
                shown[i].0,
                shown[i].1,
                current == Some(shown[i].0),
                head,
                now,
                frame,
            )
        }),
{
}

/// A line that tells of a failure is red, whatever else it says; otherwise one of
/// a deployment is green, one of a command yellow, one of the start of the daemon
/// cyan and one of its end magenta. Every other line is gray.
pub proof fn law_activity_tone(line: Seq<char>)
    ensures
        ({
            let bad = holds(line, "failed"@) || begins(line, "error"@);
            let deployed = begins(line, "deployed"@);
            let running = begins(line, "running "@);
            let starting = begins(line, "tracking"@) || begins(line, "listening"@) || begins(
                line,
                "deployments in"@,
            );
            let ending = begins(line, "shutting down"@);
            let tone = activity_tone(line);
            &&& tone == Tone::Red <==> bad
            &&& tone == Tone::Green <==> !bad && deployed
            &&& tone == Tone::Yellow <==> !bad && !deployed && running
            &&& tone == Tone::Cyan <==> !bad && !deployed && !running && starting
            &&& tone == Tone::Magenta <==> !bad && !deployed && !running && !starting && ending
            &&& tone == Tone::Gray <==> !(bad || deployed || running || starting || ending)
        }),
{
}

/// As many of the last lines of activity are shown as are visible, in order, each
/// with a space before it. The newest alone is not dim, and those of a deployment
/// alone are bold.
pub proof fn law_activity_rows(lines: Seq<Seq<char>>, visible: int, i: int)
    requires
        visible >= 0,
    ensures
        ({
            let rows = activity_rows(lines, visible);
            let n = rows.len() as int;
            &&& n == if lines.len() < visible {
                lines.len() as int
            } else {
                visible
            }
            &&& 0 <= i < n ==> {
                let line = lines[lines.len() - n + i];
                &&& rows[i].len() == 1
                &&& rows[i][0].text == " "@ + line
                &&& rows[i][0].tone == activity_tone(line)
                &&& rows[i][0].bold <==> rows[i][0].tone == Tone::Green
                &&& rows[i][0].dim <==> i < n - 1
            }
        }),
{
}

/// The releases take one line at least, six at most, and else one each.
pub proof fn law_releases_height(count: usize, height: u16)
    requires
        call_ensures(releases_height, (count,), height),
    ensures
        1 <= height <= 6,
        1 <= count <= 6 ==> height == count,
        count > 6 ==> height == 6,
{
}

/// The dashboard ends by `q`, with whatever modifiers, and by Ctrl+C; by no other
/// key.
pub proof fn law_what_quits(key: Key, ends: bool)
    requires
        call_ensures(quits, (key,), ends),
    ensures
        key.code == KeyCode::Char('q') ==> ends,
        key.code == KeyCode::Char('c') ==> (ends <==> key.control),
        key.code != KeyCode::Char('q') && key.code != KeyCode::Char('c') ==> !ends,
{
}

/// The terminal shows 24-bit colours exactly when one of its two variables says
/// so.
pub proof fn law_truecolor(colorterm: Option<&str>, term: Option<&str>, shows: bool)
    requires
        call_ensures(truecolor, (colorterm, term), shows),
    ensures
        colorterm matches Some(value) ==> (holds(value@, "truecolor"@) ==> shows),
        colorterm matches Some(value) ==> (holds(value@, "24bit"@) ==> shows),
        term matches Some(value) ==> (holds(value@, "direct"@) ==> shows),
        colorterm is None && term is None ==> !shows,
        shows && term is None ==> holds(colorterm->0@, "truecolor"@) || holds(
            colorterm->0@,
            "24bit"@,
        ),
        shows && colorterm is None ==> holds(term->0@, "direct"@),
{
}

/// The snapshot is taken anew once in every five frames.
pub proof fn law_refreshes(frame: u64, later: u64, now: bool, then: bool)
    requires
        call_ensures(refreshes, (frame,), now),
        call_ensures(refreshes, (later,), then),
        frame < later,
    ensures
        now && then ==> later - frame >= 5,
        now && later == frame + 5 ==> then,
{
}

} // verus!
