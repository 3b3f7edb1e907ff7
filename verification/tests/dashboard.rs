use std::collections::VecDeque;

use tinycd::dashboard::{
    activity_lines, footer, header, push, quits, refreshes, release_lines, releases_height, rule,
    shorten, truecolor, Watched,
};
use tinycd::screen::{Key, KeyCode, Line, Tone};
use tinycd::status::Snapshot;

fn text(line: &Line) -> String {
    line.spans.iter().map(|span| span.text.as_str()).collect()
}

#[test]
fn the_feed_keeps_the_last_lines() {
    let mut feed = VecDeque::new();
    for i in 0..305 {
        push(&mut feed, format!("line {i}"));
    }
    assert_eq!(feed.len(), 300);
    assert_eq!(feed[0], "line 5");
    assert_eq!(feed[299], "line 304");
}

#[test]
fn colours_of_the_terminal() {
    assert!(truecolor(Some("truecolor"), None));
    assert!(truecolor(Some("x-24bit-x"), Some("xterm")));
    assert!(truecolor(None, Some("xterm-direct")));
    assert!(!truecolor(Some("yes"), Some("xterm-256color")));
    assert!(!truecolor(None, None));
}

#[test]
fn keys_that_quit() {
    let key = |code: KeyCode, control: bool| Key {
        code,
        control,
        alt: false,
    };
    assert!(quits(key(KeyCode::Char('q'), false)));
    assert!(quits(key(KeyCode::Char('c'), true)));
    assert!(!quits(key(KeyCode::Char('c'), false)));
    assert!(!quits(key(KeyCode::Esc, false)));
}

#[test]
fn every_fifth_frame_looks_again() {
    assert!(refreshes(0));
    assert!(!refreshes(4));
    assert!(refreshes(15));
}

#[test]
fn a_rule_fills_the_width() {
    let line = rule("releases", 20, Tone::Magenta);
    assert_eq!(text(&line), " ── releases ──────");
    assert_eq!(line.spans[1].tone, Tone::Magenta);
    assert!(line.spans[1].bold);
    assert_eq!(text(&rule("releases", 3, Tone::Magenta)), " ── releases ");
}

#[test]
fn the_header_says_what_is_watched() {
    let watched = Watched {
        repo: "git@h:p",
        git_ref: Some("main"),
        poll: Some(30),
        hook: Some("127.0.0.1:8080"),
        root: "/srv",
    };
    let lines = header(12, true, &watched);
    assert_eq!(lines.len(), 3);
    assert_eq!(text(&lines[0]), "");
    assert_eq!(text(&lines[1]), " ⠹ tinycd  git@h:p @ main");
    assert_eq!(
        text(&lines[2]),
        "   ● server up  ·  polling every 30s  ·  hook on 127.0.0.1:8080  ·  root /srv"
    );
    assert_eq!(lines[2].spans[1].tone, Tone::ServerGlow);
    assert_eq!(lines[1].spans[3].tone, Tone::Shimmer(2));
    let quiet = Watched {
        repo: "r",
        git_ref: None,
        poll: None,
        hook: None,
        root: "/srv",
    };
    let lines = header(0, false, &quiet);
    assert_eq!(text(&lines[1]), " ⠋ tinycd  r");
    assert_eq!(text(&lines[2]), "   ● server down  ·  root /srv");
    assert_eq!(lines[2].spans[1].tone, Tone::Red);
}

#[test]
fn every_picture_of_the_spinner() {
    let watched = Watched {
        repo: "r",
        git_ref: None,
        poll: None,
        hook: None,
        root: "/",
    };
    let shown: String = (0..10)
        .map(|frame| header(frame, true, &watched)[1].spans[0].text.trim().to_owned())
        .collect();
    assert_eq!(shown, "⠋⠙⠹⠸⠼⠴⠦⠧⠇⠏");
}

fn snapshot(releases: &[(&str, bool)], current: Option<&str>, head: Option<&str>) -> Snapshot {
    Snapshot {
        current: current.map(str::to_owned),
        head: head.map(str::to_owned),
        server_up: true,
        releases: releases
            .iter()
            .map(|(id, building)| ((*id).to_owned(), *building))
            .collect(),
    }
}

#[test]
fn the_rows_of_the_releases() {
    let shown = snapshot(
        &[("4000", true), ("3000", false), ("old", false)],
        Some("3000"),
        Some("0123456789abcdef"),
    );
    let lines = release_lines(&shown, Some(64_000), 1);
    assert_eq!(lines.len(), 3);
    assert_eq!(text(&lines[0]), "   4000  1m ago  ⠙ building");
    assert_eq!(text(&lines[1]), " ● 3000  1m ago  current  0123456789ab");
    assert_eq!(lines[1].spans[0].tone, Tone::ReleaseGlow);
    assert!(lines[1].spans[1].bold);
    assert_eq!(text(&lines[2]), "   old  ");
}

#[test]
fn at_most_six_releases_are_shown() {
    let many = [
        ("8", false),
        ("7", false),
        ("6", false),
        ("5", false),
        ("4", false),
        ("3", false),
        ("2", false),
    ];
    assert_eq!(release_lines(&snapshot(&many, None, None), None, 0).len(), 6);
    let rolled_back = release_lines(&snapshot(&many, Some("2"), Some("abc")), None, 0);
    let shown: Vec<String> = rolled_back.iter().map(text).collect();
    assert_eq!(
        shown,
        vec![
            "   8  ",
            "   7  ",
            "   6  ",
            "   5  ",
            "   4  ",
            " ● 2    current  abc"
        ]
    );
    let sixth = release_lines(&snapshot(&many, Some("3"), None), None, 0);
    assert_eq!(text(&sixth[5]), " ● 3    current");
    let elsewhere = release_lines(&snapshot(&many, Some("1"), None), None, 0);
    assert_eq!(text(&elsewhere[5]), "   3  ");
    let none = release_lines(&snapshot(&[], None, None), None, 0);
    assert_eq!(none.len(), 1);
    assert_eq!(text(&none[0]), "   none yet");
    assert_eq!(releases_height(0), 1);
    assert_eq!(releases_height(4), 4);
    assert_eq!(releases_height(70000), 6);
}

#[test]
fn commits_are_shortened() {
    assert_eq!(shorten("abc"), "abc");
    assert_eq!(shorten("0123456789ab"), "0123456789ab");
    assert_eq!(shorten("0123456789abcdef"), "0123456789ab");
    assert_eq!(shorten("\u{e9}\u{e9}\u{e9}\u{e9}\u{e9}\u{e9}x"), "\u{e9}".repeat(6));
}

#[test]
fn the_tail_of_the_activity() {
    let feed: VecDeque<String> = [
        "tracking r",
        "running sync: x",
        "deployment failed: y",
        "deployed /srv/deployments/1",
        "shutting down",
        "error here",
        "listening for POST",
        "deployments in /srv",
        "waiting",
    ]
    .iter()
    .map(|line| (*line).to_owned())
    .collect();
    let lines = activity_lines(&feed, 100);
    let tones: Vec<Tone> = lines.iter().map(|line| line.spans[0].tone).collect();
    assert_eq!(
        tones,
        vec![
            Tone::Cyan,
            Tone::Yellow,
            Tone::Red,
            Tone::Green,
            Tone::Magenta,
            Tone::Red,
            Tone::Cyan,
            Tone::Cyan,
            Tone::Gray
        ]
    );
    assert!(lines[3].spans[0].bold);
    assert!(lines[7].spans[0].dim);
    assert!(!lines[8].spans[0].dim);
    let tail = activity_lines(&feed, 2);
    assert_eq!(tail.len(), 2);
    assert_eq!(text(&tail[0]), " deployments in /srv");
    assert_eq!(text(&tail[1]), " waiting");
    assert!(activity_lines(&feed, 0).is_empty());
    assert_eq!(text(&footer()), " q quit");
}
