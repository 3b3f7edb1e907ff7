use tinycd::daemon::{
    banner, exited, job, lock_root, poll, resume, resume_next, shows_dashboard, triggers,
    wait_for_interlock, wants_setup, Found, Interlocked, Job, Launch, Locking, Poll, ResumeStep,
    Triggers, Wait,
};
use tinycd::server::{
    not_stopped, overdue, point_current, stop_first, stop_next, PointStep, StopStep,
};
use tinycd::trial::{after_check, after_look, after_window, Checked, Next, Sight};

fn launch() -> Launch {
    Launch {
        local: true,
        config_given: false,
        start_given: false,
        status: false,
        rollback: false,
        configured: false,
        stdin_terminal: true,
        stdout_terminal: true,
        no_tui: false,
    }
}

#[test]
fn the_wizard_runs_in_an_unconfigured_checkout() {
    assert!(wants_setup(&launch()));
    assert!(!wants_setup(&Launch { local: false, ..launch() }));
    assert!(!wants_setup(&Launch { config_given: true, ..launch() }));
    assert!(!wants_setup(&Launch { start_given: true, ..launch() }));
    assert!(!wants_setup(&Launch { status: true, ..launch() }));
    assert!(!wants_setup(&Launch { rollback: true, ..launch() }));
    assert!(!wants_setup(&Launch { configured: true, ..launch() }));
    assert!(!wants_setup(&Launch { stdin_terminal: false, ..launch() }));
    assert!(!wants_setup(&Launch { stdout_terminal: false, ..launch() }));
}

#[test]
fn the_dashboard_needs_a_terminal() {
    assert!(shows_dashboard(&launch()));
    assert!(!shows_dashboard(&Launch { no_tui: true, ..launch() }));
    assert!(!shows_dashboard(&Launch { stdin_terminal: false, ..launch() }));
    assert!(!shows_dashboard(&Launch { stdout_terminal: false, ..launch() }));
}

#[test]
fn one_run_does_one_job() {
    assert!(matches!(job(true, None, false), Job::Status));
    assert!(matches!(
        job(false, Some("17".to_owned()), false),
        Job::Rollback(target) if target == "17"
    ));
    assert!(matches!(job(false, None, true), Job::DryRun));
    assert!(matches!(job(false, None, false), Job::Serve));
}

#[test]
fn what_sets_off_a_deployment() {
    assert!(matches!(triggers(Some(30), None), Triggers::Poll(30)));
    assert!(matches!(
        triggers(None, Some("a".to_owned())),
        Triggers::Hook(address) if address == "a"
    ));
    assert!(matches!(
        triggers(Some(5), Some("a".to_owned())),
        Triggers::Both(5, address) if address == "a"
    ));
}

#[test]
fn the_interlock_is_waited_for() {
    match wait_for_interlock(Interlocked::Present, false, "/i") {
        Wait::Again(line) => assert_eq!(
            line.as_deref(),
            Some("waiting for interlock to disappear: /i")
        ),
        _ => panic!("not waiting"),
    }
    assert!(matches!(
        wait_for_interlock(Interlocked::Present, true, "/i"),
        Wait::Again(None)
    ));
    match wait_for_interlock(Interlocked::Absent, true, "/i") {
        Wait::Clear(line) => assert_eq!(line.as_deref(), Some("interlock removed: /i")),
        _ => panic!("still waiting"),
    }
    assert!(matches!(
        wait_for_interlock(Interlocked::Absent, false, "/i"),
        Wait::Clear(None)
    ));
    match wait_for_interlock(Interlocked::Unknown("denied".to_owned()), true, "/i") {
        Wait::Fail(message) => {
            assert_eq!(message, "failed to check interlock /i: denied")
        }
        _ => panic!("went on"),
    }
}

#[test]
fn one_instance_manages_a_root() {
    assert_eq!(lock_root(Locking::Held, "/srv", false), Ok(()));
    assert_eq!(lock_root(Locking::Held, "/srv", true), Ok(()));
    assert_eq!(
        lock_root(Locking::Taken, "/srv", false),
        Err("another tinycd is already managing /srv".to_owned())
    );
    assert_eq!(
        lock_root(Locking::Taken, "/srv", true),
        Err("another tinycd is already managing /srv; stop it before rolling back".to_owned())
    );
    assert_eq!(
        lock_root(Locking::Failed("failed to open /srv/lock: no".to_owned()), "/srv", false),
        Err("failed to open /srv/lock: no".to_owned())
    );
}

#[test]
fn polling_deploys_what_is_new() {
    assert_eq!(poll(None, "a", false), Poll::Deploy);
    assert_eq!(poll(None, "a", true), Poll::Adopt);
    assert_eq!(poll(Some("a"), "a", true), Poll::Idle);
    assert_eq!(poll(Some("a"), "a", false), Poll::Idle);
    assert_eq!(poll(Some("a"), "b", true), Poll::Deploy);
}

#[test]
fn a_release_is_taken_up() {
    assert_eq!(resume(Found::Release(true)), Ok(true));
    assert_eq!(
        resume(Found::Release(false)),
        Err("current points outside the deployments directory".to_owned())
    );
    assert_eq!(resume(Found::Nothing), Ok(false));
    assert_eq!(resume(Found::Failed("no".to_owned())), Err("no".to_owned()));
    let mut step = ResumeStep::Find;
    let mut seen = vec![];
    while step != ResumeStep::Resumed {
        seen.push(step);
        step = resume_next(step, true, true);
    }
    assert_eq!(
        seen,
        vec![
            ResumeStep::Find,
            ResumeStep::AwaitInterlock,
            ResumeStep::ReadRecipe,
            ResumeStep::Start
        ]
    );
    assert_eq!(resume_next(ResumeStep::Find, true, false), ResumeStep::Nothing);
    for step in seen {
        assert_eq!(resume_next(step, false, true), ResumeStep::Failed);
    }
}

#[test]
fn commands_are_announced_and_judged() {
    assert_eq!(banner("sync", "git clone"), "running sync: git clone");
    assert_eq!(exited("sync", true, "exit status: 0"), Ok(()));
    assert_eq!(
        exited("install", false, "exit status: 1"),
        Err("install command exited with exit status: 1".to_owned())
    );
}

fn stopping(windows: bool, alive: bool, outcomes: &[bool]) -> Vec<StopStep> {
    let mut step = stop_first(windows, alive);
    let mut seen = vec![step];
    for ok in outcomes {
        step = stop_next(step, *ok, windows);
        seen.push(step);
    }
    seen
}

#[test]
fn a_release_is_asked_before_it_is_killed() {
    assert_eq!(
        stopping(false, true, &[true, false, true, true]),
        vec![
            StopStep::Ask,
            StopStep::Await,
            StopStep::Kill,
            StopStep::Reap,
            StopStep::Stopped
        ]
    );
    assert_eq!(
        stopping(true, true, &[false, true, false]),
        vec![
            StopStep::Ask,
            StopStep::Kill,
            StopStep::Reap,
            StopStep::Failed
        ]
    );
    for windows in [false, true] {
        assert_eq!(
            stopping(windows, true, &[true, true, true]),
            vec![
                StopStep::Ask,
                StopStep::Await,
                StopStep::Reap,
                StopStep::Stopped
            ]
        );
        assert_eq!(
            stopping(windows, false, &[true, true]),
            vec![StopStep::Kill, StopStep::Reap, StopStep::Stopped]
        );
    }
    assert_eq!(
        overdue(),
        "server did not exit within 10 seconds, killing it"
    );
    assert_eq!(
        not_stopped("no child"),
        "failed to stop the running server: no child"
    );
}

fn pointing(windows: bool, outcomes: &[bool]) -> Vec<PointStep> {
    let mut step = PointStep::Stage;
    let mut seen = vec![step];
    for ok in outcomes {
        step = point_current(step, *ok, windows);
        seen.push(step);
    }
    seen
}

#[test]
fn the_link_moves() {
    assert_eq!(
        pointing(false, &[true, true]),
        vec![PointStep::Stage, PointStep::Swap, PointStep::Pointed]
    );
    assert_eq!(
        pointing(false, &[true, false, true]),
        vec![
            PointStep::Stage,
            PointStep::Swap,
            PointStep::DropStaged,
            PointStep::Failed
        ]
    );
    assert_eq!(
        pointing(false, &[false, true]),
        vec![PointStep::Stage, PointStep::DropStaged, PointStep::Failed]
    );
    assert_eq!(
        pointing(true, &[true, false, true, true]),
        vec![
            PointStep::Stage,
            PointStep::Swap,
            PointStep::DropOld,
            PointStep::SwapAgain,
            PointStep::Pointed
        ]
    );
    assert_eq!(
        pointing(true, &[false]),
        vec![PointStep::Stage, PointStep::Failed]
    );
    assert_eq!(
        pointing(true, &[true, false, false, true]),
        vec![
            PointStep::Stage,
            PointStep::Swap,
            PointStep::DropOld,
            PointStep::DropStaged,
            PointStep::Failed
        ]
    );
}

fn failure(next: Next) -> Option<String> {
    match next {
        Next::Failed(message) => Some(message),
        _ => None,
    }
}

#[test]
fn a_release_stays_up() {
    assert!(matches!(after_window(Sight::Up, false), Next::Passed));
    assert!(matches!(after_window(Sight::Up, true), Next::Look));
    assert_eq!(
        failure(after_window(Sight::Exited("exit status: 1".to_owned()), true)).as_deref(),
        Some("the server exited with exit status: 1 within 3 seconds of starting")
    );
    assert_eq!(
        failure(after_window(Sight::Unknown("no".to_owned()), false)).as_deref(),
        Some("no")
    );
}

#[test]
fn a_release_passes_its_check() {
    assert!(matches!(after_look(Sight::Up), Next::Check));
    assert_eq!(
        failure(after_look(Sight::Exited("signal: 9".to_owned()))).as_deref(),
        Some("the server exited with signal: 9 during the check")
    );
    assert_eq!(
        failure(after_look(Sight::Unknown("no".to_owned()))).as_deref(),
        Some("no")
    );
    assert!(matches!(after_check(Checked::Passed), Next::Passed));
    assert!(matches!(after_check(Checked::Refused(29)), Next::Pause));
    assert_eq!(
        failure(after_check(Checked::Refused(30))).as_deref(),
        Some("the check command did not pass within 30 seconds")
    );
    assert_eq!(
        failure(after_check(Checked::Broken("no shell".to_owned()))).as_deref(),
        Some("no shell")
    );
}

#[test]
fn polling_skips_what_a_webhook_deployed() {
    let mut known: Option<String> = None;
    let mut deployed = vec![];
    for (remote, webhook) in [
        ("a", false),
        ("a", false),
        ("b", true),
        ("b", false),
        ("b", true),
        ("c", false),
        ("a", false),
    ] {
        let led = poll(known.as_deref(), remote, !deployed.is_empty());
        if webhook || led == Poll::Deploy {
            known = Some(remote.to_owned());
            deployed.push((remote, webhook));
        }
    }
    assert_eq!(
        deployed,
        vec![
            ("a", false),
            ("b", true),
            ("b", true),
            ("c", false),
            ("a", false)
        ]
    );
}

fn passes(checks: bool, first: Sight, rounds: Vec<(Sight, Checked)>) -> Option<bool> {
    let mut next = after_window(first, checks);
    for (sight, checked) in rounds {
        match next {
            Next::Passed => return Some(true),
            Next::Failed(_) => return Some(false),
            _ => {
                next = after_look(sight);
                if let Next::Check = next {
                    next = after_check(checked);
                }
            }
        }
    }
    match next {
        Next::Passed => Some(true),
        Next::Failed(_) => Some(false),
        _ => None,
    }
}

#[test]
fn what_passes_a_trial() {
    let refused = |seconds: u64| (Sight::Up, Checked::Refused(seconds));
    let passed = || (Sight::Up, Checked::Passed);
    assert_eq!(passes(false, Sight::Up, vec![]), Some(true));
    assert_eq!(passes(true, Sight::Up, vec![]), None);
    assert_eq!(
        passes(true, Sight::Up, vec![refused(0), refused(29), passed()]),
        Some(true)
    );
    assert_eq!(
        passes(true, Sight::Up, vec![refused(0), refused(30), passed()]),
        Some(false)
    );
    assert_eq!(
        passes(
            true,
            Sight::Up,
            vec![(Sight::Exited("0".to_owned()), Checked::Passed), passed()]
        ),
        Some(false)
    );
    assert_eq!(
        passes(false, Sight::Exited("0".to_owned()), vec![]),
        Some(false)
    );
}
