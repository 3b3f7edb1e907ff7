//! The daemon: what one run is to do, the interlock, the lock, polling, and
//! taking up the release that an earlier run left.

use vstd::prelude::*;

use crate::layout::{head_in, law_recorded_head_reads_back, record_of_head};
use crate::source::commit_of;
use crate::text::{begins, holds, law_begins, law_holds, optional, same, text_of};

verus! {

/// What the command line and the surroundings say of a run.
pub struct Launch {
    /// Whether a checkout is followed, rather than a URL deployed.
    pub local: bool,
    /// Whether a configuration file is named.
    pub config_given: bool,
    /// Whether a start command is given.
    pub start_given: bool,
    /// Whether the status is asked for.
    pub status: bool,
    /// Whether a rollback is asked for.
    pub rollback: bool,
    /// Whether the default configuration file exists.
    pub configured: bool,
    /// Whether the standard input is a terminal.
    pub stdin_terminal: bool,
    /// Whether the standard output is a terminal.
    pub stdout_terminal: bool,
    /// Whether plain output is asked for.
    pub no_tui: bool,
}

/// Whether the wizard runs first: in a checkout that has no configuration, on an
/// interactive terminal, where the command line does not make up for it.
pub fn wants_setup(launch: &Launch) -> (r: bool)
    ensures
        r == (launch.local && !launch.config_given && !launch.start_given && !launch.status
            && !launch.rollback && !launch.configured && launch.stdin_terminal
            && launch.stdout_terminal),
{
    launch.local && !launch.config_given && !launch.start_given && !launch.status
        && !launch.rollback && !launch.configured && launch.stdin_terminal
        && launch.stdout_terminal
}

/// Whether the daemon shows the dashboard: on an interactive terminal, unless
/// plain output is asked for.
pub fn shows_dashboard(launch: &Launch) -> (r: bool)
    ensures
        r == (!launch.no_tui && launch.stdin_terminal && launch.stdout_terminal),
{
    !launch.no_tui && launch.stdin_terminal && launch.stdout_terminal
}

/// What a run is to do.
pub enum Job {
    /// Show the deployed state.
    Status,
    /// Move current to an earlier release; to the one before it when the name is
    /// empty.
    Rollback(String),
    /// Build and try one release.
    DryRun,
    /// Run until told to stop.
    Serve,
}

/// What a run is to do.
pub fn job(status: bool, rollback: Option<String>, dry_run: bool) -> (r: Job)
    ensures
        r == (if status {
            Job::Status
        } else if rollback is Some {
            Job::Rollback(rollback->0)
        } else if dry_run {
            Job::DryRun
        } else {
            Job::Serve
        }),
{
    if status {
        return Job::Status;
    }
    match rollback {
        Some(target) => Job::Rollback(target),
        None => if dry_run {
            Job::DryRun
        } else {
            Job::Serve
        },
    }
}

/// What sets off a deployment.
pub enum Triggers {
    Poll(u64),
    Hook(String),
    Both(u64, String),
}

/// What sets off a deployment: polling, the webhook, or both.
pub fn triggers(poll: Option<u64>, hook: Option<String>) -> (r: Triggers)
    requires
        poll is Some || hook is Some,
    ensures
        match r {
            Triggers::Poll(seconds) => poll == Some(seconds) && hook is None,
            Triggers::Hook(address) => poll is None && hook == Some(address),
            Triggers::Both(seconds, address) => poll == Some(seconds) && hook == Some(address),
        },
{
    match hook {
        None => Triggers::Poll(poll.unwrap()),
        Some(address) => match poll {
            Some(seconds) => Triggers::Both(seconds, address),
            None => Triggers::Hook(address),
        },
    }
}

/// What a look at the interlock shows.
pub enum Interlocked {
    /// The file is there.
    Present,
    /// The file is not there.
    Absent,
    /// It cannot be looked at; why.
    Unknown(String),
}

/// What to do about the interlock, with a line to print.
pub enum Wait {
    /// Look again in a second.
    Again(Option<String>),
    /// Go on.
    Clear(Option<String>),
    /// Give up; what is said of it.
    Fail(String),
}

/// What a look at the interlock leads to. Only a file that is not there lets a
/// deployment go on. That it waits is printed once, and so is the end of it.
pub fn wait_for_interlock(seen: Interlocked, waiting: bool, path: &str) -> (r: Wait)
    ensures
        match seen {
            Interlocked::Present => r matches Wait::Again(line) && text_of(line) == (if waiting {
                None
            } else {
                Some("waiting for interlock to disappear: "@ + path@)
            }),
            Interlocked::Absent => r matches Wait::Clear(line) && text_of(line) == (if waiting {
                Some("interlock removed: "@ + path@)
            } else {
                None
            }),
            Interlocked::Unknown(error) => r matches Wait::Fail(message) && message@
                == "failed to check interlock "@ + path@ + ": "@ + error@,
        },
{
    match seen {
        Interlocked::Present => if waiting {
            Wait::Again(None)
        } else {
            let mut line: String = "waiting for interlock to disappear: ".to_owned();
            line.append(path);
            Wait::Again(Some(line))
        },
        Interlocked::Absent => if waiting {
            let mut line: String = "interlock removed: ".to_owned();
            line.append(path);
            Wait::Clear(Some(line))
        } else {
            Wait::Clear(None)
        },
        Interlocked::Unknown(error) => {
            let mut message: String = "failed to check interlock ".to_owned();
            message.append(path);
            message.append(": ");
            message.append(error.as_str());
            Wait::Fail(message)
        },
    }
}

/// What trying to lock the root came to.
pub enum Locking {
    /// The lock is held.
    Held,
    /// Another process holds it.
    Taken,
    /// It cannot be tried; what is said of it.
    Failed(String),
}

/// Whether a run may manage a root, or what is said when it may not. `rolling`
/// says that it is a rollback.
pub fn lock_root(locking: Locking, root: &str, rolling: bool) -> (r: Result<(), String>)
    ensures
        r is Ok <==> locking is Held,
        r matches Err(message) ==> message@ == (match locking {
            Locking::Held => Seq::empty(),
            Locking::Taken => "another tinycd is already managing "@ + root@,
            Locking::Failed(error) => error@,
        }) + (if rolling {
            "; stop it before rolling back"@
        } else {
            Seq::empty()
        }),
{
    let mut message: String = match locking {
        Locking::Held => {
            return Ok(());
        },
        Locking::Taken => {
            let mut message: String = "another tinycd is already managing ".to_owned();
            message.append(root);
            message
        },
        Locking::Failed(error) => error,
    };
    let ghost said = message@;
    if rolling {
        message.append("; stop it before rolling back");
    } else {
        assert(said + Seq::<char>::empty() =~= said);
    }
    Err(message)
}

/// What a poll leads to.
#[derive(Clone, Copy, Debug, PartialEq, Eq, Structural)]
pub enum Poll {
    /// Deploy.
    Deploy,
    /// Take the commit for the deployed one.
    Adopt,
    /// Do nothing.
    Idle,
}

/// What a poll leads to: a deployment when the remote is at another commit than
/// the deployed one. Where none is known, nothing deployed means to deploy, and
/// a release from before commits were recorded means to take the commit for
/// its own.
pub open spec fn poll_leads(
    deployed: Option<Seq<char>>,
    remote: Seq<char>,
    current_exists: bool,
) -> Poll {
    match deployed {
        Some(commit) => if commit == remote {
            Poll::Idle
        } else {
            Poll::Deploy
        },
        None => if current_exists {
            Poll::Adopt
        } else {
            Poll::Deploy
        },
    }
}

/// What a poll leads to. `current_exists` says that current points at
/// something.
pub fn poll(deployed: Option<&str>, remote: &str, current_exists: bool) -> (r: Poll)
    ensures
        r == poll_leads(optional(deployed), remote@, current_exists),
{
    match deployed {
        Some(commit) => if same(commit, remote) {
            Poll::Idle
        } else {
            Poll::Deploy
        },
        None => if current_exists {
            Poll::Adopt
        } else {
            Poll::Deploy
        },
    }
}

/// A commit that was deployed, by polling or by a webhook, is not deployed again
/// by polling, whatever release current has been rolled back to; any other
/// commit is.
pub proof fn law_deployed_commit_is_not_polled_again(
    deployed: Seq<char>,
    remote: Seq<char>,
    current_exists: bool,
)
    ensures
        poll_leads(Some(deployed), remote, current_exists) == Poll::Idle <==> deployed == remote,
        poll_leads(Some(deployed), remote, current_exists) == Poll::Deploy <==> deployed != remote,
{
}

/// A fresh root is deployed into by the first poll.
pub proof fn law_fresh_root_is_deployed_into(remote: Seq<char>)
    ensures
        poll_leads(None, remote, false) == Poll::Deploy,
{
}

/// A commit that is adopted is not deployed by the polls that follow.
pub proof fn law_adopted_commit_is_kept(remote: Seq<char>, current_exists: bool)
    requires
        poll_leads(None, remote, current_exists) == Poll::Adopt,
    ensures
        poll_leads(Some(remote), remote, current_exists) == Poll::Idle,
{
}

/// A run takes up where the last one stopped: of the commit that was read from
/// the remote, deployed and recorded it knows, so it deploys when the remote
/// has moved since, and not when it has not.
pub proof fn law_restart_takes_up_where_it_stopped(
    output: Seq<char>,
    target: Seq<char>,
    commit: Seq<char>,
    remote: Seq<char>,
    current_exists: bool,
)
    requires
        commit_of(output, target) == Some(commit),
    ensures
        poll_leads(head_in(Some(record_of_head(commit))), remote, current_exists) == if commit
            == remote {
            Poll::Idle
        } else {
            Poll::Deploy
        },
{
    law_recorded_head_reads_back(output, target, commit);
}

/// Something that sets off a deployment, with the commit that the remote is at.
pub enum Event {
    /// A poll; whether the deployment, if there is one, succeeds.
    Polled(Seq<char>, bool),
    /// An accepted webhook; whether the deployment succeeds.
    Called(Seq<char>, bool),
}

/// A deployment that succeeded.
pub struct Done {
    pub commit: Seq<char>,
    /// Whether a poll set it off, rather than a webhook.
    pub polled: bool,
}

/// The commit that is known as deployed, and the deployments that succeeded,
/// after events; at first a commit may be known, and current may exist.
pub open spec fn history(
    known: Option<Seq<char>>,
    current_exists: bool,
    events: Seq<Event>,
) -> (Option<Seq<char>>, Seq<Done>)
    decreases events.len(),
{
    if events.len() == 0 {
        (known, Seq::empty())
    } else {
        let (head, done) = history(known, current_exists, events.drop_last());
        match events.last() {
            Event::Polled(remote, ok) => match poll_leads(
                head,
                remote,
                current_exists || done.len() > 0,
            ) {
                Poll::Deploy => if ok {
                    (Some(remote), done.push(Done { commit: remote, polled: true }))
                } else {
                    (head, done)
                },
                Poll::Adopt => (Some(remote), done),
                Poll::Idle => (head, done),
            },
            Event::Called(remote, ok) => if ok {
                (Some(remote), done.push(Done { commit: remote, polled: false }))
            } else {
                (head, done)
            },
        }
    }
}

/// Polling skips commits that are already deployed, also by a webhook: no
/// deployment that a poll sets off has the commit of the one before it. A
/// webhook deploys every time.
pub proof fn law_polling_skips_deployed_commits(
    known: Option<Seq<char>>,
    current_exists: bool,
    events: Seq<Event>,
    i: int,
)
    requires
        0 < i < history(known, current_exists, events).1.len(),
        history(known, current_exists, events).1[i].polled,
    ensures
        ({
            let done = history(known, current_exists, events).1;
            done[i].commit != done[i - 1].commit
        }),
{
    lemma_history(known, current_exists, events);
}

proof fn lemma_history(known: Option<Seq<char>>, current_exists: bool, events: Seq<Event>)
    ensures
        ({
            let (head, done) = history(known, current_exists, events);
            &&& done.len() > 0 ==> head == Some(done.last().commit)
            &&& forall|i: int|
                0 < i < done.len() && (#[trigger] done[i]).polled ==> done[i].commit != done[i
                    - 1].commit
        }),
    decreases events.len(),
{
    if events.len() > 0 {
        lemma_history(known, current_exists, events.drop_last());
    }
}

/// Where current leads.
pub enum Found {
    /// To a release; whether it lies in the folder of the releases.
    Release(bool),
    /// There is no current.
    Nothing,
    /// It cannot be followed; why.
    Failed(String),
}

/// Whether to take up the release that an earlier run left, or what is said when
/// that cannot be.
pub fn resume(found: Found) -> (r: Result<bool, String>)
    ensures
        match found {
            Found::Release(true) => r == Ok::<bool, String>(true),
            Found::Release(false) => r matches Err(message) && message@
                == "current points outside the deployments directory"@,
            Found::Nothing => r == Ok::<bool, String>(false),
            Found::Failed(error) => r == Err::<bool, String>(error),
        },
{
    match found {
        Found::Release(inside) => if inside {
            Ok(true)
        } else {
            Err("current points outside the deployments directory".to_owned())
        },
        Found::Nothing => Ok(false),
        Found::Failed(error) => Err(error),
    }
}

/// A step of taking up the release that an earlier run left.
#[derive(Clone, Copy, Debug, PartialEq, Eq, Structural)]
pub enum ResumeStep {
    /// See where current leads.
    Find,
    /// Wait until the interlock is away.
    AwaitInterlock,
    /// Read the recipe of the release.
    ReadRecipe,
    /// Start the release.
    Start,
    /// The release is running.
    Resumed,
    /// There was nothing to take up.
    Nothing,
    /// The release could not be taken up.
    Failed,
}

/// The step that follows a step. `found` says that there is a release to take
/// up.
pub open spec fn resume_after(step: ResumeStep, ok: bool, found: bool) -> ResumeStep {
    match step {
        ResumeStep::Find => if !ok {
            ResumeStep::Failed
        } else if found {
            ResumeStep::AwaitInterlock
        } else {
            ResumeStep::Nothing
        },
        ResumeStep::AwaitInterlock => if ok { ResumeStep::ReadRecipe } else { ResumeStep::Failed },
        ResumeStep::ReadRecipe => if ok { ResumeStep::Start } else { ResumeStep::Failed },
        ResumeStep::Start => if ok { ResumeStep::Resumed } else { ResumeStep::Failed },
        ResumeStep::Resumed => ResumeStep::Resumed,
        ResumeStep::Nothing => ResumeStep::Nothing,
        ResumeStep::Failed => ResumeStep::Failed,
    }
}

/// The next step of taking up the release that an earlier run left.
pub fn resume_next(step: ResumeStep, ok: bool, found: bool) -> (r: ResumeStep)
    ensures
        r == resume_after(step, ok, found),
{
    match step {
        ResumeStep::Find => if !ok {
            ResumeStep::Failed
        } else if found {
            ResumeStep::AwaitInterlock
        } else {
            ResumeStep::Nothing
        },
        ResumeStep::AwaitInterlock => if ok { ResumeStep::ReadRecipe } else { ResumeStep::Failed },
        ResumeStep::ReadRecipe => if ok { ResumeStep::Start } else { ResumeStep::Failed },
        ResumeStep::Start => if ok { ResumeStep::Resumed } else { ResumeStep::Failed },
        ResumeStep::Resumed => ResumeStep::Resumed,
        ResumeStep::Nothing => ResumeStep::Nothing,
        ResumeStep::Failed => ResumeStep::Failed,
    }
}

/// Where taking up a release stands after steps with these outcomes, and whether
/// the interlock was seen to be away.
pub open spec fn resume_play(found: bool, outcomes: Seq<bool>) -> (ResumeStep, bool)
    decreases outcomes.len(),
{
    if outcomes.len() == 0 {
        (ResumeStep::Find, false)
    } else {
        let (step, clear) = resume_play(found, outcomes.drop_last());
        (
            resume_after(step, outcomes.last(), found),
            clear || (step == ResumeStep::AwaitInterlock && outcomes.last()),
        )
    }
}

/// A release is only taken up once the interlock was seen to be away, and only
/// where there is one.
pub proof fn law_resume_waits_for_the_interlock(found: bool, outcomes: Seq<bool>)
    ensures
        ({
            let (step, clear) = resume_play(found, outcomes);
            step == ResumeStep::Start || step == ResumeStep::Resumed ==> clear && found
        }),
{
    lemma_resume(found, outcomes);
}

proof fn lemma_resume(found: bool, outcomes: Seq<bool>)
    ensures
        ({
            let (step, clear) = resume_play(found, outcomes);
            &&& step == ResumeStep::AwaitInterlock ==> found
            &&& step == ResumeStep::ReadRecipe || step == ResumeStep::Start || step
                == ResumeStep::Resumed ==> clear && found
        }),
    decreases outcomes.len(),
{
    if outcomes.len() > 0 {
        lemma_resume(found, outcomes.drop_last());
    }
}

/// What a command of the pipeline came to, or what is said when it did not exit
/// with success. `name` is `sync` or `install`.
pub fn exited(name: &str, success: bool, status: &str) -> (r: Result<(), String>)
    ensures
        r is Ok <==> success,
        r matches Err(message) ==> message@ == name@ + " command exited with "@ + status@,
{
    if success {
        return Ok(());
    }
    let mut message: String = name.to_owned();
    message.append(" command exited with ");
    message.append(status);
    Err(message)
}

/// The line that announces a command. `name` is `sync`, `install`, `start` or
/// `check`.
pub fn banner(name: &str, line: &str) -> (r: String)
    ensures
        r@ == "running "@ + name@ + ": "@ + line@,
{
    let mut text: String = "running ".to_owned();
    text.append(name);
    text.append(": ");
    text.append(line);
    text
}

/// A poll deploys where nothing is deployed and where the remote has moved;
/// where a release is there whose commit is not known, it takes the commit for
/// its own; and where the remote has not moved, it does nothing.
pub proof fn law_what_a_poll_does(
    deployed: Option<Seq<char>>,
    remote: Seq<char>,
    current_exists: bool,
)
    ensures
        ({
            let leads = poll_leads(deployed, remote, current_exists);
            &&& leads == Poll::Idle <==> deployed == Some(remote)
            &&& leads == Poll::Adopt <==> deployed is None && current_exists
            &&& leads == Poll::Deploy <==> deployed != Some(remote) && (deployed is Some
                || !current_exists)
        }),
{
}

/// A webhook deploys every time, whatever is deployed already.
pub proof fn law_webhook_deploys_every_time(
    known: Option<Seq<char>>,
    current_exists: bool,
    events: Seq<Event>,
    commit: Seq<char>,
)
    ensures
        ({
            let done = history(known, current_exists, events).1;
            let after = history(known, current_exists, events.push(Event::Called(commit, true)));
            after.0 == Some(commit) && after.1 == done.push(Done { commit, polled: false })
        }),
{
    assert(events.push(Event::Called(commit, true)).drop_last() =~= events);
}

/// A deployment that fails leaves the commit to be tried again: the poll that
/// follows it leads to the same.
pub proof fn law_failed_deployment_is_tried_again(
    known: Option<Seq<char>>,
    current_exists: bool,
    events: Seq<Event>,
    remote: Seq<char>,
)
    ensures
        ({
            let before = history(known, current_exists, events);
            let polled = history(known, current_exists, events.push(Event::Polled(remote, false)));
            let called = history(known, current_exists, events.push(Event::Called(remote, false)));
            &&& called == before
            &&& poll_leads(before.0, remote, current_exists || before.1.len() > 0) == Poll::Deploy
                ==> polled == before
        }),
{
    assert(events.push(Event::Polled(remote, false)).drop_last() =~= events);
    assert(events.push(Event::Called(remote, false)).drop_last() =~= events);
}

/// Taking up a release takes four steps one after the other where there is a
/// release and each of them succeeds. Where there is none it is over after the
/// first, and where one of them fails it has failed.
pub proof fn law_resume_course(found: bool, outcomes: Seq<bool>)
    ensures
        ({
            let course = if found {
                seq![
                    ResumeStep::Find,
                    ResumeStep::AwaitInterlock,
                    ResumeStep::ReadRecipe,
                    ResumeStep::Start,
                    ResumeStep::Resumed,
                ]
            } else {
                seq![ResumeStep::Find, ResumeStep::Nothing]
            };
            let step = resume_play(found, outcomes).0;
            &&& outcomes.len() < course.len() && (forall|i: int|
                0 <= i < outcomes.len() ==> outcomes[i]) ==> step
                == course[outcomes.len() as int]
            &&& (exists|i: int|
                0 <= i < outcomes.len() && i < course.len() - 1 && !(#[trigger] outcomes[i]))
                ==> step == ResumeStep::Failed
        }),
    decreases outcomes.len(),
{
    if outcomes.len() > 0 {
        let rest = outcomes.drop_last();
        law_resume_course(found, rest);
        let n = rest.len() as int;
        assert forall|i: int| 0 <= i < n implies rest[i] == #[trigger] outcomes[i] by {}
        if exists|i: int| 0 <= i < n && i < 4 && (found || i < 1) && !(#[trigger] outcomes[i]) {
            let i = choose|i: int|
                0 <= i < n && i < 4 && (found || i < 1) && !(#[trigger] outcomes[i]);
            assert(!rest[i]);
        } else if n < 4 && (found || n < 1) {
            assert forall|i: int| 0 <= i < n implies rest[i] by {
                assert(outcomes[i]);
            }
        }
    }
}

/// Only a file that is not there lets a deployment go on: while it is there the
/// deployment waits, and where it cannot be looked at the deployment fails, with
/// a message that names the file and the error.
pub proof fn law_only_absence_is_clear(seen: Interlocked, waiting: bool, path: &str, next: Wait)
    requires
        call_ensures(wait_for_interlock, (seen, waiting, path), next),
    ensures
        next is Clear <==> seen is Absent,
        next is Again <==> seen is Present,
        next is Fail <==> seen is Unknown,
        next matches Wait::Again(line) ==> (line is None <==> waiting),
        next matches Wait::Clear(line) ==> (line is Some <==> waiting),
        next matches Wait::Fail(message) ==> holds(message@, path@) && holds(
            message@,
            seen->Unknown_0@,
        ),
{
    if let Interlocked::Unknown(error) = seen {
        let front = "failed to check interlock "@;
        let said = front + path@ + ": "@ + error@;
        law_holds(front, path@, ": "@ + error@, said);
        assert(front + path@ + (": "@ + error@) =~= said);
        law_holds(front + path@ + ": "@, error@, Seq::empty(), said);
        assert(front + path@ + ": "@ + error@ + Seq::<char>::empty() =~= said);
    }
}

/// A run manages a root only while it holds the lock, whatever it is for.
pub proof fn law_lock_is_needed(
    locking: Locking,
    root: &str,
    rolling: bool,
    locked: Result<(), String>,
)
    requires
        call_ensures(lock_root, (locking, root, rolling), locked),
    ensures
        locked is Ok <==> locking is Held,
        locking is Taken ==> holds(locked->Err_0@, root@),
        locking is Failed ==> holds(locked->Err_0@, locking->Failed_0@),
{
    let tail = if rolling {
        "; stop it before rolling back"@
    } else {
        Seq::<char>::empty()
    };
    let front = "another tinycd is already managing "@;
    law_holds(front, root@, tail, root@);
    if let Locking::Failed(error) = locking {
        law_holds(Seq::empty(), error@, tail, error@);
        assert(Seq::<char>::empty() + error@ + tail =~= error@ + tail);
    }
}

/// The wizard runs only where it is of use and can be: never where a
/// configuration is there or named, where the command line makes up for it, or
/// without a terminal at either end. Everywhere else it runs, also where plain
/// output is asked for.
pub proof fn law_when_the_wizard_runs(launch: &Launch, wants: bool)
    requires
        call_ensures(wants_setup, (launch,), wants),
    ensures
        launch.configured || launch.config_given || launch.start_given ==> !wants,
        launch.status || launch.rollback || !launch.local ==> !wants,
        !launch.stdin_terminal || !launch.stdout_terminal ==> !wants,
        !(launch.configured || launch.config_given || launch.start_given || launch.status
            || launch.rollback) && launch.local && launch.stdin_terminal && launch.stdout_terminal
            ==> wants,
{
}

/// The dashboard is shown exactly on a terminal at both ends, unless plain output
/// is asked for.
pub proof fn law_when_the_dashboard_is_shown(launch: &Launch, shows: bool)
    requires
        call_ensures(shows_dashboard, (launch,), shows),
    ensures
        launch.no_tui ==> !shows,
        !launch.stdin_terminal || !launch.stdout_terminal ==> !shows,
        !launch.no_tui && launch.stdin_terminal && launch.stdout_terminal ==> shows,
{
}

/// A run has one job: the status where it is asked for, else the rollback where
/// one is asked for, to the release that was named, else the dry run where it is
/// asked for, and else it serves.
pub proof fn law_one_job(status: bool, rollback: Option<String>, dry_run: bool, chosen: Job)
    requires
        call_ensures(job, (status, rollback, dry_run), chosen),
    ensures
        chosen is Status <==> status,
        chosen is Rollback <==> !status && rollback is Some,
        chosen matches Job::Rollback(target) ==> rollback == Some(target),
        chosen is DryRun <==> !status && rollback is None && dry_run,
        chosen is Serve <==> !status && rollback is None && !dry_run,
{
}

/// A release is taken up exactly when current leads to one in the folder of the
/// releases; where there is no current, nothing is wrong.
pub proof fn law_what_is_resumed(found: Found, resumed: Result<bool, String>)
    requires
        call_ensures(resume, (found,), resumed),
    ensures
        resumed == Ok::<bool, String>(true) <==> found == Found::Release(true),
        resumed == Ok::<bool, String>(false) <==> found is Nothing,
        resumed is Err <==> found is Failed || found == Found::Release(false),
        found matches Found::Failed(error) ==> resumed == Err::<bool, String>(error),
{
}

/// A command of the pipeline fails exactly when it does not exit with success,
/// and then it is told which one it was and how it exited.
pub proof fn law_exit_is_told(name: &str, success: bool, status: &str, r: Result<(), String>)
    requires
        call_ensures(exited, (name, success, status), r),
    ensures
        r is Ok <==> success,
        r matches Err(message) ==> begins(message@, name@) && holds(message@, status@),
{
    let between = " command exited with "@;
    law_begins(name@, between + status@, name@);
    assert(name@ + (between + status@) =~= name@ + between + status@);
    law_holds(name@ + between, status@, Seq::empty(), status@);
    assert(name@ + between + status@ + Seq::<char>::empty() =~= name@ + between + status@);
}

/// What is configured sets off deployments, and nothing else does.
pub proof fn law_triggers(poll: Option<u64>, hook: Option<String>, set_off: Triggers)
    requires
        poll is Some || hook is Some,
        call_ensures(triggers, (poll, hook), set_off),
    ensures
        set_off is Poll <==> hook is None,
        set_off is Hook <==> poll is None,
        set_off is Both <==> poll is Some && hook is Some,
        set_off matches Triggers::Poll(seconds) ==> poll == Some(seconds),
        set_off matches Triggers::Hook(address) ==> hook == Some(address),
        set_off matches Triggers::Both(seconds, address) ==> poll == Some(seconds) && hook == Some(
            address,
        ),
{
}

} // verus!
