//! Stopping a running release, and moving the link to the current one.

use vstd::prelude::*;

verus! {

/// How many seconds a stopping release has to exit before it is killed.
pub const GRACE_PERIOD: u64 = 10;

/// A step of stopping a release. Each but the last two is something to do, which
/// then succeeds or fails. The processes of a release are those that its start
/// command spawned, and they may outlive it.
#[derive(Clone, Copy, Debug, PartialEq, Eq, Structural)]
pub enum StopStep {
    /// Ask every process of the release to exit.
    Ask,
    /// Wait until no process of the release is left. It fails when some are
    /// left after ten seconds, and not before.
    Await,
    /// Kill every process of the release that is left.
    Kill,
    /// Collect the exit of the start command.
    Reap,
    /// The release is stopped.
    Stopped,
    /// The exit of the start command could not be collected.
    Failed,
}

/// The first step, on every platform. Where the start command has exited and
/// been collected, what it left behind is killed.
pub open spec fn first_step(windows: bool, alive: bool) -> StopStep {
    if alive {
        StopStep::Ask
    } else {
        StopStep::Kill
    }
}

/// The step that follows a step. On Windows a release that cannot be asked is
/// not waited for.
pub open spec fn step_after(step: StopStep, ok: bool, windows: bool) -> StopStep {
    match step {
        StopStep::Ask => if windows && !ok { StopStep::Kill } else { StopStep::Await },
        StopStep::Await => if ok { StopStep::Reap } else { StopStep::Kill },
        StopStep::Kill => StopStep::Reap,
        StopStep::Reap => if ok { StopStep::Stopped } else { StopStep::Failed },
        StopStep::Stopped => StopStep::Stopped,
        StopStep::Failed => StopStep::Failed,
    }
}

/// The first step of stopping a release. `alive` says that the exit of its start
/// command has not been collected.
pub fn stop_first(windows: bool, alive: bool) -> (r: StopStep)
    ensures
        r == first_step(windows, alive),
{
    if alive {
        StopStep::Ask
    } else {
        StopStep::Kill
    }
}

/// The next step of stopping a release.
pub fn stop_next(step: StopStep, ok: bool, windows: bool) -> (r: StopStep)
    ensures
        r == step_after(step, ok, windows),
{
    match step {
        StopStep::Ask => if windows && !ok { StopStep::Kill } else { StopStep::Await },
        StopStep::Await => if ok { StopStep::Reap } else { StopStep::Kill },
        StopStep::Kill => StopStep::Reap,
        StopStep::Reap => if ok { StopStep::Stopped } else { StopStep::Failed },
        StopStep::Stopped => StopStep::Stopped,
        StopStep::Failed => StopStep::Failed,
    }
}

/// What is printed when a release does not exit in time.
pub fn overdue() -> (r: String)
    ensures
        r@ == "server did not exit within 10 seconds, killing it"@,
{
    "server did not exit within 10 seconds, killing it".to_owned()
}

/// What is said when the exit of a release cannot be collected.
pub fn not_stopped(error: &str) -> (r: String)
    ensures
        r@ == "failed to stop the running server: "@ + error@,
{
    let mut message: String = "failed to stop the running server: ".to_owned();
    message.append(error);
    message
}

/// How things stand while a release is stopped.
pub struct Stopping {
    /// Whether its processes were asked to exit.
    pub asked: bool,
    /// Whether they could not be asked.
    pub unasked: bool,
    /// Whether some were left ten seconds after that.
    pub overdue: bool,
    /// Whether an attempt was made to kill them.
    pub killed: bool,
    /// Whether that attempt failed.
    pub unkilled: bool,
    /// Whether some may be left.
    pub left: bool,
    /// Whether the exit of the start command was collected.
    pub collected: bool,
}

/// How things stand after a step.
pub open spec fn stop_effect(world: Stopping, step: StopStep, ok: bool) -> Stopping {
    match step {
        StopStep::Ask => Stopping { asked: true, unasked: !ok, ..world },
        StopStep::Await => Stopping { overdue: !ok, left: world.left && !ok, ..world },
        StopStep::Kill => Stopping {
            killed: true,
            unkilled: !ok,
            left: world.left && !ok,
            ..world
        },
        StopStep::Reap => Stopping { collected: ok, ..world },
        _ => world,
    }
}

/// Where stopping a release stands, and how things stand, after steps with these
/// outcomes.
pub open spec fn stop_play(windows: bool, alive: bool, outcomes: Seq<bool>) -> (StopStep, Stopping)
    decreases outcomes.len(),
{
    if outcomes.len() == 0 {
        (
            first_step(windows, alive),
            Stopping {
                asked: false,
                unasked: false,
                overdue: false,
                killed: false,
                unkilled: false,
                left: true,
                collected: false,
            },
        )
    } else {
        let (step, world) = stop_play(windows, alive, outcomes.drop_last());
        (
            step_after(step, outcomes.last(), windows),
            stop_effect(world, step, outcomes.last()),
        )
    }
}

/// The processes of a release that is alive are asked to exit first, and those
/// that are left are killed once ten seconds have passed, not earlier; only on
/// Windows, where they cannot be asked, the kill follows at once.
pub proof fn law_ask_wait_kill(windows: bool, outcomes: Seq<bool>)
    ensures
        ({
            let (step, world) = stop_play(windows, true, outcomes);
            &&& step == StopStep::Kill || world.killed ==> world.asked && (world.overdue || (windows
                && world.unasked))
            &&& step == StopStep::Await ==> world.asked
        }),
{
    lemma_stop(windows, true, outcomes);
}

/// When a release is stopped, its start command has exited and no process of it
/// is left, unless the kill itself failed. That holds too where the start
/// command had exited before.
pub proof fn law_stopped_leaves_nothing(windows: bool, alive: bool, outcomes: Seq<bool>)
    ensures
        ({
            let (step, world) = stop_play(windows, alive, outcomes);
            step == StopStep::Stopped ==> world.collected && (!world.left || world.unkilled)
        }),
{
    lemma_stop(windows, alive, outcomes);
}

/// Stopping a release is over after at most four steps.
pub proof fn law_stopping_ends(windows: bool, alive: bool, outcomes: Seq<bool>)
    requires
        outcomes.len() >= 4,
    ensures
        ({
            let step = stop_play(windows, alive, outcomes).0;
            step == StopStep::Stopped || step == StopStep::Failed
        }),
{
    lemma_stop_rank(windows, alive, outcomes);
}

spec fn stop_rank(step: StopStep) -> int {
    match step {
        StopStep::Ask => 4,
        StopStep::Await => 3,
        StopStep::Kill => 2,
        StopStep::Reap => 1,
        StopStep::Stopped | StopStep::Failed => 0,
    }
}

proof fn lemma_stop_rank(windows: bool, alive: bool, outcomes: Seq<bool>)
    ensures
        stop_rank(stop_play(windows, alive, outcomes).0) <= if outcomes.len() <= 4 {
            4 - outcomes.len()
        } else {
            0
        },
    decreases outcomes.len(),
{
    if outcomes.len() > 0 {
        lemma_stop_rank(windows, alive, outcomes.drop_last());
    }
}

proof fn lemma_stop(windows: bool, alive: bool, outcomes: Seq<bool>)
    ensures
        ({
            let (step, world) = stop_play(windows, alive, outcomes);
            &&& alive && (step == StopStep::Kill || world.killed) ==> world.asked && (world.overdue
                || (windows && world.unasked))
            &&& step == StopStep::Await ==> world.asked
            &&& step == StopStep::Ask || step == StopStep::Await ==> !world.killed
            &&& step == StopStep::Reap || step == StopStep::Stopped ==> !world.left
                || world.unkilled
            &&& step == StopStep::Stopped ==> world.collected
        }),
    decreases outcomes.len(),
{
    if outcomes.len() > 0 {
        lemma_stop(windows, alive, outcomes.drop_last());
    }
}

/// A step of moving the link to the current release. Each but the last two is
/// something to do, which then succeeds or fails.
#[derive(Clone, Copy, Debug, PartialEq, Eq, Structural)]
pub enum PointStep {
    /// Create the new link under another name.
    Stage,
    /// Rename it over current.
    Swap,
    /// Remove the old link.
    DropOld,
    /// Rename the new link to current once more.
    SwapAgain,
    /// Remove the new link.
    DropStaged,
    /// Current points at the release.
    Pointed,
    /// Current could not be moved.
    Failed,
}

/// The step that follows a step. Only on Windows, which cannot rename over an
/// existing folder, the old link is removed where the renaming fails; there a
/// link that could not be created is not removed either.
pub open spec fn point_after(step: PointStep, ok: bool, windows: bool) -> PointStep {
    match step {
        PointStep::Stage => if ok {
            PointStep::Swap
        } else if windows {
            PointStep::Failed
        } else {
            PointStep::DropStaged
        },
        PointStep::Swap => if ok {
            PointStep::Pointed
        } else if windows {
            PointStep::DropOld
        } else {
            PointStep::DropStaged
        },
        PointStep::DropOld => if ok { PointStep::SwapAgain } else { PointStep::DropStaged },
        PointStep::SwapAgain => if ok { PointStep::Pointed } else { PointStep::DropStaged },
        PointStep::DropStaged => PointStep::Failed,
        PointStep::Pointed => PointStep::Pointed,
        PointStep::Failed => PointStep::Failed,
    }
}

/// The next step of moving the link to the current release. The first is to
/// stage the new link.
pub fn point_current(step: PointStep, ok: bool, windows: bool) -> (r: PointStep)
    ensures
        r == point_after(step, ok, windows),
{
    match step {
        PointStep::Stage => if ok {
            PointStep::Swap
        } else if windows {
            PointStep::Failed
        } else {
            PointStep::DropStaged
        },
        PointStep::Swap => if ok {
            PointStep::Pointed
        } else if windows {
            PointStep::DropOld
        } else {
            PointStep::DropStaged
        },
        PointStep::DropOld => if ok { PointStep::SwapAgain } else { PointStep::DropStaged },
        PointStep::SwapAgain => if ok { PointStep::Pointed } else { PointStep::DropStaged },
        PointStep::DropStaged => PointStep::Failed,
        PointStep::Pointed => PointStep::Pointed,
        PointStep::Failed => PointStep::Failed,
    }
}

/// What current points at.
#[derive(Clone, Copy, Debug, PartialEq, Eq, Structural)]
pub enum Link {
    Old,
    New,
    Gone,
}

/// What current points at after a step.
pub open spec fn link_after(link: Link, step: PointStep, ok: bool) -> Link {
    match step {
        PointStep::Swap | PointStep::SwapAgain => if ok { Link::New } else { link },
        PointStep::DropOld => if ok { Link::Gone } else { link },
        _ => link,
    }
}

/// Where the move stands, and what current points at, after steps with these
/// outcomes.
pub open spec fn point_play(windows: bool, outcomes: Seq<bool>) -> (PointStep, Link)
    decreases outcomes.len(),
{
    if outcomes.len() == 0 {
        (PointStep::Stage, Link::Old)
    } else {
        let (step, link) = point_play(windows, outcomes.drop_last());
        (point_after(step, outcomes.last(), windows), link_after(link, step, outcomes.last()))
    }
}

/// Current moves in one step except on Windows: at every point it is the old
/// link or the new one, and it is the new one if and only if the move has
/// succeeded.
pub proof fn law_current_moves_at_once(outcomes: Seq<bool>)
    ensures
        ({
            let (step, link) = point_play(false, outcomes);
            &&& link != Link::Gone
            &&& link == Link::New <==> step == PointStep::Pointed
        }),
{
    lemma_point(false, outcomes);
}

/// On every platform the move has succeeded if and only if current is the new
/// link.
pub proof fn law_pointed_means_new(windows: bool, outcomes: Seq<bool>)
    ensures
        ({
            let (step, link) = point_play(windows, outcomes);
            link == Link::New <==> step == PointStep::Pointed
        }),
{
    lemma_point(windows, outcomes);
}

proof fn lemma_point(windows: bool, outcomes: Seq<bool>)
    ensures
        ({
            let (step, link) = point_play(windows, outcomes);
            &&& !windows ==> link != Link::Gone && step != PointStep::DropOld && step
                != PointStep::SwapAgain
            &&& link == Link::New <==> step == PointStep::Pointed
        }),
    decreases outcomes.len(),
{
    if outcomes.len() > 0 {
        lemma_point(windows, outcomes.drop_last());
    }
}

/// A release that is alive is asked to exit and then waited for. Where all of it
/// exits in time, nothing is killed. Where some of it does not, it is killed, and
/// so it is at once on Windows where it cannot be asked and on every platform
/// where the start command has exited before. The exit of the start command is
/// collected last, and that alone decides whether the release counts as stopped.
pub proof fn law_stop_course(
    windows: bool,
    asked: bool,
    killed: bool,
    collected: bool,
)
    ensures
        ({
            let end = if collected {
                StopStep::Stopped
            } else {
                StopStep::Failed
            };
            &&& stop_play(windows, true, seq![]).0 == StopStep::Ask
            &&& asked || !windows ==> {
                &&& stop_play(windows, true, seq![asked]).0 == StopStep::Await
                &&& stop_play(windows, true, seq![asked, true]).0 == StopStep::Reap
                &&& stop_play(windows, true, seq![asked, true, collected]).0 == end
                &&& stop_play(windows, true, seq![asked, false]).0 == StopStep::Kill
                &&& stop_play(windows, true, seq![asked, false, killed]).0 == StopStep::Reap
                &&& stop_play(windows, true, seq![asked, false, killed, collected]).0 == end
            }
            &&& !asked && windows ==> {
                &&& stop_play(windows, true, seq![asked]).0 == StopStep::Kill
                &&& stop_play(windows, true, seq![asked, killed]).0 == StopStep::Reap
                &&& stop_play(windows, true, seq![asked, killed, collected]).0 == end
            }
            &&& stop_play(windows, false, seq![]).0 == StopStep::Kill
            &&& stop_play(windows, false, seq![killed]).0 == StopStep::Reap
            &&& stop_play(windows, false, seq![killed, collected]).0 == end
        }),
{
    reveal_with_fuel(stop_play, 6);
    assert(seq![asked].drop_last() =~= seq![]);
    assert(seq![asked, true].drop_last() =~= seq![asked]);
    assert(seq![asked, true, collected].drop_last() =~= seq![asked, true]);
    assert(seq![asked, false].drop_last() =~= seq![asked]);
    assert(seq![asked, false, killed].drop_last() =~= seq![asked, false]);
    assert(seq![asked, false, killed, collected].drop_last() =~= seq![asked, false, killed]);
    assert(seq![asked, killed].drop_last() =~= seq![asked]);
    assert(seq![asked, killed, collected].drop_last() =~= seq![asked, killed]);
    assert(seq![killed].drop_last() =~= seq![]);
    assert(seq![killed, collected].drop_last() =~= seq![killed]);
}

/// The new link is staged and then renamed over current. Where that fails, the
/// staged link is removed and the move has failed; only on Windows the old link
/// is removed first and the renaming tried once more.
pub proof fn law_point_course(windows: bool, removed: bool)
    ensures
        point_play(windows, seq![]).0 == PointStep::Stage,
        point_play(windows, seq![true]).0 == PointStep::Swap,
        point_play(windows, seq![true, true]).0 == PointStep::Pointed,
        point_play(false, seq![false]).0 == PointStep::DropStaged,
        point_play(false, seq![false, removed]).0 == PointStep::Failed,
        point_play(false, seq![true, false]).0 == PointStep::DropStaged,
        point_play(false, seq![true, false, removed]).0 == PointStep::Failed,
        point_play(true, seq![false]).0 == PointStep::Failed,
        point_play(true, seq![true, false]).0 == PointStep::DropOld,
        point_play(true, seq![true, false, false]).0 == PointStep::DropStaged,
        point_play(true, seq![true, false, false, removed]).0 == PointStep::Failed,
        point_play(true, seq![true, false, true]).0 == PointStep::SwapAgain,
        point_play(true, seq![true, false, true, true]).0 == PointStep::Pointed,
        point_play(true, seq![true, false, true, false]).0 == PointStep::DropStaged,
        point_play(true, seq![true, false, true, false, removed]).0 == PointStep::Failed,
{
    reveal_with_fuel(point_play, 7);
    assert(seq![true].drop_last() =~= seq![]);
    assert(seq![false].drop_last() =~= seq![]);
    assert(seq![true, true].drop_last() =~= seq![true]);
    assert(seq![false, removed].drop_last() =~= seq![false]);
    assert(seq![true, false].drop_last() =~= seq![true]);
    assert(seq![true, false, removed].drop_last() =~= seq![true, false]);
    assert(seq![true, false, false].drop_last() =~= seq![true, false]);
    assert(seq![true, false, false, removed].drop_last() =~= seq![true, false, false]);
    assert(seq![true, false, true].drop_last() =~= seq![true, false]);
    assert(seq![true, false, true, true].drop_last() =~= seq![true, false, true]);
    assert(seq![true, false, true, false].drop_last() =~= seq![true, false, true]);
    assert(seq![true, false, true, false, removed].drop_last() =~= seq![true, false, true, false]);
}

} // verus!
