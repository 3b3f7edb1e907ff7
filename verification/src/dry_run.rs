//! A dry run: one release is built, started and tried in a folder of its own,
//! then stopped and removed.

use vstd::prelude::*;

verus! {

/// A step of a dry run. Each but the last two is something to do, which then
/// succeeds or fails. None of them touches current, head, the releases or the
/// lock.
#[derive(Clone, Copy, Debug, PartialEq, Eq, Structural)]
pub enum DryStep {
    /// Name the folder after the time.
    TakeId,
    /// Create the folder.
    CreateScratch,
    /// Run the sync command.
    Sync,
    /// Link the shared paths.
    LinkShared,
    /// Read the recipe from the synced repository.
    ReadRecipe,
    /// Run the install command.
    Install,
    /// Start the release.
    StartServer,
    /// See that the release stays up and passes its check. Where it does not,
    /// nothing of it is left running.
    Verify,
    /// Stop the release.
    StopServer,
    /// Remove the folder.
    RemoveScratch,
    /// The dry run has passed.
    Passed,
    /// The dry run has failed.
    Failed,
}

/// The step that follows a step. `failed` says that a step before has failed.
pub open spec fn after(
    step: DryStep,
    ok: bool,
    shares: bool,
    installs: bool,
    failed: bool,
) -> DryStep {
    match step {
        DryStep::TakeId => if ok { DryStep::CreateScratch } else { DryStep::Failed },
        DryStep::CreateScratch => if ok { DryStep::Sync } else { DryStep::Failed },
        DryStep::Sync => if !ok {
            DryStep::RemoveScratch
        } else if shares {
            DryStep::LinkShared
        } else {
            DryStep::ReadRecipe
        },
        DryStep::LinkShared => if ok { DryStep::ReadRecipe } else { DryStep::RemoveScratch },
        DryStep::ReadRecipe => if !ok {
            DryStep::RemoveScratch
        } else if installs {
            DryStep::Install
        } else {
            DryStep::StartServer
        },
        DryStep::Install => if ok { DryStep::StartServer } else { DryStep::RemoveScratch },
        DryStep::StartServer => if ok { DryStep::Verify } else { DryStep::RemoveScratch },
        DryStep::Verify => if ok { DryStep::StopServer } else { DryStep::RemoveScratch },
        DryStep::StopServer => DryStep::RemoveScratch,
        DryStep::RemoveScratch => if failed { DryStep::Failed } else { DryStep::Passed },
        DryStep::Passed => DryStep::Passed,
        DryStep::Failed => DryStep::Failed,
    }
}

/// Whether a failure of a step fails the dry run.
pub open spec fn counts(step: DryStep) -> bool {
    step != DryStep::RemoveScratch && step != DryStep::Passed && step != DryStep::Failed
}

/// Whether a dry run is over.
pub open spec fn over(step: DryStep) -> bool {
    step == DryStep::Passed || step == DryStep::Failed
}

/// A dry run on its way.
pub struct DryRun {
    pub step: DryStep,
    pub shares: bool,
    pub installs: bool,
    /// What is said of the failure, once there is one.
    pub error: Option<String>,
}

impl DryRun {
    /// A dry run that passes has no error, and one that fails has one. Until
    /// the folder is removed, one with an error goes nowhere else.
    pub open spec fn wf(self) -> bool {
        match self.step {
            DryStep::Failed => self.error is Some,
            DryStep::RemoveScratch => true,
            _ => self.error is None,
        }
    }

    /// A dry run at its first step.
    pub fn new(shares: bool) -> (r: DryRun)
        ensures
            r.wf(),
            r.step == DryStep::TakeId,
            r.shares == shares,
            !r.installs,
    {
        DryRun { step: DryStep::TakeId, shares, installs: false, error: None }
    }

    /// Say whether the recipe that was read has an install command.
    pub fn learn_recipe(&mut self, installs: bool)
        ensures
            final(self).step == old(self).step,
            final(self).shares == old(self).shares,
            final(self).error == old(self).error,
            final(self).installs == installs,
    {
        self.installs = installs;
    }

    /// Go to the next step.
    pub fn advance(&mut self, outcome: Result<(), String>)
        requires
            old(self).wf(),
        ensures
            final(self).wf(),
            final(self).step == after(
                old(self).step,
                outcome is Ok,
                old(self).shares,
                old(self).installs,
                old(self).error is Some,
            ),
            final(self).shares == old(self).shares,
            final(self).installs == old(self).installs,
            final(self).error == match outcome {
                Ok(_) => old(self).error,
                Err(error) => if counts(old(self).step) {
                    Some(error)
                } else {
                    old(self).error
                },
            },
    {
        let step: DryStep = self.step;
        let ok: bool = outcome.is_ok();
        let failed: bool = self.error.is_some();
        if let Err(error) = outcome {
            match step {
                DryStep::RemoveScratch => {},
                DryStep::Passed => {},
                DryStep::Failed => {},
                _ => {
                    self.error = Some(error);
                },
            }
        }
        self.step =
        match step {
            DryStep::TakeId => if ok { DryStep::CreateScratch } else { DryStep::Failed },
            DryStep::CreateScratch => if ok { DryStep::Sync } else { DryStep::Failed },
            DryStep::Sync => if !ok {
                DryStep::RemoveScratch
            } else if self.shares {
                DryStep::LinkShared
            } else {
                DryStep::ReadRecipe
            },
            DryStep::LinkShared => if ok { DryStep::ReadRecipe } else { DryStep::RemoveScratch },
            DryStep::ReadRecipe => if !ok {
                DryStep::RemoveScratch
            } else if self.installs {
                DryStep::Install
            } else {
                DryStep::StartServer
            },
            DryStep::Install => if ok { DryStep::StartServer } else { DryStep::RemoveScratch },
            DryStep::StartServer => if ok { DryStep::Verify } else { DryStep::RemoveScratch },
            DryStep::Verify => if ok { DryStep::StopServer } else { DryStep::RemoveScratch },
            DryStep::StopServer => DryStep::RemoveScratch,
            DryStep::RemoveScratch => if failed { DryStep::Failed } else { DryStep::Passed },
            DryStep::Passed => DryStep::Passed,
            DryStep::Failed => DryStep::Failed,
        };
    }

    /// What a dry run that is over came to: what is said of it.
    pub fn result(self) -> (r: Result<String, String>)
        requires
            self.wf(),
            over(self.step),
        ensures
            match r {
                Ok(line) => {
                    &&& self.step == DryStep::Passed
                    &&& line@
                        == "dry run passed: the release built, started, stayed up for 3 seconds, and stopped cleanly"@
                },
                Err(error) => self.step == DryStep::Failed && self.error == Some(error),
            },
    {
        match self.error {
            Some(error) => Err(error),
            None => Ok(
                "dry run passed: the release built, started, stayed up for 3 seconds, and stopped cleanly".to_owned(),
            ),
        }
    }
}

/// How things stand during a dry run.
pub struct Scene {
    /// Whether the folder has been created.
    pub created: bool,
    /// Whether the folder has been removed, or an attempt was made.
    pub cleaned: bool,
    /// Whether the sync command succeeded.
    pub synced: bool,
    /// Whether the shared paths are linked into the release.
    pub linked: bool,
    /// Whether the recipe has been read.
    pub recipe: bool,
    /// Whether the install command succeeded.
    pub installed: bool,
    /// Whether the release was started.
    pub started: bool,
    /// Whether the release is running.
    pub server: bool,
    /// Whether the release has been seen to stay up and to pass its check.
    pub verified: bool,
    /// Whether a step has failed.
    pub failed: bool,
}

/// How things stand after a step.
pub open spec fn effect(scene: Scene, step: DryStep, ok: bool) -> Scene {
    let next = Scene { failed: scene.failed || (counts(step) && !ok), ..scene };
    match step {
        DryStep::CreateScratch => Scene { created: ok, ..next },
        DryStep::Sync => Scene { synced: ok, ..next },
        DryStep::LinkShared => Scene { linked: ok, ..next },
        DryStep::ReadRecipe => Scene { recipe: ok, ..next },
        DryStep::Install => Scene { installed: ok, ..next },
        DryStep::StartServer => Scene { server: ok, started: ok, ..next },
        DryStep::Verify => Scene { server: ok, verified: ok, ..next },
        DryStep::StopServer => Scene { server: false, ..next },
        DryStep::RemoveScratch => Scene { cleaned: true, ..next },
        _ => next,
    }
}

/// Where a dry run stands, and how things stand, after steps with these
/// outcomes.
pub open spec fn play(shares: bool, installs: bool, outcomes: Seq<bool>) -> (DryStep, Scene)
    decreases outcomes.len(),
{
    if outcomes.len() == 0 {
        (
            DryStep::TakeId,
            Scene {
                created: false,
                cleaned: false,
                synced: false,
                linked: false,
                recipe: false,
                installed: false,
                started: false,
                server: false,
                verified: false,
                failed: false,
            },
        )
    } else {
        let (step, scene) = play(shares, installs, outcomes.drop_last());
        let ok = outcomes.last();
        (after(step, ok, shares, installs, scene.failed), effect(scene, step, ok))
    }
}

/// A step leads to the same whether it is known already or not that there is an
/// install command, except the step that reads the recipe.
pub proof fn law_recipe_may_be_learned_late(
    step: DryStep,
    ok: bool,
    shares: bool,
    one: bool,
    other: bool,
    failed: bool,
)
    requires
        step == DryStep::ReadRecipe ==> one == other,
    ensures
        after(step, ok, shares, one, failed) == after(step, ok, shares, other, failed),
{
}

/// Where a dry run stands, and how things stand, after steps with these
/// outcomes, each taken with what was known of the install command at it.
pub open spec fn follow(shares: bool, known: Seq<bool>, outcomes: Seq<bool>) -> (DryStep, Scene)
    decreases outcomes.len(),
{
    if outcomes.len() == 0 {
        play(shares, false, outcomes)
    } else {
        let (step, scene) = follow(shares, known, outcomes.drop_last());
        let ok = outcomes.last();
        (
            after(step, ok, shares, known[outcomes.len() - 1], scene.failed),
            effect(scene, step, ok),
        )
    }
}

/// A dry run that learns on its way whether there is an install command goes
/// where it would go had it known from the start, so what holds of the one
/// holds of the other.
pub proof fn law_learning_on_the_way(
    shares: bool,
    installs: bool,
    known: Seq<bool>,
    outcomes: Seq<bool>,
)
    requires
        known.len() == outcomes.len(),
        forall|i: int|
            0 <= i < known.len() && play(shares, installs, #[trigger] outcomes.take(i)).0
                == DryStep::ReadRecipe ==> known[i] == installs,
    ensures
        follow(shares, known, outcomes) == play(shares, installs, outcomes),
{
    assert(outcomes.take(outcomes.len() as int) == outcomes);
    lemma_follow(shares, installs, known, outcomes, outcomes.len() as int);
}

proof fn lemma_follow(
    shares: bool,
    installs: bool,
    known: Seq<bool>,
    outcomes: Seq<bool>,
    n: int,
)
    requires
        known.len() == outcomes.len(),
        0 <= n <= outcomes.len(),
        forall|i: int|
            0 <= i < known.len() && play(shares, installs, #[trigger] outcomes.take(i)).0
                == DryStep::ReadRecipe ==> known[i] == installs,
    ensures
        follow(shares, known, outcomes.take(n)) == play(shares, installs, outcomes.take(n)),
    decreases n,
{
    if n > 0 {
        lemma_follow(shares, installs, known, outcomes, n - 1);
        assert(outcomes.take(n).drop_last() =~= outcomes.take(n - 1));
        let (step, scene) = play(shares, installs, outcomes.take(n - 1));
        law_recipe_may_be_learned_late(
            step,
            outcomes[n - 1],
            shares,
            known[n - 1],
            installs,
            scene.failed,
        );
    }
}

/// Whether everything has been done that comes before the recipe is read: the
/// release is synced, and the shared paths are linked where there are any.
pub open spec fn prepared(scene: Scene, shares: bool) -> bool {
    scene.synced && (shares ==> scene.linked)
}

/// Whether the release is built: its recipe was read, and the install command
/// succeeded where there is one.
pub open spec fn built(scene: Scene, installs: bool) -> bool {
    scene.recipe && (installs ==> scene.installed)
}

spec fn stands(step: DryStep, scene: Scene, shares: bool, installs: bool) -> bool {
    &&& scene.linked ==> shares
    &&& scene.installed ==> installs
    &&& match step {
        DryStep::LinkShared => scene.synced && shares,
        DryStep::ReadRecipe => prepared(scene, shares),
        DryStep::Install => prepared(scene, shares) && scene.recipe && installs,
        DryStep::StartServer => prepared(scene, shares) && built(scene, installs),
        DryStep::Verify | DryStep::StopServer | DryStep::Passed => {
            prepared(scene, shares) && built(scene, installs) && scene.started
        },
        DryStep::RemoveScratch => !scene.failed ==> prepared(scene, shares) && built(
            scene,
            installs,
        ) && scene.started,
        _ => true,
    }
    &&& match step {
        DryStep::TakeId | DryStep::CreateScratch => {
            !scene.created && !scene.server && !scene.failed && !scene.verified
        },
        DryStep::Sync | DryStep::LinkShared | DryStep::ReadRecipe | DryStep::Install
        | DryStep::StartServer => {
            scene.created && !scene.server && !scene.failed && !scene.verified
        },
        DryStep::Verify => scene.created && scene.server && !scene.failed && !scene.verified,
        DryStep::StopServer => scene.created && scene.verified && !scene.failed,
        DryStep::RemoveScratch => {
            &&& scene.created && !scene.server
            &&& !scene.failed ==> scene.verified
        },
        DryStep::Passed => {
            scene.created && scene.cleaned && !scene.server && scene.verified && !scene.failed
        },
        DryStep::Failed => {
            &&& !scene.server && scene.failed
            &&& scene.created ==> scene.cleaned
        },
    }
}

proof fn lemma_stands(shares: bool, installs: bool, outcomes: Seq<bool>)
    ensures
        stands(
            play(shares, installs, outcomes).0,
            play(shares, installs, outcomes).1,
            shares,
            installs,
        ),
    decreases outcomes.len(),
{
    if outcomes.len() > 0 {
        lemma_stands(shares, installs, outcomes.drop_last());
    }
}

/// When a dry run is over, nothing of it is running and its folder was removed;
/// it has passed if and only if no step failed, and then the release stayed up
/// and passed its check.
pub proof fn law_dry_run_leaves_nothing(shares: bool, installs: bool, outcomes: Seq<bool>)
    requires
        over(play(shares, installs, outcomes).0),
    ensures
        ({
            let (step, scene) = play(shares, installs, outcomes);
            &&& !scene.server
            &&& scene.created ==> scene.cleaned
            &&& step == DryStep::Passed <==> !scene.failed
            &&& step == DryStep::Passed ==> scene.verified
        }),
{
    lemma_stands(shares, installs, outcomes);
}

/// The release is started only, and the dry run passes only, once every step
/// succeeded that the recipe and the settings ask for: the repository is synced,
/// the shared paths are linked where there are any, the recipe is read, and the
/// install command succeeded where there is one. What they do not ask for is not
/// done.
pub proof fn law_dry_run_builds_the_release(shares: bool, installs: bool, outcomes: Seq<bool>)
    ensures
        ({
            let (step, scene) = play(shares, installs, outcomes);
            &&& step == DryStep::StartServer || step == DryStep::Verify || step
                == DryStep::StopServer || step == DryStep::Passed ==> {
                &&& scene.synced
                &&& shares ==> scene.linked
                &&& scene.recipe
                &&& installs ==> scene.installed
            }
            &&& step == DryStep::ReadRecipe || step == DryStep::Install ==> {
                &&& scene.synced
                &&& shares ==> scene.linked
            }
            &&& step == DryStep::Passed ==> scene.started && scene.verified
            &&& !shares ==> step != DryStep::LinkShared && !scene.linked
            &&& !installs ==> step != DryStep::Install && !scene.installed
        }),
{
    lemma_stands(shares, installs, outcomes);
}

/// The steps of a dry run in which everything succeeds.
pub open spec fn course(shares: bool, installs: bool) -> Seq<DryStep> {
    let to_sync = seq![DryStep::TakeId, DryStep::CreateScratch, DryStep::Sync];
    let to_recipe = if shares {
        to_sync.push(DryStep::LinkShared).push(DryStep::ReadRecipe)
    } else {
        to_sync.push(DryStep::ReadRecipe)
    };
    let to_start = if installs {
        to_recipe.push(DryStep::Install).push(DryStep::StartServer)
    } else {
        to_recipe.push(DryStep::StartServer)
    };
    to_start + seq![
        DryStep::Verify,
        DryStep::StopServer,
        DryStep::RemoveScratch,
        DryStep::Passed,
    ]
}

/// As long as every step succeeds, a dry run takes the steps of its course, one
/// after the other; whether its folder can be removed does not matter.
pub proof fn law_course_is_kept(shares: bool, installs: bool, outcomes: Seq<bool>)
    requires
        outcomes.len() < course(shares, installs).len(),
        forall|i: int|
            0 <= i < outcomes.len() ==> #[trigger] outcomes[i] || course(shares, installs)[i]
                == DryStep::RemoveScratch,
    ensures
        play(shares, installs, outcomes).0 == course(shares, installs)[outcomes.len() as int],
        !play(shares, installs, outcomes).1.failed,
    decreases outcomes.len(),
{
    if outcomes.len() > 0 {
        let rest = outcomes.drop_last();
        let n = rest.len() as int;
        assert forall|i: int| 0 <= i < rest.len() implies #[trigger] rest[i] || course(
            shares,
            installs,
        )[i] == DryStep::RemoveScratch by {
            assert(rest[i] == outcomes[i]);
        }
        law_course_is_kept(shares, installs, rest);
        assert(outcomes[n] || course(shares, installs)[n] == DryStep::RemoveScratch);
        let s: int = if shares { 1 } else { 0 };
        let i: int = if installs { 1 } else { 0 };
        let start = 4 + s + i;
        if n > start {
            let tail = seq![
                DryStep::Verify,
                DryStep::StopServer,
                DryStep::RemoveScratch,
                DryStep::Passed,
            ];
            assert(course(shares, installs)[n] == tail[n - start - 1]);
            assert(course(shares, installs)[n + 1] == tail[n - start]);
        }
    }
}

/// After a step fails the dry run fails: at once where there is no folder yet,
/// and else once an attempt was made to remove the folder. A release that was
/// started and cannot be stopped cleanly is such a failure.
pub proof fn law_failure_is_cleaned_up(
    shares: bool,
    installs: bool,
    outcomes: Seq<bool>,
    removed: bool,
)
    ensures
        ({
            let step = play(shares, installs, outcomes).0;
            let failed = outcomes.push(false);
            let then = play(shares, installs, failed).0;
            &&& step == DryStep::TakeId || step == DryStep::CreateScratch ==> then
                == DryStep::Failed
            &&& step == DryStep::Sync || step == DryStep::LinkShared || step == DryStep::ReadRecipe
                || step == DryStep::Install || step == DryStep::StartServer || step
                == DryStep::Verify || step == DryStep::StopServer ==> then
                == DryStep::RemoveScratch && play(shares, installs, failed.push(removed)).0
                == DryStep::Failed
        }),
{
    let failed = outcomes.push(false);
    assert(failed.drop_last() =~= outcomes);
    assert(failed.push(removed).drop_last() =~= failed);
}

/// A dry run that is over has passed exactly when nothing has failed, and the
/// last failure that counts is told as it is.
pub proof fn law_result_tells_the_end(run: DryRun, result: Result<String, String>)
    requires
        run.wf(),
        over(run.step),
        call_ensures(DryRun::result, (run,), result),
    ensures
        result is Ok <==> run.step == DryStep::Passed,
        result is Err <==> run.step == DryStep::Failed,
        result matches Err(error) ==> run.error == Some(error),
{
}

/// Every failure but that of removing the folder fails the dry run.
pub proof fn law_what_counts(step: DryStep)
    ensures
        counts(step) <==> {
            ||| step == DryStep::TakeId
            ||| step == DryStep::CreateScratch
            ||| step == DryStep::Sync
            ||| step == DryStep::LinkShared
            ||| step == DryStep::ReadRecipe
            ||| step == DryStep::Install
            ||| step == DryStep::StartServer
            ||| step == DryStep::Verify
            ||| step == DryStep::StopServer
        },
{
}

/// Every dry run is over after at most ten steps.
pub proof fn law_every_dry_run_ends(shares: bool, installs: bool, outcomes: Seq<bool>)
    requires
        outcomes.len() >= 10,
    ensures
        over(play(shares, installs, outcomes).0),
{
    lemma_rank(shares, installs, outcomes);
}

spec fn rank(step: DryStep) -> int {
    match step {
        DryStep::TakeId => 10,
        DryStep::CreateScratch => 9,
        DryStep::Sync => 8,
        DryStep::LinkShared => 7,
        DryStep::ReadRecipe => 6,
        DryStep::Install => 5,
        DryStep::StartServer => 4,
        DryStep::Verify => 3,
        DryStep::StopServer => 2,
        DryStep::RemoveScratch => 1,
        DryStep::Passed | DryStep::Failed => 0,
    }
}

proof fn lemma_rank(shares: bool, installs: bool, outcomes: Seq<bool>)
    ensures
        rank(play(shares, installs, outcomes).0) <= if outcomes.len() <= 10 {
            10 - outcomes.len()
        } else {
            0
        },
    decreases outcomes.len(),
{
    if outcomes.len() > 0 {
        lemma_rank(shares, installs, outcomes.drop_last());
    }
}

/// A dry run begins by taking its name, knows what it was told, and has not
/// failed.
pub proof fn law_first_step(shares: bool, run: DryRun)
    requires
        call_ensures(DryRun::new, (shares,), run),
    ensures
        run.step == DryStep::TakeId,
        run.shares == shares,
        run.error is None,
        run.step == play(shares, run.installs, Seq::empty()).0,
{
}

} // verus!
