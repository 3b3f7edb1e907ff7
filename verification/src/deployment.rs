//! One deployment, step by step: which step follows which, what is done about
//! a step that fails, and what holds of the root and of the running server at
//! every point.

use vstd::prelude::*;

use crate::text::{begins, holds, stands_at, text_of};

verus! {

/// A step of a deployment. Each but the last two is something to do, which
/// then succeeds or fails.
#[derive(Clone, Copy, Debug, PartialEq, Eq, Structural)]
pub enum Step {
    /// Wait until the interlock is away.
    AwaitInterlock,
    /// Ask the remote for the commit.
    AskHead,
    /// Name the release after the time.
    TakeId,
    /// Create the folder of the releases.
    CreateFolder,
    /// Write the marker of the release.
    WriteMarker,
    /// Create the folder of the release.
    CreateRelease,
    /// Open the log of the release.
    OpenLog,
    /// Run the sync command.
    Sync,
    /// Link the shared paths.
    LinkShared,
    /// Read the recipe from the synced repository.
    ReadRecipe,
    /// Run the install command.
    Install,
    /// Remove the folder of a release that did not build.
    DropRelease,
    /// Remove the marker of a release that did not build.
    DropMarker,
    /// Wait until the interlock is away, once more: it may have come while the
    /// release was built.
    AwaitInterlockAgain,
    /// Remove the marker: the release is complete.
    ClearMarker,
    /// Stop the running server.
    StopServer,
    /// Start the release.
    StartServer,
    /// See that the release stays up and passes its check. Where it does not,
    /// nothing of it is left running.
    Verify,
    /// Remove the folder of a release that did not stay up.
    TearDown,
    /// Start the release that current points at.
    RestartPrevious,
    /// Move current to the release.
    PointCurrent,
    /// Stop the release, since current could not be moved to it.
    StopNew,
    /// Record the commit.
    RecordHead,
    /// Remove old releases.
    Prune,
    /// Remove old logs.
    PruneLogs,
    /// The release is deployed.
    Deployed,
    /// The deployment has failed.
    Failed,
}

/// What decides on the way of a deployment besides success and failure.
#[derive(Clone, Copy, Debug, PartialEq, Eq, Structural)]
pub struct Facts {
    /// Whether there are paths to share.
    pub shares: bool,
    /// Whether the recipe has an install command.
    pub installs: bool,
    /// Whether a server is running.
    pub serves: bool,
    /// Whether current points at a release.
    pub previous: bool,
}

/// The step that follows a step.
pub open spec fn after(step: Step, ok: bool, facts: Facts) -> Step {
    match step {
        Step::AwaitInterlock => if ok { Step::AskHead } else { Step::Failed },
        Step::AskHead => if ok { Step::TakeId } else { Step::Failed },
        Step::TakeId => if ok { Step::CreateFolder } else { Step::Failed },
        Step::CreateFolder => if ok { Step::WriteMarker } else { Step::Failed },
        Step::WriteMarker => if ok { Step::CreateRelease } else { Step::Failed },
        Step::CreateRelease => if ok { Step::OpenLog } else { Step::Failed },
        Step::OpenLog => Step::Sync,
        Step::Sync => if !ok {
            Step::DropRelease
        } else if facts.shares {
            Step::LinkShared
        } else {
            Step::ReadRecipe
        },
        Step::LinkShared => if ok { Step::ReadRecipe } else { Step::DropRelease },
        Step::ReadRecipe => if !ok {
            Step::DropRelease
        } else if facts.installs {
            Step::Install
        } else {
            Step::AwaitInterlockAgain
        },
        Step::Install => if ok { Step::AwaitInterlockAgain } else { Step::DropRelease },
        Step::DropRelease => Step::DropMarker,
        Step::DropMarker => Step::Failed,
        Step::AwaitInterlockAgain => if ok { Step::ClearMarker } else { Step::Failed },
        Step::ClearMarker => if !ok {
            Step::Failed
        } else if facts.serves {
            Step::StopServer
        } else {
            Step::StartServer
        },
        Step::StopServer => if ok { Step::StartServer } else { Step::Failed },
        Step::StartServer => if ok { Step::Verify } else { Step::TearDown },
        Step::Verify => if ok { Step::PointCurrent } else { Step::TearDown },
        Step::TearDown => if facts.previous { Step::RestartPrevious } else { Step::Failed },
        Step::RestartPrevious => Step::Failed,
        Step::PointCurrent => if ok { Step::RecordHead } else { Step::StopNew },
        Step::StopNew => Step::Failed,
        Step::RecordHead => Step::Prune,
        Step::Prune => Step::PruneLogs,
        Step::PruneLogs => Step::Deployed,
        Step::Deployed => Step::Deployed,
        Step::Failed => Step::Failed,
    }
}

/// Whether a deployment is over.
pub open spec fn over(step: Step) -> bool {
    step == Step::Deployed || step == Step::Failed
}

/// Whether a deployment has met a failure that it cannot go on from.
pub open spec fn failing(step: Step) -> bool {
    step == Step::DropRelease || step == Step::DropMarker || step == Step::TearDown || step
        == Step::RestartPrevious || step == Step::StopNew || step == Step::Failed
}

/// Whether a step is one of those that build the release.
pub open spec fn builds(step: Step) -> bool {
    step == Step::Sync || step == Step::LinkShared || step == Step::ReadRecipe || step
        == Step::Install
}

/// Whether a failure of a step is one of the release: what is said of it cites
/// the log.
pub open spec fn cites(step: Step) -> bool {
    builds(step) || step == Step::StartServer || step == Step::Verify
}

/// What is said of a step that failed.
pub open spec fn told(step: Step, error: Seq<char>, log: Seq<char>) -> Seq<char> {
    if cites(step) {
        error + " (log: "@ + log + ")"@
    } else if step == Step::PointCurrent {
        "failed to update the current deployment: "@ + error
    } else {
        error
    }
}

/// What is said of a deployment after a step: of the first failure that it
/// could not go on from.
pub open spec fn said_after(
    step: Step,
    said: Option<Seq<char>>,
    outcome: Result<(), Seq<char>>,
    log: Seq<char>,
) -> Option<Seq<char>> {
    match outcome {
        Ok(_) => said,
        Err(error) => if proceeds(step) {
            said
        } else {
            Some(told(step, error, log))
        },
    }
}

/// Whether a deployment goes the same way when a step fails as when it
/// succeeds.
pub open spec fn proceeds(step: Step) -> bool {
    failing(step) || step == Step::OpenLog || step == Step::RecordHead || step == Step::Prune
        || step == Step::PruneLogs || step == Step::Deployed
}

/// The text of an outcome.
pub open spec fn outcome_text(outcome: Result<(), String>) -> Result<(), Seq<char>> {
    match outcome {
        Ok(_) => Ok(()),
        Err(error) => Err(error@),
    }
}

/// A deployment on its way.
pub struct Deployment {
    pub step: Step,
    pub facts: Facts,
    /// What is said of the failure, once there is one.
    pub error: Option<String>,
}

impl Deployment {
    /// There is something to say once the deployment fails, and not before.
    pub open spec fn wf(self) -> bool {
        failing(self.step) <==> self.error is Some
    }

    /// A deployment at its first step.
    pub fn new(shares: bool, serves: bool) -> (r: Deployment)
        ensures
            r.wf(),
            r.step == Step::AwaitInterlock,
            r.facts == (Facts { shares, installs: false, serves, previous: false }),
    {
        Deployment {
            step: Step::AwaitInterlock,
            facts: Facts { shares, installs: false, serves, previous: false },
            error: None,
        }
    }

    /// Say whether the recipe that was read has an install command.
    pub fn learn_recipe(&mut self, installs: bool)
        ensures
            final(self).step == old(self).step,
            final(self).error == old(self).error,
            final(self).facts == (Facts { installs, ..old(self).facts }),
    {
        self.facts.installs = installs;
    }

    /// Say whether current points at a release.
    pub fn learn_previous(&mut self, previous: bool)
        ensures
            final(self).step == old(self).step,
            final(self).error == old(self).error,
            final(self).facts == (Facts { previous, ..old(self).facts }),
    {
        self.facts.previous = previous;
    }

    /// Go to the next step.
    pub fn advance(&mut self, outcome: Result<(), String>, log: &str)
        requires
            old(self).wf(),
        ensures
            final(self).wf(),
            final(self).step == after(old(self).step, outcome is Ok, old(self).facts),
            final(self).facts == old(self).facts,
            text_of(final(self).error) == said_after(
                old(self).step,
                text_of(old(self).error),
                outcome_text(outcome),
                log@,
            ),
    {
        let step: Step = self.step;
        let ok: bool = outcome.is_ok();
        if let Err(error) = outcome {
            if !goes_on(step) {
                self.error = Some(tell(step, error.as_str(), log));
            }
        }
        self.step = next(step, ok, self.facts);
    }

    /// What a deployment that is over came to.
    pub fn result(self) -> (r: Result<(), String>)
        requires
            self.wf(),
            over(self.step),
        ensures
            r is Ok <==> self.step == Step::Deployed,
            r matches Err(error) ==> self.error == Some(error),
    {
        match self.error {
            Some(error) => Err(error),
            None => Ok(()),
        }
    }
}

fn goes_on(step: Step) -> (r: bool)
    ensures
        r == proceeds(step),
{
    match step {
        Step::DropRelease => true,
        Step::DropMarker => true,
        Step::TearDown => true,
        Step::RestartPrevious => true,
        Step::StopNew => true,
        Step::Failed => true,
        Step::OpenLog => true,
        Step::RecordHead => true,
        Step::Prune => true,
        Step::PruneLogs => true,
        Step::Deployed => true,
        _ => false,
    }
}

fn tell(step: Step, error: &str, log: &str) -> (r: String)
    ensures
        r@ == told(step, error@, log@),
{
    match step {
        Step::Sync | Step::LinkShared | Step::ReadRecipe | Step::Install | Step::StartServer
        | Step::Verify => {
            let mut message: String = error.to_owned();
            message.append(" (log: ");
            message.append(log);
            message.append(")");
            message
        },
        Step::PointCurrent => {
            let mut message: String = "failed to update the current deployment: ".to_owned();
            message.append(error);
            message
        },
        _ => error.to_owned(),
    }
}

fn next(step: Step, ok: bool, facts: Facts) -> (r: Step)
    ensures
        r == after(step, ok, facts),
{
    match step {
        Step::AwaitInterlock => if ok { Step::AskHead } else { Step::Failed },
        Step::AskHead => if ok { Step::TakeId } else { Step::Failed },
        Step::TakeId => if ok { Step::CreateFolder } else { Step::Failed },
        Step::CreateFolder => if ok { Step::WriteMarker } else { Step::Failed },
        Step::WriteMarker => if ok { Step::CreateRelease } else { Step::Failed },
        Step::CreateRelease => if ok { Step::OpenLog } else { Step::Failed },
        Step::OpenLog => Step::Sync,
        Step::Sync => if !ok {
            Step::DropRelease
        } else if facts.shares {
            Step::LinkShared
        } else {
            Step::ReadRecipe
        },
        Step::LinkShared => if ok { Step::ReadRecipe } else { Step::DropRelease },
        Step::ReadRecipe => if !ok {
            Step::DropRelease
        } else if facts.installs {
            Step::Install
        } else {
            Step::AwaitInterlockAgain
        },
        Step::Install => if ok { Step::AwaitInterlockAgain } else { Step::DropRelease },
        Step::DropRelease => Step::DropMarker,
        Step::DropMarker => Step::Failed,
        Step::AwaitInterlockAgain => if ok { Step::ClearMarker } else { Step::Failed },
        Step::ClearMarker => if !ok {
            Step::Failed
        } else if facts.serves {
            Step::StopServer
        } else {
            Step::StartServer
        },
        Step::StopServer => if ok { Step::StartServer } else { Step::Failed },
        Step::StartServer => if ok { Step::Verify } else { Step::TearDown },
        Step::Verify => if ok { Step::PointCurrent } else { Step::TearDown },
        Step::TearDown => if facts.previous { Step::RestartPrevious } else { Step::Failed },
        Step::RestartPrevious => Step::Failed,
        Step::PointCurrent => if ok { Step::RecordHead } else { Step::StopNew },
        Step::StopNew => Step::Failed,
        Step::RecordHead => Step::Prune,
        Step::Prune => Step::PruneLogs,
        Step::PruneLogs => Step::Deployed,
        Step::Deployed => Step::Deployed,
        Step::Failed => Step::Failed,
    }
}

/// What is printed of a step that failed without ending the deployment, if
/// anything is.
pub fn complaint(step: Step, error: &str) -> (r: Option<String>)
    ensures
        text_of(r) == match step {
            Step::RecordHead => Some("failed to record the deployed commit: "@ + error@),
            Step::RestartPrevious => Some("failed to restart the previous release: "@ + error@),
            _ => None,
        },
{
    match step {
        Step::RecordHead => {
            let mut message: String = "failed to record the deployed commit: ".to_owned();
            message.append(error);
            Some(message)
        },
        Step::RestartPrevious => {
            let mut message: String = "failed to restart the previous release: ".to_owned();
            message.append(error);
            Some(message)
        },
        _ => None,
    }
}

/// Which release is running.
#[derive(Clone, Copy, Debug, PartialEq, Eq, Structural)]
pub enum Runs {
    Nothing,
    Previous,
    New,
}

/// How things stand during a deployment.
pub struct World {
    /// Which release the managed server runs.
    pub server: Runs,
    /// Whether the server has been touched.
    pub replacing: bool,
    /// Whether the interlock was seen to be away before the sync.
    pub clear_to_sync: bool,
    /// Whether the interlock was seen to be away after the build.
    pub clear_to_restart: bool,
    /// Whether the marker of the release is there.
    pub marker: bool,
    /// Whether the folder of the release is there.
    pub release: bool,
    /// Whether the remote told its commit.
    pub asked: bool,
    /// Whether the release has its name.
    pub named: bool,
    /// Whether the log has been opened, or an attempt was made.
    pub logged: bool,
    /// Whether the sync command succeeded.
    pub synced: bool,
    /// Whether the shared paths are linked into the release.
    pub linked: bool,
    /// Whether the recipe has been read.
    pub recipe: bool,
    /// Whether the install command succeeded.
    pub installed: bool,
    /// Whether the release has been built.
    pub built: bool,
    /// Whether the release has been seen to stay up and to pass its check.
    pub verified: bool,
    /// Whether current points at the release.
    pub current: bool,
    /// Whether the file `head` records the commit.
    pub head: bool,
    /// Whether the commit has been recorded, or an attempt was made.
    pub recorded: bool,
    /// Whether old releases have been looked for.
    pub pruned: bool,
    /// Whether old logs have been looked for.
    pub logs_pruned: bool,
    /// Whether a step has failed that a deployment cannot do without.
    pub broken: bool,
}

/// What runs before a deployment.
pub open spec fn runs_before(facts: Facts) -> Runs {
    if facts.serves {
        Runs::Previous
    } else {
        Runs::Nothing
    }
}

/// How things stand before a deployment.
pub open spec fn world_before(facts: Facts) -> World {
    World {
        server: runs_before(facts),
        replacing: false,
        clear_to_sync: false,
        clear_to_restart: false,
        marker: false,
        release: false,
        asked: false,
        named: false,
        logged: false,
        synced: false,
        linked: false,
        recipe: false,
        installed: false,
        built: false,
        verified: false,
        current: false,
        head: false,
        recorded: false,
        pruned: false,
        logs_pruned: false,
        broken: false,
    }
}

/// Whether a deployment cannot do without a step.
pub open spec fn needed(step: Step) -> bool {
    ||| step == Step::AwaitInterlock
    ||| step == Step::AskHead
    ||| step == Step::TakeId
    ||| step == Step::CreateFolder
    ||| step == Step::WriteMarker
    ||| step == Step::CreateRelease
    ||| step == Step::Sync
    ||| step == Step::LinkShared
    ||| step == Step::ReadRecipe
    ||| step == Step::Install
    ||| step == Step::AwaitInterlockAgain
    ||| step == Step::ClearMarker
    ||| step == Step::StopServer
    ||| step == Step::StartServer
    ||| step == Step::Verify
    ||| step == Step::PointCurrent
}

/// How things stand after a step.
pub open spec fn effect(world: World, step: Step, ok: bool, facts: Facts) -> World {
    World {
        server: if step == Step::StopServer || step == Step::StopNew {
            Runs::Nothing
        } else if step == Step::StartServer || step == Step::Verify {
            if ok {
                Runs::New
            } else {
                Runs::Nothing
            }
        } else if step == Step::RestartPrevious {
            if ok {
                Runs::Previous
            } else {
                Runs::Nothing
            }
        } else {
            world.server
        },
        replacing: if step == Step::StopServer || step == Step::StartServer {
            true
        } else {
            world.replacing
        },
        clear_to_sync: if step == Step::AwaitInterlock {
            ok
        } else {
            world.clear_to_sync
        },
        clear_to_restart: if step == Step::AwaitInterlockAgain {
            ok
        } else {
            world.clear_to_restart
        },
        marker: if step == Step::WriteMarker {
            ok
        } else if step == Step::DropMarker || step == Step::ClearMarker {
            world.marker && !ok
        } else {
            world.marker
        },
        release: if step == Step::CreateRelease {
            ok
        } else if step == Step::DropRelease || step == Step::TearDown {
            world.release && !ok
        } else {
            world.release
        },
        asked: if step == Step::AskHead {
            ok
        } else {
            world.asked
        },
        named: if step == Step::TakeId {
            ok
        } else {
            world.named
        },
        logged: world.logged || step == Step::OpenLog,
        synced: if step == Step::Sync {
            ok
        } else {
            world.synced
        },
        linked: if step == Step::LinkShared {
            ok
        } else {
            world.linked
        },
        recipe: if step == Step::ReadRecipe {
            ok
        } else {
            world.recipe
        },
        installed: if step == Step::Install {
            ok
        } else {
            world.installed
        },
        built: if step == Step::ReadRecipe {
            ok && !facts.installs
        } else if step == Step::Install {
            ok
        } else {
            world.built
        },
        verified: if step == Step::Verify {
            ok
        } else {
            world.verified
        },
        current: if step == Step::PointCurrent {
            ok
        } else {
            world.current
        },
        head: if step == Step::RecordHead {
            ok
        } else {
            world.head
        },
        recorded: world.recorded || step == Step::RecordHead,
        pruned: world.pruned || step == Step::Prune,
        logs_pruned: world.logs_pruned || step == Step::PruneLogs,
        broken: world.broken || (needed(step) && !ok),
    }
}

/// Where a deployment stands, and how things stand, after steps with these
/// outcomes.
pub open spec fn play(facts: Facts, outcomes: Seq<bool>) -> (Step, World)
    decreases outcomes.len(),
{
    if outcomes.len() == 0 {
        (Step::AwaitInterlock, world_before(facts))
    } else {
        let (step, world) = play(facts, outcomes.drop_last());
        (after(step, outcomes.last(), facts), effect(world, step, outcomes.last(), facts))
    }
}

/// Whether what is known of the facts at a step is enough to go on: whether
/// there is something to share and a server, always; whether there is an install
/// command, once the recipe is read; whether there is a previous release, once a
/// release is torn down.
pub open spec fn agree(step: Step, one: Facts, other: Facts) -> bool {
    &&& one.shares == other.shares
    &&& one.serves == other.serves
    &&& step == Step::ReadRecipe ==> one.installs == other.installs
    &&& step == Step::TearDown ==> one.previous == other.previous
}

/// A step leads to the same whether the other facts are known already or not.
pub proof fn law_facts_may_be_learned_late(
    step: Step,
    world: World,
    ok: bool,
    one: Facts,
    other: Facts,
)
    requires
        agree(step, one, other),
    ensures
        after(step, ok, one) == after(step, ok, other),
        effect(world, step, ok, one) == effect(world, step, ok, other),
{
}

/// Where a deployment stands, and how things stand, after steps with these
/// outcomes, each taken with what was known of the facts at it.
pub open spec fn follow(known: Seq<Facts>, facts: Facts, outcomes: Seq<bool>) -> (Step, World)
    decreases outcomes.len(),
{
    if outcomes.len() == 0 {
        (Step::AwaitInterlock, world_before(facts))
    } else {
        let (step, world) = follow(known, facts, outcomes.drop_last());
        let now = known[outcomes.len() - 1];
        (after(step, outcomes.last(), now), effect(world, step, outcomes.last(), now))
    }
}

/// A deployment that learns the facts on its way goes where it would go had it
/// known them from the start, so what holds of the one holds of the other.
pub proof fn law_learning_on_the_way(known: Seq<Facts>, facts: Facts, outcomes: Seq<bool>)
    requires
        known.len() == outcomes.len(),
        forall|i: int|
            0 <= i < known.len() ==> agree(
                play(facts, #[trigger] outcomes.take(i)).0,
                known[i],
                facts,
            ),
    ensures
        follow(known, facts, outcomes) == play(facts, outcomes),
{
    assert(outcomes.take(outcomes.len() as int) == outcomes);
    lemma_follow(known, facts, outcomes, outcomes.len() as int);
}

#[verifier::spinoff_prover]
#[verifier::rlimit(40)]
proof fn lemma_follow(known: Seq<Facts>, facts: Facts, outcomes: Seq<bool>, n: int)
    requires
        known.len() == outcomes.len(),
        0 <= n <= outcomes.len(),
        forall|i: int|
            0 <= i < known.len() ==> agree(
                play(facts, #[trigger] outcomes.take(i)).0,
                known[i],
                facts,
            ),
    ensures
        follow(known, facts, outcomes.take(n)) == play(facts, outcomes.take(n)),
    decreases n,
{
    if n > 0 {
        lemma_follow(known, facts, outcomes, n - 1);
        assert(outcomes.take(n).drop_last() =~= outcomes.take(n - 1));
        let (step, world) = play(facts, outcomes.take(n - 1));
        assert(agree(step, known[n - 1], facts));
        law_facts_may_be_learned_late(step, world, outcomes[n - 1], known[n - 1], facts);
    }
}

/// How many more steps there are at most.
pub open spec fn rank(step: Step) -> int {
    match step {
        Step::AwaitInterlock => 20,
        Step::AskHead => 19,
        Step::TakeId => 18,
        Step::CreateFolder => 17,
        Step::WriteMarker => 16,
        Step::CreateRelease => 15,
        Step::OpenLog => 14,
        Step::Sync => 13,
        Step::LinkShared => 12,
        Step::ReadRecipe => 11,
        Step::Install => 10,
        Step::AwaitInterlockAgain => 9,
        Step::ClearMarker => 8,
        Step::StopServer => 7,
        Step::StartServer => 6,
        Step::Verify => 5,
        Step::PointCurrent => 4,
        Step::RecordHead => 3,
        Step::DropRelease | Step::TearDown | Step::Prune => 2,
        Step::DropMarker | Step::RestartPrevious | Step::StopNew | Step::PruneLogs => 1,
        Step::Deployed | Step::Failed => 0,
    }
}

/// Whether a release is ready for its recipe: it is synced, and the shared paths
/// are linked where there are any.
pub open spec fn prepared(world: World, facts: Facts) -> bool {
    world.synced && (facts.shares ==> world.linked)
}

/// What holds at each step.
spec fn stands(step: Step, world: World, facts: Facts) -> bool {
    &&& !world.replacing ==> world.server == runs_before(facts)
    &&& world.replacing ==> world.clear_to_restart && world.built
    &&& world.release ==> world.clear_to_sync
    &&& world.release && !world.marker && step != Step::Failed ==> world.built
    &&& world.head ==> world.current
    &&& world.pruned ==> world.current
    &&& world.broken <==> failing(step)
    &&& world.linked ==> facts.shares
    &&& world.installed ==> facts.installs
    &&& world.recipe ==> prepared(world, facts)
    &&& world.current ==> world.built
    &&& world.built ==> prepared(world, facts) && world.recipe && (facts.installs
        ==> world.installed)
    &&& match step {
        Step::AwaitInterlock | Step::AskHead | Step::TakeId | Step::CreateFolder
        | Step::WriteMarker => {
            &&& step != Step::AwaitInterlock ==> world.clear_to_sync
            &&& step != Step::AwaitInterlock && step != Step::AskHead ==> world.asked
            &&& step == Step::CreateFolder || step == Step::WriteMarker ==> world.named
            &&& !world.replacing && !world.release && !world.current && !world.marker
            &&& !world.recipe && !world.built
        },
        Step::CreateRelease => {
            &&& world.clear_to_sync && world.marker && world.asked && world.named
            &&& !world.replacing && !world.release && !world.current
            &&& !world.recipe && !world.built
        },
        Step::OpenLog | Step::Sync | Step::LinkShared | Step::ReadRecipe | Step::Install => {
            &&& world.clear_to_sync && world.marker && world.release
            &&& !world.replacing && !world.current
            &&& world.asked && world.named
            &&& step != Step::OpenLog ==> world.logged
            &&& step == Step::LinkShared ==> world.synced && facts.shares
            &&& step == Step::ReadRecipe || step == Step::Install ==> prepared(world, facts)
            &&& !world.built
            &&& step != Step::Install ==> !world.recipe
            &&& step == Step::Install ==> world.recipe && facts.installs
        },
        Step::DropRelease => {
            &&& world.marker && !world.replacing && !world.current
        },
        Step::DropMarker => {
            &&& world.marker && !world.replacing && !world.current
        },
        Step::AwaitInterlockAgain => {
            &&& world.built && world.marker && world.release
            &&& !world.replacing && !world.current
        },
        Step::ClearMarker => {
            &&& world.built && world.marker && world.release && world.clear_to_restart
            &&& !world.replacing && !world.current
        },
        Step::StopServer | Step::StartServer => {
            &&& world.built && !world.marker && world.release && world.clear_to_restart
            &&& !world.current
            &&& step == Step::StopServer ==> facts.serves
            &&& step == Step::StartServer ==> world.server == Runs::Nothing
        },
        Step::Verify => {
            &&& world.built && !world.marker && world.release && world.replacing
            &&& world.server == Runs::New && !world.current
        },
        Step::TearDown | Step::RestartPrevious => {
            &&& world.replacing && world.server == Runs::Nothing && !world.current
                && !world.marker && world.built
            &&& step == Step::RestartPrevious ==> facts.previous
        },
        Step::PointCurrent => {
            &&& world.built && !world.marker && world.release && world.replacing
            &&& world.server == Runs::New && world.verified && !world.current
        },
        Step::StopNew => world.replacing && !world.current,
        Step::RecordHead | Step::Prune | Step::PruneLogs | Step::Deployed => {
            &&& world.built && !world.marker && world.release && world.replacing
            &&& world.server == Runs::New && world.verified && world.current
            &&& step != Step::RecordHead ==> world.recorded
            &&& step == Step::PruneLogs || step == Step::Deployed ==> world.pruned
            &&& step == Step::Deployed ==> world.logs_pruned
        },
        Step::Failed => !world.current && world.server != Runs::New,
    }
}

proof fn lemma_stands(facts: Facts, outcomes: Seq<bool>)
    ensures
        stands(play(facts, outcomes).0, play(facts, outcomes).1, facts),
    decreases outcomes.len(),
{
    if outcomes.len() > 0 {
        lemma_stands(facts, outcomes.drop_last());
    }
}

/// Nothing is synced before the interlock was seen to be away, and the running
/// server is not touched before it was seen to be away once more, after the
/// build.
pub proof fn law_interlock_comes_first(facts: Facts, outcomes: Seq<bool>)
    ensures
        ({
            let (step, world) = play(facts, outcomes);
            &&& builds(step) || world.release ==> world.clear_to_sync
            &&& world.replacing ==> world.clear_to_restart
        }),
{
    lemma_stands(facts, outcomes);
}

/// An interlock that cannot be looked at stops the deployment, without a change
/// to the server, to current or to head.
pub proof fn law_interlock_fails_closed(facts: Facts, outcomes: Seq<bool>)
    requires
        outcomes.len() > 0,
        ({
            let step = play(facts, outcomes.drop_last()).0;
            step == Step::AwaitInterlock || step == Step::AwaitInterlockAgain
        }),
        !outcomes.last(),
    ensures
        ({
            let (step, world) = play(facts, outcomes);
            &&& step == Step::Failed
            &&& world.server == runs_before(facts)
            &&& !world.current
            &&& !world.head
        }),
{
    lemma_stands(facts, outcomes.drop_last());
    lemma_stands(facts, outcomes);
}

/// Current only ever moves to a release that was built, stayed up and passed
/// its check, and that is running.
pub proof fn law_current_moves_to_a_verified_release(facts: Facts, outcomes: Seq<bool>)
    ensures
        ({
            let world = play(facts, outcomes).1;
            world.current ==> world.built && world.verified && world.server == Runs::New
        }),
{
    lemma_stands(facts, outcomes);
}

/// The commit is recorded and old releases are removed only once current has
/// moved.
pub proof fn law_current_moves_before_head_and_prune(facts: Facts, outcomes: Seq<bool>)
    ensures
        ({
            let world = play(facts, outcomes).1;
            &&& world.head ==> world.current
            &&& world.pruned ==> world.current
        }),
{
    lemma_stands(facts, outcomes);
}

/// A deployment that fails leaves current, head and the old releases as they
/// were.
pub proof fn law_failure_leaves_the_deployed_state(facts: Facts, outcomes: Seq<bool>)
    requires
        play(facts, outcomes).0 == Step::Failed,
    ensures
        ({
            let world = play(facts, outcomes).1;
            &&& !world.current
            &&& !world.head
            &&& !world.pruned
        }),
{
    lemma_stands(facts, outcomes);
}

/// A release that does not build is discarded, and the server that was running
/// keeps running.
pub proof fn law_failed_build_is_discarded(facts: Facts, outcomes: Seq<bool>)
    requires
        builds(play(facts, outcomes).0),
    ensures
        ({
            let failed = outcomes.push(false);
            let dropped = failed.push(true);
            let (step, world) = play(facts, dropped.push(true));
            &&& play(facts, failed).0 == Step::DropRelease
            &&& play(facts, dropped).0 == Step::DropMarker
            &&& step == Step::Failed
            &&& !world.release
            &&& !world.marker
            &&& world.server == runs_before(facts)
        }),
{
    let failed = outcomes.push(false);
    let dropped = failed.push(true);
    let over = dropped.push(true);
    assert(failed.drop_last() == outcomes);
    assert(dropped.drop_last() == failed);
    assert(over.drop_last() == dropped);
    lemma_stands(facts, outcomes);
    lemma_stands(facts, over);
}

/// A release that cannot be started, does not stay up or does not pass its
/// check is torn down, and the previous release is started again, if there is
/// one.
pub proof fn law_failed_release_is_torn_down(facts: Facts, outcomes: Seq<bool>)
    requires
        play(facts, outcomes).0 == Step::StartServer || play(facts, outcomes).0 == Step::Verify,
    ensures
        ({
            let failed = outcomes.push(false);
            let torn = failed.push(true);
            let (step, world) = play(facts, torn.push(true));
            &&& play(facts, failed).0 == Step::TearDown
            &&& play(facts, failed).1.server == Runs::Nothing
            &&& facts.previous ==> play(facts, torn).0 == Step::RestartPrevious
            &&& step == Step::Failed
            &&& !world.release
            &&& world.server == if facts.previous {
                Runs::Previous
            } else {
                Runs::Nothing
            }
            &&& !world.current
        }),
{
    let failed = outcomes.push(false);
    let torn = failed.push(true);
    let over = torn.push(true);
    assert(failed.drop_last() == outcomes);
    assert(torn.drop_last() == failed);
    assert(over.drop_last() == torn);
    lemma_stands(facts, outcomes);
    lemma_stands(facts, over);
}

/// Where there are paths to share they are linked before the recipe of the
/// release is read, and so before it is installed, started or made current,
/// whether or not a server is running. Where there are none, nothing is linked.
pub proof fn law_shared_paths_are_linked_first(facts: Facts, outcomes: Seq<bool>)
    ensures
        ({
            let (step, world) = play(facts, outcomes);
            &&& facts.shares && (step == Step::ReadRecipe || world.recipe || world.built
                || world.replacing || world.current) ==> world.synced && world.linked
            &&& !facts.shares ==> step != Step::LinkShared && !world.linked
        }),
{
    lemma_stands(facts, outcomes);
}

/// Where the recipe has an install command, it has succeeded before the server
/// is touched; where it has none, nothing is installed. The commit was asked
/// for, and the recipe read, before that too.
pub proof fn law_release_is_built_before_the_server_is_touched(facts: Facts, outcomes: Seq<bool>)
    ensures
        ({
            let (step, world) = play(facts, outcomes);
            &&& world.replacing || step == Step::StopServer || step == Step::StartServer ==> {
                &&& world.synced
                &&& world.recipe
                &&& facts.installs ==> world.installed
            }
            &&& !facts.installs ==> step != Step::Install && !world.installed
            &&& builds(step) ==> world.asked && world.named && world.logged
        }),
{
    lemma_stands(facts, outcomes);
}

/// Two releases never run at once: a server that is running is stopped before
/// the release is started, and where none is running none is stopped.
pub proof fn law_one_release_runs_at_a_time(facts: Facts, outcomes: Seq<bool>)
    ensures
        ({
            let (step, world) = play(facts, outcomes);
            &&& step == Step::StartServer ==> world.server == Runs::Nothing
            &&& step == Step::StopServer ==> facts.serves
            &&& step == Step::RestartPrevious ==> world.server == Runs::Nothing && facts.previous
        }),
{
    lemma_stands(facts, outcomes);
}

/// A deployment fails if and only if a step fails that it cannot do without, and
/// then nothing of the release is left running.
pub proof fn law_what_fails_a_deployment(facts: Facts, outcomes: Seq<bool>)
    ensures
        ({
            let (step, world) = play(facts, outcomes);
            &&& step == Step::Failed ==> world.broken && world.server != Runs::New
            &&& world.broken ==> step != Step::Deployed && !world.current
            &&& over(step) && !world.broken ==> step == Step::Deployed
        }),
{
    lemma_stands(facts, outcomes);
}

/// The steps of a deployment in which everything succeeds.
pub open spec fn course(facts: Facts) -> Seq<Step> {
    let to_sync = seq![
        Step::AwaitInterlock,
        Step::AskHead,
        Step::TakeId,
        Step::CreateFolder,
        Step::WriteMarker,
        Step::CreateRelease,
        Step::OpenLog,
        Step::Sync,
    ];
    let to_recipe = if facts.shares {
        to_sync.push(Step::LinkShared).push(Step::ReadRecipe)
    } else {
        to_sync.push(Step::ReadRecipe)
    };
    let to_restart = if facts.installs {
        to_recipe.push(Step::Install).push(Step::AwaitInterlockAgain).push(Step::ClearMarker)
    } else {
        to_recipe.push(Step::AwaitInterlockAgain).push(Step::ClearMarker)
    };
    let to_start = if facts.serves {
        to_restart.push(Step::StopServer).push(Step::StartServer)
    } else {
        to_restart.push(Step::StartServer)
    };
    to_start + seq![
        Step::Verify,
        Step::PointCurrent,
        Step::RecordHead,
        Step::Prune,
        Step::PruneLogs,
        Step::Deployed,
    ]
}

/// What is done about a step that a deployment cannot do without and that
/// failed.
pub open spec fn recovery(step: Step, facts: Facts) -> Seq<Step> {
    if step == Step::Sync || step == Step::LinkShared || step == Step::ReadRecipe || step
        == Step::Install {
        seq![Step::DropRelease, Step::DropMarker, Step::Failed]
    } else if step == Step::StartServer || step == Step::Verify {
        if facts.previous {
            seq![Step::TearDown, Step::RestartPrevious, Step::Failed]
        } else {
            seq![Step::TearDown, Step::Failed]
        }
    } else if step == Step::PointCurrent {
        seq![Step::StopNew, Step::Failed]
    } else {
        seq![Step::Failed]
    }
}

/// As long as every step succeeds that it cannot do without, a deployment takes
/// the steps of its course, one after the other.
pub proof fn law_course_is_kept(facts: Facts, outcomes: Seq<bool>)
    requires
        outcomes.len() < course(facts).len(),
        forall|i: int|
            0 <= i < outcomes.len() ==> #[trigger] outcomes[i] || !needed(course(facts)[i]),
    ensures
        play(facts, outcomes).0 == course(facts)[outcomes.len() as int],
    decreases outcomes.len(),
{
    if outcomes.len() > 0 {
        let rest = outcomes.drop_last();
        let n = rest.len() as int;
        assert forall|i: int| 0 <= i < rest.len() implies #[trigger] rest[i] || !needed(
            course(facts)[i],
        ) by {
            assert(rest[i] == outcomes[i]);
        }
        law_course_is_kept(facts, rest);
        assert(outcomes[n] || !needed(course(facts)[n]));
        lemma_course(facts, n, outcomes[n]);
    }
}

proof fn lemma_course(facts: Facts, n: int, ok: bool)
    requires
        0 <= n < course(facts).len() - 1,
        ok || !needed(course(facts)[n]),
    ensures
        after(course(facts)[n], ok, facts) == course(facts)[n + 1],
{
    let steps = course(facts);
    let s: int = if facts.shares { 1 } else { 0 };
    let i: int = if facts.installs { 1 } else { 0 };
    let v: int = if facts.serves { 1 } else { 0 };
    if n < 7 {
    } else if n < 9 + s {
    } else if n < 11 + s + i {
    } else if n < 12 + s + i + v {
    } else {
        let tail = seq![
            Step::Verify,
            Step::PointCurrent,
            Step::RecordHead,
            Step::Prune,
            Step::PruneLogs,
            Step::Deployed,
        ];
        let k = n - (12 + s + i + v);
        assert(steps[n] == tail[k]);
        assert(steps[n + 1] == tail[k + 1]);
    }
}

/// After a step that it cannot do without fails, a deployment takes the steps of
/// the recovery, whatever comes of them.
pub proof fn law_recovery_is_kept(facts: Facts, outcomes: Seq<bool>, tail: Seq<bool>)
    requires
        needed(play(facts, outcomes).0),
        tail.len() < recovery(play(facts, outcomes).0, facts).len(),
    ensures
        play(facts, outcomes.push(false) + tail).0 == recovery(
            play(facts, outcomes).0,
            facts,
        )[tail.len() as int],
    decreases tail.len(),
{
    let step = play(facts, outcomes).0;
    let all = outcomes.push(false) + tail;
    if tail.len() == 0 {
        assert(all.drop_last() =~= outcomes);
    } else {
        let rest = tail.drop_last();
        law_recovery_is_kept(facts, outcomes, rest);
        assert(all.drop_last() =~= outcomes.push(false) + rest);
    }
}

/// Whatever step fails, what is said of it holds the error, and of a release that
/// does not build, start or stay up it holds the log too. A failure that a
/// deployment can do without, and a success, change nothing of what is said.
pub proof fn law_failures_are_told(
    step: Step,
    said: Option<Seq<char>>,
    error: Seq<char>,
    log: Seq<char>,
)
    ensures
        said_after(step, said, Ok(()), log) == said,
        !needed(step) ==> said_after(step, said, Err(error), log) == said,
        needed(step) ==> (said_after(step, said, Err(error), log) matches Some(message) && holds(
            message,
            error,
        )),
        step == Step::Sync || step == Step::LinkShared || step == Step::ReadRecipe || step
            == Step::Install || step == Step::StartServer || step == Step::Verify ==> (said_after(
            step,
            said,
            Err(error),
            log,
        ) matches Some(message) && begins(message, error) && holds(message, log)),
        step == Step::AwaitInterlock || step == Step::AskHead || step == Step::TakeId || step
            == Step::CreateFolder || step == Step::WriteMarker || step == Step::CreateRelease
            || step == Step::AwaitInterlockAgain || step == Step::ClearMarker || step
            == Step::StopServer ==> said_after(step, said, Err(error), log) == Some(error),
        step == Step::PointCurrent ==> said_after(step, said, Err(error), log) == Some(
            "failed to update the current deployment: "@ + error,
        ),
{
    let message = told(step, error, log);
    let prefix = "failed to update the current deployment: "@;
    let between = " (log: "@;
    let cited = error + between + log + ")"@;
    assert(cited.subrange(0, error.len() as int) =~= error);
    assert(stands_at(cited, error, 0));
    let at = (error.len() + between.len()) as int;
    assert(cited.subrange(at, at + log.len()) =~= log);
    assert(stands_at(cited, log, at));
    assert(cited.take(error.len() as int) =~= error);
    let moved = prefix + error;
    assert(moved.subrange(prefix.len() as int, moved.len() as int) =~= error);
    assert(stands_at(moved, error, prefix.len() as int));
    assert(error.subrange(0, error.len() as int) =~= error);
    assert(stands_at(error, error, 0));
}

/// Whenever a deployment is interrupted, the folder of a release that was not
/// built has its marker beside it.
pub proof fn law_marker_tells_interrupted_releases(facts: Facts, outcomes: Seq<bool>)
    requires
        play(facts, outcomes).0 != Step::Failed,
    ensures
        ({
            let world = play(facts, outcomes).1;
            world.release && !world.marker ==> world.built
        }),
{
    lemma_stands(facts, outcomes);
}

/// A deployment that succeeds has its release complete, verified and running,
/// and current points at it.
pub proof fn law_success_is_complete(facts: Facts, outcomes: Seq<bool>)
    requires
        play(facts, outcomes).0 == Step::Deployed,
    ensures
        ({
            let world = play(facts, outcomes).1;
            &&& world.release
            &&& !world.marker
            &&& world.built
            &&& world.verified
            &&& world.current
            &&& world.server == Runs::New
            &&& world.recorded
            &&& world.pruned
            &&& world.logs_pruned
        }),
{
    lemma_stands(facts, outcomes);
}

/// When every step succeeds the release is deployed.
pub proof fn law_success_is_owed(facts: Facts, outcomes: Seq<bool>)
    requires
        outcomes.len() == 20,
        forall|i: int| 0 <= i < outcomes.len() ==> outcomes[i],
    ensures
        play(facts, outcomes).0 == Step::Deployed,
{
    lemma_rank(facts, outcomes);
    lemma_no_failure(facts, outcomes);
}

proof fn lemma_rank(facts: Facts, outcomes: Seq<bool>)
    ensures
        rank(play(facts, outcomes).0) <= if outcomes.len() <= 20 {
            20 - outcomes.len()
        } else {
            0
        },
    decreases outcomes.len(),
{
    if outcomes.len() > 0 {
        lemma_rank(facts, outcomes.drop_last());
    }
}

proof fn lemma_no_failure(facts: Facts, outcomes: Seq<bool>)
    requires
        forall|i: int| 0 <= i < outcomes.len() ==> outcomes[i],
    ensures
        !failing(play(facts, outcomes).0),
    decreases outcomes.len(),
{
    if outcomes.len() > 0 {
        let rest = outcomes.drop_last();
        assert forall|i: int| 0 <= i < rest.len() implies rest[i] by {
            assert(rest[i] == outcomes[i]);
        }
        lemma_no_failure(facts, rest);
        assert(outcomes[outcomes.len() - 1]);
    }
}

/// Every deployment is over after at most twenty steps.
pub proof fn law_every_deployment_ends(facts: Facts, outcomes: Seq<bool>)
    requires
        outcomes.len() >= 20,
    ensures
        over(play(facts, outcomes).0),
{
    lemma_rank(facts, outcomes);
}

/// A deployment that is over has succeeded exactly when it is deployed, and a
/// failure is told as it was said.
pub proof fn law_result_tells_the_end(deployment: Deployment, result: Result<(), String>)
    requires
        deployment.wf(),
        over(deployment.step),
        call_ensures(Deployment::result, (deployment,), result),
    ensures
        result is Ok <==> deployment.step == Step::Deployed,
        result is Err <==> deployment.step == Step::Failed,
        result matches Err(error) ==> deployment.error == Some(error),
{
}

/// There is something to say of a deployment exactly once a step has failed that
/// it cannot do without.
pub proof fn law_error_means_failure(deployment: Deployment)
    requires
        deployment.wf(),
    ensures
        deployment.error is Some <==> {
            ||| deployment.step == Step::DropRelease
            ||| deployment.step == Step::DropMarker
            ||| deployment.step == Step::TearDown
            ||| deployment.step == Step::RestartPrevious
            ||| deployment.step == Step::StopNew
            ||| deployment.step == Step::Failed
        },
{
}

/// A deployment begins with its interlock, knows what it was told, and has nothing
/// to say.
pub proof fn law_first_step(shares: bool, serves: bool, deployment: Deployment)
    requires
        call_ensures(Deployment::new, (shares, serves), deployment),
    ensures
        deployment.step == Step::AwaitInterlock,
        deployment.facts.shares == shares,
        deployment.facts.serves == serves,
        deployment.error is None,
        deployment.step == play(deployment.facts, Seq::empty()).0,
{
}

/// An outcome is viewed as success or as the text of its error.
pub proof fn law_view_of_an_outcome(error: String)
    ensures
        outcome_text(Ok(())) == Ok::<(), Seq<char>>(()),
        outcome_text(Err(error)) == Err::<(), Seq<char>>(error@),
{
}

} // verus!
