use tinycd::deployment::{complaint, Deployment, Step};
use tinycd::dry_run::{DryRun, DryStep};

/// The steps of a deployment in which the named steps fail.
fn steps(
    shares: bool,
    serves: bool,
    installs: bool,
    previous: bool,
    fails: &[Step],
) -> (Vec<Step>, Result<(), String>) {
    let mut deployment = Deployment::new(shares, serves);
    let mut seen = vec![];
    while !matches!(deployment.step, Step::Deployed | Step::Failed) {
        let step = deployment.step;
        seen.push(step);
        if step == Step::ReadRecipe {
            deployment.learn_recipe(installs);
        }
        if step == Step::TearDown {
            deployment.learn_previous(previous);
        }
        let outcome = if fails.contains(&step) {
            Err("it broke".to_owned())
        } else {
            Ok(())
        };
        deployment.advance(outcome, "/srv/logs/1.log");
    }
    seen.push(deployment.step);
    (seen, deployment.result())
}

#[test]
fn a_deployment_from_end_to_end() {
    let (seen, result) = steps(true, true, true, true, &[]);
    assert_eq!(
        seen,
        vec![
            Step::AwaitInterlock,
            Step::AskHead,
            Step::TakeId,
            Step::CreateFolder,
            Step::WriteMarker,
            Step::CreateRelease,
            Step::OpenLog,
            Step::Sync,
            Step::LinkShared,
            Step::ReadRecipe,
            Step::Install,
            Step::AwaitInterlockAgain,
            Step::ClearMarker,
            Step::StopServer,
            Step::StartServer,
            Step::Verify,
            Step::PointCurrent,
            Step::RecordHead,
            Step::Prune,
            Step::PruneLogs,
            Step::Deployed,
        ]
    );
    assert_eq!(result, Ok(()));
}

#[test]
fn optional_steps_are_left_out() {
    let (seen, result) = steps(false, false, false, false, &[]);
    for step in [Step::LinkShared, Step::Install, Step::StopServer] {
        assert!(!seen.contains(&step));
    }
    assert_eq!(seen.len(), 18);
    assert_eq!(result, Ok(()));
}

#[test]
fn a_failed_build_keeps_the_server() {
    for step in [Step::Sync, Step::LinkShared, Step::ReadRecipe, Step::Install] {
        let (seen, result) = steps(true, true, true, true, &[step]);
        assert_eq!(
            seen[seen.len() - 4..],
            [step, Step::DropRelease, Step::DropMarker, Step::Failed]
        );
        assert!(!seen.contains(&Step::StopServer));
        assert_eq!(result, Err("it broke (log: /srv/logs/1.log)".to_owned()));
    }
}

#[test]
fn a_failed_release_is_torn_down() {
    for step in [Step::StartServer, Step::Verify] {
        let (seen, result) = steps(false, true, false, true, &[step]);
        assert_eq!(
            seen[seen.len() - 4..],
            [step, Step::TearDown, Step::RestartPrevious, Step::Failed]
        );
        assert!(!seen.contains(&Step::PointCurrent));
        assert_eq!(result, Err("it broke (log: /srv/logs/1.log)".to_owned()));
        let (seen, _) = steps(false, false, false, false, &[step]);
        assert_eq!(seen[seen.len() - 3..], [step, Step::TearDown, Step::Failed]);
    }
}

#[test]
fn the_interlock_fails_closed() {
    let (seen, result) = steps(false, true, false, true, &[Step::AwaitInterlock]);
    assert_eq!(seen, vec![Step::AwaitInterlock, Step::Failed]);
    assert_eq!(result, Err("it broke".to_owned()));
    let (seen, result) = steps(false, true, false, true, &[Step::AwaitInterlockAgain]);
    assert!(!seen.contains(&Step::StopServer));
    assert!(!seen.contains(&Step::DropRelease));
    assert_eq!(result, Err("it broke".to_owned()));
}

#[test]
fn a_link_that_cannot_move_stops_the_release() {
    let (seen, result) = steps(false, true, false, true, &[Step::PointCurrent]);
    assert_eq!(
        seen[seen.len() - 3..],
        [Step::PointCurrent, Step::StopNew, Step::Failed]
    );
    assert_eq!(
        result,
        Err("failed to update the current deployment: it broke".to_owned())
    );
}

#[test]
fn what_comes_after_the_move_does_not_fail_a_deployment() {
    let (_, result) = steps(
        false,
        true,
        false,
        true,
        &[
            Step::OpenLog,
            Step::RecordHead,
            Step::Prune,
            Step::PruneLogs,
        ],
    );
    assert_eq!(result, Ok(()));
}

#[test]
fn the_first_failure_is_told() {
    let (_, result) = steps(
        false,
        true,
        false,
        true,
        &[Step::Verify, Step::TearDown, Step::RestartPrevious],
    );
    assert_eq!(result, Err("it broke (log: /srv/logs/1.log)".to_owned()));
    for step in [
        Step::AskHead,
        Step::TakeId,
        Step::CreateFolder,
        Step::WriteMarker,
        Step::CreateRelease,
        Step::ClearMarker,
        Step::StopServer,
    ] {
        let (seen, result) = steps(false, true, false, true, &[step]);
        assert_eq!(seen[seen.len() - 2..], [step, Step::Failed]);
        assert_eq!(result, Err("it broke".to_owned()));
    }
}

#[test]
fn tolerated_failures_are_printed() {
    assert_eq!(
        complaint(Step::RecordHead, "full").as_deref(),
        Some("failed to record the deployed commit: full")
    );
    assert_eq!(
        complaint(Step::RestartPrevious, "gone").as_deref(),
        Some("failed to restart the previous release: gone")
    );
    assert_eq!(complaint(Step::DropRelease, "gone"), None);
}

fn dry_steps(shares: bool, installs: bool, fails: &[DryStep]) -> (Vec<DryStep>, Result<String, String>) {
    let mut run = DryRun::new(shares);
    let mut seen = vec![];
    while !matches!(run.step, DryStep::Passed | DryStep::Failed) {
        let step = run.step;
        seen.push(step);
        if step == DryStep::ReadRecipe {
            run.learn_recipe(installs);
        }
        let outcome = if fails.contains(&step) {
            Err(format!("{step:?} broke"))
        } else {
            Ok(())
        };
        run.advance(outcome);
    }
    seen.push(run.step);
    (seen, run.result())
}

#[test]
fn a_dry_run_from_end_to_end() {
    let (seen, result) = dry_steps(true, true, &[]);
    assert_eq!(
        seen,
        vec![
            DryStep::TakeId,
            DryStep::CreateScratch,
            DryStep::Sync,
            DryStep::LinkShared,
            DryStep::ReadRecipe,
            DryStep::Install,
            DryStep::StartServer,
            DryStep::Verify,
            DryStep::StopServer,
            DryStep::RemoveScratch,
            DryStep::Passed,
        ]
    );
    assert_eq!(
        result,
        Ok("dry run passed: the release built, started, stayed up for 3 seconds, and stopped cleanly".to_owned())
    );
    assert_eq!(dry_steps(false, false, &[]).0.len(), 9);
}

#[test]
fn a_failed_dry_run_removes_its_folder() {
    for step in [
        DryStep::Sync,
        DryStep::LinkShared,
        DryStep::ReadRecipe,
        DryStep::Install,
        DryStep::StartServer,
        DryStep::Verify,
        DryStep::StopServer,
    ] {
        let (seen, result) = dry_steps(true, true, &[step, DryStep::RemoveScratch]);
        assert_eq!(
            seen[seen.len() - 3..],
            [step, DryStep::RemoveScratch, DryStep::Failed]
        );
        assert_eq!(result, Err(format!("{step:?} broke")));
    }
    for step in [DryStep::TakeId, DryStep::CreateScratch] {
        let (seen, result) = dry_steps(true, true, &[step]);
        assert_eq!(seen[seen.len() - 2..], [step, DryStep::Failed]);
        assert!(result.is_err());
    }
    let (_, result) = dry_steps(true, true, &[DryStep::RemoveScratch]);
    assert!(result.is_ok());
}
