//! The trial of a started release: it must stay up for three seconds and, where
//! a check is configured, pass it within thirty.

use vstd::prelude::*;

use crate::text::{holds, law_holds};

verus! {

/// How many seconds a started server must stay up.
pub const WINDOW: u64 = 3;

/// How many seconds a check has to pass.
pub const CHECK_TIMEOUT: u64 = 30;

/// What a look at a server shows.
pub enum Sight {
    /// It is running.
    Up,
    /// It has exited; how.
    Exited(String),
    /// It cannot be looked at; why.
    Unknown(String),
}

/// What a run of the check command came to.
pub enum Checked {
    /// It exited with success.
    Passed,
    /// It did not; the whole seconds since the checks began.
    Refused(u64),
    /// It could not be run; why.
    Broken(String),
}

/// What comes next in a trial. After a failure the server is stopped.
pub enum Next {
    /// The release has passed.
    Passed,
    /// See whether the server is still running.
    Look,
    /// Run the check command.
    Check,
    /// Wait a second, then look again.
    Pause,
    /// The release has failed; what is said of it.
    Failed(String),
}

/// Where a trial goes.
#[derive(Clone, Copy, Debug, PartialEq, Eq, Structural)]
pub enum Phase {
    Passed,
    Look,
    Check,
    Pause,
    Failed,
}

/// Where a trial goes, without what is said of a failure.
pub open spec fn phase_of(next: Next) -> Phase {
    match next {
        Next::Passed => Phase::Passed,
        Next::Look => Phase::Look,
        Next::Check => Phase::Check,
        Next::Pause => Phase::Pause,
        Next::Failed(_) => Phase::Failed,
    }
}

/// Where a trial goes after the first seconds.
pub open spec fn window_phase(sight: Sight, checks: bool) -> Phase {
    if sight !is Up {
        Phase::Failed
    } else if checks {
        Phase::Look
    } else {
        Phase::Passed
    }
}

/// Where a trial goes after a look at the server.
pub open spec fn look_phase(sight: Sight) -> Phase {
    if sight is Up {
        Phase::Check
    } else {
        Phase::Failed
    }
}

/// Where a trial goes after a run of the check.
pub open spec fn check_phase(checked: Checked) -> Phase {
    match checked {
        Checked::Passed => Phase::Passed,
        Checked::Refused(seconds) => if seconds < CHECK_TIMEOUT {
            Phase::Pause
        } else {
            Phase::Failed
        },
        Checked::Broken(_) => Phase::Failed,
    }
}

/// What follows the first seconds of a server: it passes when it is still up
/// and there is no check.
pub fn after_window(sight: Sight, checks: bool) -> (r: Next)
    ensures
        phase_of(r) == window_phase(sight, checks),
        r matches Next::Failed(message) ==> match sight {
            Sight::Up => false,
            Sight::Exited(status) => message@ == "the server exited with "@ + status@
                + " within 3 seconds of starting"@,
            Sight::Unknown(error) => message == error,
        },
{
    match sight {
        Sight::Up => if checks {
            Next::Look
        } else {
            Next::Passed
        },
        Sight::Exited(status) => {
            let mut message: String = "the server exited with ".to_owned();
            message.append(status.as_str());
            message.append(" within 3 seconds of starting");
            Next::Failed(message)
        },
        Sight::Unknown(error) => Next::Failed(error),
    }
}

/// What follows a look at the server before a check.
pub fn after_look(sight: Sight) -> (r: Next)
    ensures
        phase_of(r) == look_phase(sight),
        r matches Next::Failed(message) ==> match sight {
            Sight::Up => false,
            Sight::Exited(status) => message@ == "the server exited with "@ + status@
                + " during the check"@,
            Sight::Unknown(error) => message == error,
        },
{
    match sight {
        Sight::Up => Next::Check,
        Sight::Exited(status) => {
            let mut message: String = "the server exited with ".to_owned();
            message.append(status.as_str());
            message.append(" during the check");
            Next::Failed(message)
        },
        Sight::Unknown(error) => Next::Failed(error),
    }
}

/// What follows a run of the check: it is tried again until thirty seconds have
/// gone by.
pub fn after_check(checked: Checked) -> (r: Next)
    ensures
        phase_of(r) == check_phase(checked),
        r matches Next::Failed(message) ==> match checked {
            Checked::Passed => false,
            Checked::Refused(_) => message@
                == "the check command did not pass within 30 seconds"@,
            Checked::Broken(error) => message == error,
        },
{
    match checked {
        Checked::Passed => Next::Passed,
        Checked::Refused(seconds) => if seconds < CHECK_TIMEOUT {
            Next::Pause
        } else {
            Next::Failed("the check command did not pass within 30 seconds".to_owned())
        },
        Checked::Broken(error) => Next::Failed(error),
    }
}

/// One round of a trial: a look at the server, then a run of the check.
pub struct Round {
    pub sight: Sight,
    pub checked: Checked,
}

/// Where a trial stands after the first seconds and some rounds.
pub open spec fn trial(first: Sight, checks: bool, rounds: Seq<Round>) -> Phase
    decreases rounds.len(),
{
    if rounds.len() == 0 {
        window_phase(first, checks)
    } else {
        let before = trial(first, checks, rounds.drop_last());
        if before == Phase::Look || before == Phase::Pause {
            if look_phase(rounds.last().sight) == Phase::Check {
                check_phase(rounds.last().checked)
            } else {
                Phase::Failed
            }
        } else {
            before
        }
    }
}

/// Whether a round decides nothing, so that the check is tried again.
pub open spec fn undecided(round: Round) -> bool {
    &&& round.sight is Up
    &&& round.checked matches Checked::Refused(seconds) && seconds < CHECK_TIMEOUT
}

/// Whether a round finds the server up and passes the check.
pub open spec fn convincing(round: Round) -> bool {
    round.sight is Up && round.checked is Passed
}

/// A release passes its trial if and only if it is up after the first seconds
/// and, where there is a check, a round finds it up and passes the check, while
/// no round before has decided against it.
pub proof fn law_what_passes(first: Sight, checks: bool, rounds: Seq<Round>)
    ensures
        trial(first, checks, rounds) == Phase::Passed <==> first is Up && (checks ==> exists|k: int|
            0 <= k < rounds.len() && convincing(#[trigger] rounds[k]) && forall|j: int|
                0 <= j < k ==> undecided(#[trigger] rounds[j])),
{
    lemma_trial(first, checks, rounds);
}

proof fn lemma_trial(first: Sight, checks: bool, rounds: Seq<Round>)
    ensures
        trial(first, checks, rounds) == Phase::Passed <==> first is Up && (checks ==> exists|k: int|
            0 <= k < rounds.len() && convincing(#[trigger] rounds[k]) && forall|j: int|
                0 <= j < k ==> undecided(#[trigger] rounds[j])),
        trial(first, checks, rounds) == Phase::Look || trial(first, checks, rounds) == Phase::Pause
            <==> first is Up && checks && forall|j: int|
            0 <= j < rounds.len() ==> undecided(#[trigger] rounds[j]),
    decreases rounds.len(),
{
    if rounds.len() > 0 {
        let rest = rounds.drop_last();
        let last = rounds.len() - 1;
        lemma_trial(first, checks, rest);
        let open = forall|j: int| 0 <= j < rest.len() ==> undecided(#[trigger] rest[j]);
        let all = forall|j: int| 0 <= j < rounds.len() ==> undecided(#[trigger] rounds[j]);
        assert(all <==> open && undecided(rounds[last])) by {
            if all {
                assert forall|j: int| 0 <= j < rest.len() implies undecided(#[trigger] rest[j]) by {
                    assert(rest[j] == rounds[j]);
                }
            }
            if open && undecided(rounds[last]) {
                assert forall|j: int| 0 <= j < rounds.len() implies undecided(
                    #[trigger] rounds[j],
                ) by {
                    if j < last {
                        assert(rounds[j] == rest[j]);
                    }
                }
            }
        }
        let won = exists|k: int|
            0 <= k < rounds.len() && convincing(#[trigger] rounds[k]) && forall|j: int|
                0 <= j < k ==> undecided(#[trigger] rounds[j]);
        let won_before = exists|k: int|
            0 <= k < rest.len() && convincing(#[trigger] rest[k]) && forall|j: int|
                0 <= j < k ==> undecided(#[trigger] rest[j]);
        assert(won <==> won_before || (open && convincing(rounds[last]))) by {
            if won {
                let k = choose|k: int|
                    0 <= k < rounds.len() && convincing(#[trigger] rounds[k]) && forall|j: int|
                        0 <= j < k ==> undecided(#[trigger] rounds[j]);
                assert forall|j: int| 0 <= j < k implies undecided(#[trigger] rest[j]) by {
                    assert(rest[j] == rounds[j]);
                }
                if k < last {
                    assert(rest[k] == rounds[k]);
                }
            }
            if won_before {
                let k = choose|k: int|
                    0 <= k < rest.len() && convincing(#[trigger] rest[k]) && forall|j: int|
                        0 <= j < k ==> undecided(#[trigger] rest[j]);
                assert(rounds[k] == rest[k]);
                assert forall|j: int| 0 <= j < k implies undecided(#[trigger] rounds[j]) by {
                    assert(rest[j] == rounds[j]);
                }
            } else if open && convincing(rounds[last]) {
                assert forall|j: int| 0 <= j < last implies undecided(#[trigger] rounds[j]) by {
                    assert(rest[j] == rounds[j]);
                }
            }
        }
        if open && won_before {
            let k = choose|k: int|
                0 <= k < rest.len() && convincing(#[trigger] rest[k]) && forall|j: int|
                    0 <= j < k ==> undecided(#[trigger] rest[j]);
            assert(undecided(rest[k]));
        }
    }
}

/// A release fails its trial if and only if it is not up after the first seconds
/// or, where there is a check, a round finds it down, or cannot run the check, or
/// is refused by it after thirty seconds, while every round before was refused
/// before that with the release up.
pub proof fn law_what_fails(first: Sight, checks: bool, rounds: Seq<Round>)
    ensures
        trial(first, checks, rounds) == Phase::Failed <==> first !is Up || (checks && exists|k: int|
            {
                &&& 0 <= k < rounds.len()
                &&& (#[trigger] rounds[k]).sight !is Up || rounds[k].checked is Broken || (
                rounds[k].checked matches Checked::Refused(seconds) && seconds >= 30)
                &&& forall|j: int|
                    0 <= j < k ==> (#[trigger] rounds[j]).sight is Up && (
                    rounds[j].checked matches Checked::Refused(seconds) && seconds < 30)
            }),
    decreases rounds.len(),
{
    lemma_trial(first, checks, rounds);
    if rounds.len() > 0 {
        let rest = rounds.drop_last();
        let last = rounds.len() - 1;
        law_what_fails(first, checks, rest);
        lemma_trial(first, checks, rest);
        assert forall|j: int| 0 <= j < rest.len() implies #[trigger] rounds[j] == rest[j] by {}
        if first is Up && checks {
            if trial(first, checks, rest) == Phase::Failed {
                let k = choose|k: int|
                    {
                        &&& 0 <= k < rest.len()
                        &&& (#[trigger] rest[k]).sight !is Up || rest[k].checked is Broken || (
                        rest[k].checked matches Checked::Refused(seconds) && seconds >= 30)
                        &&& forall|j: int|
                            0 <= j < k ==> (#[trigger] rest[j]).sight is Up && (
                            rest[j].checked matches Checked::Refused(seconds) && seconds < 30)
                    };
                assert(rounds[k] == rest[k]);
                assert forall|j: int| 0 <= j < k implies (#[trigger] rounds[j]).sight is Up && (
                rounds[j].checked matches Checked::Refused(seconds) && seconds < 30) by {
                    assert(rounds[j] == rest[j]);
                }
            } else if trial(first, checks, rounds) == Phase::Failed {
                assert forall|j: int| 0 <= j < last implies (#[trigger] rounds[j]).sight is Up && (
                rounds[j].checked matches Checked::Refused(seconds) && seconds < 30) by {
                    assert(undecided(rest[j]));
                }
                assert(rounds[last].sight !is Up || rounds[last].checked is Broken || (
                rounds[last].checked matches Checked::Refused(seconds) && seconds >= 30));
            } else if exists|k: int|
                {
                    &&& 0 <= k < rounds.len()
                    &&& (#[trigger] rounds[k]).sight !is Up || rounds[k].checked is Broken || (
                    rounds[k].checked matches Checked::Refused(seconds) && seconds >= 30)
                    &&& forall|j: int|
                        0 <= j < k ==> (#[trigger] rounds[j]).sight is Up && (
                        rounds[j].checked matches Checked::Refused(seconds) && seconds < 30)
                } {
                let k = choose|k: int|
                    {
                        &&& 0 <= k < rounds.len()
                        &&& (#[trigger] rounds[k]).sight !is Up || rounds[k].checked is Broken || (
                        rounds[k].checked matches Checked::Refused(seconds) && seconds >= 30)
                        &&& forall|j: int|
                            0 <= j < k ==> (#[trigger] rounds[j]).sight is Up && (
                            rounds[j].checked matches Checked::Refused(seconds) && seconds < 30)
                    };
                if k < last {
                    assert forall|j: int| 0 <= j < k implies (#[trigger] rest[j]).sight is Up && (
                    rest[j].checked matches Checked::Refused(seconds) && seconds < 30) by {
                        assert(rounds[j] == rest[j]);
                    }
                    assert(rest[k].sight !is Up || rest[k].checked is Broken || (
                    rest[k].checked matches Checked::Refused(seconds) && seconds >= 30));
                } else {
                    assert forall|j: int| 0 <= j < rest.len() implies undecided(#[trigger] rest[j]) by {
                        assert(rounds[j] == rest[j]);
                    }
                }
            }
        }
    }
}

/// Without a check a release passes as soon as it is up after the first seconds,
/// and with one it is looked at before each run of the check.
pub proof fn law_trial_steps(sight: Sight, checked: Checked)
    ensures
        window_phase(sight, false) == Phase::Passed <==> sight is Up,
        window_phase(sight, true) == Phase::Look <==> sight is Up,
        look_phase(sight) == Phase::Check <==> sight is Up,
        check_phase(checked) == Phase::Passed <==> checked is Passed,
        check_phase(checked) == Phase::Pause <==> (checked matches Checked::Refused(seconds)
            && seconds < 30),
{
}

/// What comes next in a trial is what its phase says.
pub proof fn law_phase_of(next: Next)
    ensures
        phase_of(next) == Phase::Passed <==> next is Passed,
        phase_of(next) == Phase::Look <==> next is Look,
        phase_of(next) == Phase::Check <==> next is Check,
        phase_of(next) == Phase::Pause <==> next is Pause,
        phase_of(next) == Phase::Failed <==> next is Failed,
{
}

/// Where a release fails its trial because it exited, it is told how; where it
/// cannot be looked at, the error is told.
pub proof fn law_exit_is_told(sight: Sight, checks: bool, first: Next, later: Next)
    requires
        call_ensures(after_window, (sight, checks), first),
        call_ensures(after_look, (sight,), later),
    ensures
        first is Failed <==> sight !is Up,
        later is Failed <==> sight !is Up,
        sight matches Sight::Exited(status) ==> {
            &&& holds(first->Failed_0@, status@)
            &&& holds(later->Failed_0@, status@)
        },
        sight matches Sight::Unknown(error) ==> {
            &&& first->Failed_0 == error
            &&& later->Failed_0 == error
        },
{
    if let Sight::Exited(status) = sight {
        let front = "the server exited with "@;
        law_holds(front, status@, " within 3 seconds of starting"@, status@);
        law_holds(front, status@, " during the check"@, status@);
    }
}

} // verus!
