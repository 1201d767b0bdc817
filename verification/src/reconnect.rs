//! Keeping a Docker host connected: how long to wait before trying again, and
//! what the manager of a host does next.
use crate::containers::HostId;
use crate::events::AppEvent;
use vstd::prelude::*;

verus! {

/// How many restart-count inspects may be in flight at once while backfilling.
/// Kept well under the SSH pool's 8 channels per control master so a large
/// container list does not force extra SSH connections.
pub const RESTART_BACKFILL_CONCURRENCY: usize = 4;

/// How long a ping of the daemon may take, in seconds.
pub const PING_TIMEOUT_SECS: u64 = 10;

/// A span of time, in nanoseconds.
#[derive(Clone, Copy, Debug, PartialEq, Eq, Structural)]
pub struct Delay {
    pub nanos: u128,
}

/// Delay before the first reconnect attempt after losing a host, in nanoseconds.
pub const INITIAL_RECONNECT_NANOS: u128 = 1_000_000_000;

/// Upper bound on the reconnect backoff, in nanoseconds, so a long outage still
/// gets retried often enough to feel responsive when the daemon returns.
pub const MAX_RECONNECT_NANOS: u128 = 5_000_000_000;

impl Delay {
    /// A number of seconds.
    pub fn from_secs(secs: u64) -> (r: Delay)
        ensures
            r.nanos == secs * 1_000_000_000,
    {
        Delay { nanos: (secs as u128) * 1_000_000_000 }
    }

    /// The delay before the first reconnect attempt.
    pub fn initial() -> (r: Delay)
        ensures
            r.nanos == INITIAL_RECONNECT_NANOS,
    {
        Delay { nanos: INITIAL_RECONNECT_NANOS }
    }

    /// The longest delay between reconnect attempts.
    pub fn longest() -> (r: Delay)
        ensures
            r.nanos == MAX_RECONNECT_NANOS,
    {
        Delay { nanos: MAX_RECONNECT_NANOS }
    }
}

/// Twice a delay, but no more than the longest.
pub open spec fn doubled(current: Delay) -> Delay {
    if 2 * current.nanos < MAX_RECONNECT_NANOS {
        Delay { nanos: (2 * current.nanos) as u128 }
    } else {
        Delay { nanos: MAX_RECONNECT_NANOS }
    }
}

/// Doubles the reconnect delay, saturating at the longest.
pub fn next_reconnect_delay(current: Delay) -> (r: Delay)
    ensures
        r == doubled(current),
{
    if current.nanos < MAX_RECONNECT_NANOS / 2 {
        Delay { nanos: current.nanos * 2 }
    } else {
        Delay::longest()
    }
}

/// How long to wait for the next ping of a lost daemon, given how long was waited
/// for the last one and whether the daemon answered it. One that answered is
/// waited for no longer.
pub fn next_wait(current: Delay, answered: bool) -> (r: Option<Delay>)
    ensures
        r == if answered {
            None
        } else {
            Some(doubled(current))
        },
{
    if answered {
        None
    } else {
        Some(next_reconnect_delay(current))
    }
}

/// How long is waited before an attempt to reconnect, after so many that failed.
pub open spec fn delay_after(failures: nat) -> Delay
    decreases failures,
{
    if failures == 0 {
        Delay { nanos: INITIAL_RECONNECT_NANOS }
    } else {
        doubled(delay_after((failures - 1) as nat))
    }
}

/// Every attempt to reconnect is waited for, the first too, no wait is longer than
/// the longest, and none is shorter than the one before.
pub proof fn law_backoff_is_bounded(failures: nat)
    ensures
        INITIAL_RECONNECT_NANOS <= delay_after(failures).nanos <= MAX_RECONNECT_NANOS,
        delay_after(failures).nanos <= delay_after(failures + 1).nanos,
        0 < delay_after(failures).nanos,
    decreases failures,
{
    if failures > 0 {
        law_backoff_is_bounded((failures - 1) as nat);
    }
}

/// A daemon that is waited for from the first delay on is waited for, after so many
/// pings that it did not answer, as long as the backoff has it.
pub proof fn law_waits_follow_the_backoff(waits: Seq<Delay>)
    requires
        waits.len() > 0,
        waits[0].nanos == INITIAL_RECONNECT_NANOS,
        forall|i: int| 0 < i < waits.len() ==> #[trigger] waits[i] == doubled(waits[i - 1]),
    ensures
        forall|i: int| 0 <= i < waits.len() ==> #[trigger] waits[i] == delay_after(i as nat),
    decreases waits.len(),
{
    if waits.len() > 1 {
        let before = waits.drop_last();
        assert forall|i: int| 0 < i < before.len() implies #[trigger] before[i] == doubled(
            before[i - 1],
        ) by {
            assert(waits[i] == doubled(waits[i - 1]));
        }
        law_waits_follow_the_backoff(before);
        let last = waits.len() - 1;
        assert(before[last - 1] == delay_after((last - 1) as nat));
        assert(waits[last] == doubled(waits[last - 1]));
        assert forall|i: int| 0 <= i < waits.len() implies #[trigger] waits[i] == delay_after(
            i as nat,
        ) by {
            if i < last {
                assert(before[i] == waits[i]);
            }
        }
    }
}

/// From the third failure on the wait is the longest.
pub proof fn law_backoff_reaches_its_bound(failures: nat)
    requires
        failures >= 3,
    ensures
        delay_after(failures).nanos == MAX_RECONNECT_NANOS,
    decreases failures,
{
    reveal_with_fuel(delay_after, 4);
    if failures > 3 {
        law_backoff_reaches_its_bound((failures - 1) as nat);
    }
}

/// What the manager of a host is doing.
#[derive(Clone, Copy, Debug, PartialEq, Eq, Structural)]
pub enum Phase {
    /// Fetches the container list and starts monitoring.
    Listing,
    /// Follows the event stream until the connection to the daemon breaks.
    Following,
    /// Aborts the stats tasks and the restart-count backfill: they die with the
    /// connection, and what they told is from before the outage.
    Dropping,
    /// Tells that the host is lost, then waits until the daemon answers a ping.
    Lost,
    /// Tells that the host is back.
    Back,
    /// The application is quitting: nothing is left to monitor.
    Finished,
}

impl Phase {
    /// The phase that follows, given whether the containers could be listed and
    /// whether the application has stopped listening.
    pub open spec fn following(self, listed: bool, closed: bool) -> Phase {
        match self {
            Phase::Listing => if listed {
                Phase::Following
            } else {
                Phase::Dropping
            },
            Phase::Following => Phase::Dropping,
            Phase::Dropping => if closed {
                Phase::Finished
            } else {
                Phase::Lost
            },
            Phase::Lost => if closed {
                Phase::Finished
            } else {
                Phase::Back
            },
            Phase::Back => Phase::Listing,
            Phase::Finished => Phase::Finished,
        }
    }

    /// The phase that follows, given whether the containers could be listed and
    /// whether the application has stopped listening.
    pub fn next(self, listed: bool, closed: bool) -> (r: Phase)
        ensures
            r == self.following(listed, closed),
    {
        match self {
            Phase::Listing => {
                if listed {
                    Phase::Following
                } else {
                    Phase::Dropping
                }
            },
            Phase::Following => Phase::Dropping,
            Phase::Dropping => {
                if closed {
                    Phase::Finished
                } else {
                    Phase::Lost
                }
            },
            Phase::Lost => {
                if closed {
                    Phase::Finished
                } else {
                    Phase::Back
                }
            },
            Phase::Back => Phase::Listing,
            Phase::Finished => Phase::Finished,
        }
    }

    /// What the application is told on entering the phase.
    pub fn announcement(self, host_id: &HostId) -> (r: Option<AppEvent>)
        ensures
            match self {
                Phase::Lost => r == Some(AppEvent::HostDisconnected(*host_id)),
                Phase::Back => r == Some(AppEvent::HostReconnected(*host_id)),
                _ => r is None,
            },
    {
        match self {
            Phase::Lost => Some(AppEvent::HostDisconnected(host_id.clone())),
            Phase::Back => Some(AppEvent::HostReconnected(host_id.clone())),
            _ => None,
        }
    }
}

/// The phase that some outcomes lead to: of each step, whether the containers
/// could be listed and whether the application has stopped listening.
pub open spec fn phase_after(start: Phase, outcomes: Seq<(bool, bool)>) -> Phase
    decreases outcomes.len(),
{
    if outcomes.len() == 0 {
        start
    } else {
        phase_after(start, outcomes.drop_last()).following(
            outcomes.last().0,
            outcomes.last().1,
        )
    }
}

/// While the application listens, the manager does not end.
pub proof fn law_manager_runs_while_heard(outcomes: Seq<(bool, bool)>)
    requires
        forall|i: int| 0 <= i < outcomes.len() ==> !(#[trigger] outcomes[i]).1,
    ensures
        phase_after(Phase::Listing, outcomes) != Phase::Finished,
    decreases outcomes.len(),
{
    if outcomes.len() > 0 {
        assert(!outcomes[outcomes.len() - 1].1);
        law_manager_runs_while_heard(outcomes.drop_last());
    }
}

/// While the application listens, the manager goes from one listing to the next
/// through the same phases: it follows events if it could list, drops its tasks,
/// tells that the host is lost and tells that it is back.
pub proof fn law_manager_goes_round(
    first: (bool, bool),
    second: (bool, bool),
    third: (bool, bool),
    fourth: (bool, bool),
    fifth: (bool, bool),
)
    requires
        !first.1 && !second.1 && !third.1 && !fourth.1 && !fifth.1,
    ensures
        ({
            let a = Phase::Listing.following(first.0, first.1);
            let b = a.following(second.0, second.1);
            let c = b.following(third.0, third.1);
            let d = c.following(fourth.0, fourth.1);
            let e = d.following(fifth.0, fifth.1);
            if first.0 {
                &&& a == Phase::Following
                &&& b == Phase::Dropping
                &&& c == Phase::Lost
                &&& d == Phase::Back
                &&& e == Phase::Listing
            } else {
                &&& a == Phase::Dropping
                &&& b == Phase::Lost
                &&& c == Phase::Back
                &&& d == Phase::Listing
            }
        }),
{
}

/// Events are followed only right after the containers were listed, containers
/// are listed again only after the host was told to be back, and that only after
/// the tasks were dropped and the host was told to be lost.
pub proof fn law_phases_come_in_order(before: Phase, listed: bool, closed: bool)
    ensures
        before.following(listed, closed) == Phase::Following ==> before == Phase::Listing && listed,
        before.following(listed, closed) == Phase::Listing ==> before == Phase::Back,
        before.following(listed, closed) == Phase::Back ==> before == Phase::Lost && !closed,
        before.following(listed, closed) == Phase::Lost ==> before == Phase::Dropping && !closed,
        before.following(listed, closed) == Phase::Finished ==> before == Phase::Finished || (closed
            && (before == Phase::Dropping || before == Phase::Lost)),
        before == Phase::Following || (before == Phase::Listing && !listed) ==> before.following(
            listed,
            closed,
        ) == Phase::Dropping,
{
}

/// A wait is twice the one before, as far as that is no more than five seconds,
/// and else five seconds.
pub proof fn law_waits_double_up_to_five_seconds(current: Delay)
    ensures
        current.nanos <= 2_500_000_000 ==> doubled(current).nanos == current.nanos + current.nanos,
        current.nanos >= 2_500_000_000 ==> doubled(current).nanos == 5_000_000_000,
{
}

/// The first wait is a second, and the waits after that are two, four and from
/// then on five seconds.
pub proof fn law_waits_in_seconds(failures: nat)
    ensures
        failures == 0 ==> delay_after(failures).nanos == 1_000_000_000,
        failures == 1 ==> delay_after(failures).nanos == 2_000_000_000,
        failures == 2 ==> delay_after(failures).nanos == 4_000_000_000,
        failures >= 3 ==> delay_after(failures).nanos == 5_000_000_000,
{
    reveal_with_fuel(delay_after, 4);
    if failures >= 3 {
        law_backoff_reaches_its_bound(failures);
    }
}

/// Once the application has stopped listening, a manager that dropped its tasks
/// ends, and so does one that waits for its host; one that ended stays so. Tasks
/// are dropped only after events were followed or the containers could not be
/// listed.
pub proof fn law_manager_ends_when_unheard(before: Phase, listed: bool, closed: bool)
    ensures
        before == Phase::Dropping || before == Phase::Lost ==> before.following(listed, true)
            == Phase::Finished,
        before == Phase::Finished ==> before.following(listed, closed) == Phase::Finished,
        before.following(listed, closed) == Phase::Dropping ==> before == Phase::Following || (before
            == Phase::Listing && !listed),
        before == Phase::Back ==> before.following(listed, closed) == Phase::Listing,
        before == Phase::Listing && listed ==> before.following(listed, closed) == Phase::Following,
{
}

/// Outcomes in two parts lead where the second part leads from where the first
/// one does.
pub proof fn law_outcomes_follow_each_other(
    start: Phase,
    first: Seq<(bool, bool)>,
    second: Seq<(bool, bool)>,
    outcome: (bool, bool),
)
    ensures
        phase_after(start, first + second) == phase_after(phase_after(start, first), second),
        phase_after(start, seq![outcome]) == start.following(outcome.0, outcome.1),
    decreases second.len(),
{
    assert(seq![outcome].drop_last() =~= Seq::<(bool, bool)>::empty());
    reveal_with_fuel(phase_after, 2);
    if second.len() == 0 {
        assert(first + second =~= first);
    } else {
        law_outcomes_follow_each_other(start, first, second.drop_last(), outcome);
        assert((first + second).drop_last() =~= first + second.drop_last());
    }
}

} // verus!
