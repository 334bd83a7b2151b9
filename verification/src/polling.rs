//! Catch-up polling: for a while after new messages the database is looked at again and again,
//! by one task at a time.

use crate::clock::{Timestamp, SECOND};
use vstd::prelude::*;

verus! {

/// The time between two looks at the database, in nanoseconds.
pub const CATCH_UP_POLL_INTERVAL: u128 = 2 * SECOND;

/// How long polling goes on after it was last asked for, in nanoseconds.
pub const CATCH_UP_POLL_WINDOW: u128 = 60 * SECOND;

/// What the tasks that poll share. A request reads and sets `until` first and `running` then;
/// between the two, other tasks may take their steps.
#[derive(Clone, Copy, Debug)]
pub struct CatchUp {
    /// When polling ends, while it is wanted.
    pub until: Option<Timestamp>,
    /// Whether a task polls or is about to.
    pub running: bool,
}

/// Where a polling task stands. Between two of these steps other tasks may take theirs.
#[derive(Clone, Copy, Debug, PartialEq, Eq, Structural)]
pub enum PollState {
    /// Waits for the interval to pass.
    Sleeping,
    /// Scans the database.
    Scanning,
    /// Found that polling is over, and is about to say that no task is running.
    Clearing,
    /// Said so, and is about to look whether polling was asked for in the meantime.
    Rechecking,
    /// Found that it was, and is about to go on unless another task does.
    TakingOver,
    /// Is over.
    Ended,
}

/// What a request for polling brought about.
#[derive(Clone, Copy, Debug, PartialEq, Eq, Structural)]
pub struct Scheduled {
    /// Polling was not wanted before.
    pub opened: bool,
    /// A task is to be started.
    pub spawn: bool,
}

impl CatchUp {
    /// Whether polling is wanted at `now`.
    pub open spec fn open_at(self, now: Timestamp) -> bool {
        self.until matches Some(deadline) && now.nanos < deadline.nanos
    }

    /// The shared state after the time was set, at `now`, up to which polling is wanted.
    pub open spec fn prolonged(self, now: Timestamp) -> CatchUp {
        CatchUp {
            until: Some(Timestamp { nanos: (now.nanos + CATCH_UP_POLL_WINDOW) as u128 }),
            ..self
        }
    }

    /// The shared state after it was made sure that a task runs.
    pub open spec fn claimed(self) -> CatchUp {
        CatchUp { running: true, ..self }
    }

    /// The shared state after polling was asked for at `now`.
    pub open spec fn requested(self, now: Timestamp) -> CatchUp {
        self.prolonged(now).claimed()
    }

    /// What a request for polling brings about.
    pub open spec fn scheduling(self) -> Scheduled {
        Scheduled { opened: self.until is None, spawn: !self.running }
    }

    /// The shared state after a task took the step it stood before, at `now`.
    pub open spec fn stepped(self, state: PollState, now: Timestamp) -> CatchUp {
        match state {
            PollState::Sleeping if !self.open_at(now) => CatchUp { until: None, ..self },
            PollState::Clearing => CatchUp { running: false, ..self },
            PollState::TakingOver => CatchUp { running: true, ..self },
            _ => self,
        }
    }

    /// Where a task stands after the step it stood before, at `now`.
    pub open spec fn next_state(self, state: PollState, now: Timestamp) -> PollState {
        match state {
            PollState::Sleeping => if self.open_at(now) {
                PollState::Scanning
            } else {
                PollState::Clearing
            },
            PollState::Scanning => PollState::Sleeping,
            PollState::Clearing => PollState::Rechecking,
            PollState::Rechecking => if self.open_at(now) {
                PollState::TakingOver
            } else {
                PollState::Ended
            },
            PollState::TakingOver => if self.running {
                PollState::Ended
            } else {
                PollState::Sleeping
            },
            PollState::Ended => PollState::Ended,
        }
    }

    /// Before anything asked for polling.
    pub fn new() -> (shared: CatchUp)
        ensures
            shared.until is None,
            !shared.running,
    {
        CatchUp { until: None, running: false }
    }

    /// Whether polling is wanted at `now`.
    pub fn is_open(&self, now: Timestamp) -> (open: bool)
        ensures
            open == self.open_at(now),
    {
        match self.until {
            Some(deadline) => now.is_before(deadline),
            None => false,
        }
    }

    /// Sets the time up to which polling is wanted. The result tells whether it was not wanted
    /// before.
    pub fn prolong(&mut self, now: Timestamp) -> (opened: bool)
        requires
            now.nanos + CATCH_UP_POLL_WINDOW <= u128::MAX,
        ensures
            *final(self) == old(self).prolonged(now),
            opened == (old(self).until is None),
    {
        let opened: bool = self.until.is_none();
        self.until = Some(now.plus(CATCH_UP_POLL_WINDOW));
        opened
    }

    /// Makes sure that a task runs. The result tells whether one is to be started for that.
    pub fn claim(&mut self) -> (spawn: bool)
        ensures
            *final(self) == old(self).claimed(),
            spawn == !old(self).running,
    {
        let spawn: bool = !self.running;
        self.running = true;
        spawn
    }

    /// Asks for polling from `now` on.
    pub fn request(&mut self, now: Timestamp) -> (scheduled: Scheduled)
        requires
            now.nanos + CATCH_UP_POLL_WINDOW <= u128::MAX,
        ensures
            *final(self) == old(self).requested(now),
            scheduled.opened == (old(self).until is None),
            scheduled.spawn == !old(self).running,
            scheduled == old(self).scheduling(),
    {
        let opened: bool = self.prolong(now);
        let spawn: bool = self.claim();
        Scheduled { opened, spawn }
    }

    /// Takes the step that a task stands before.
    pub fn step(&mut self, state: PollState, now: Timestamp) -> (next: PollState)
        ensures
            *final(self) == old(self).stepped(state, now),
            next == old(self).next_state(state, now),
    {
        match state {
            PollState::Sleeping => {
                if self.is_open(now) {
                    PollState::Scanning
                } else {
                    self.until = None;
                    PollState::Clearing
                }
            },
            PollState::Scanning => PollState::Sleeping,
            PollState::Clearing => {
                self.running = false;
                PollState::Rechecking
            },
            PollState::Rechecking => {
                if self.is_open(now) {
                    PollState::TakingOver
                } else {
                    PollState::Ended
                }
            },
            PollState::TakingOver => {
                if self.running {
                    PollState::Ended
                } else {
                    self.running = true;
                    PollState::Sleeping
                }
            },
            PollState::Ended => PollState::Ended,
        }
    }
}

/// All tasks that were ever started to poll, with what they share, at some time.
pub ghost struct PollSystem {
    pub shared: CatchUp,
    pub tasks: Seq<PollState>,
    /// How many requests set the time but have not yet made sure that a task runs.
    pub claims: nat,
    pub clock: Timestamp,
}

/// Whether a task in `state` is the one that polls.
pub open spec fn polls(state: PollState) -> bool {
    state == PollState::Sleeping || state == PollState::Scanning || state == PollState::Clearing
}

/// Whether a task in `state` still has to look whether polling was asked for.
pub open spec fn looks_again(state: PollState) -> bool {
    state == PollState::Rechecking || state == PollState::TakingOver
}

impl PollSystem {
    /// Whether exactly one task polls while one is said to run, and none otherwise.
    pub open spec fn one_polls(self) -> bool {
        &&& self.shared.running <==> exists|i: int|
            0 <= i < self.tasks.len() && polls(#[trigger] self.tasks[i])
        &&& forall|i: int, j: int|
            0 <= i < self.tasks.len() && 0 <= j < self.tasks.len() && polls(
                #[trigger] self.tasks[i],
            ) && polls(#[trigger] self.tasks[j]) ==> i == j
    }

    /// Whether, while polling is wanted, a task polls or will still look, or a request will
    /// still make sure that one does.
    pub open spec fn none_is_missed(self) -> bool {
        self.shared.open_at(self.clock) ==> {
            ||| self.shared.running
            ||| self.claims > 0
            ||| exists|i: int| 0 <= i < self.tasks.len() && looks_again(#[trigger] self.tasks[i])
        }
    }

    /// The system after a request set the time at `now`.
    pub open spec fn prolonged(self, now: Timestamp) -> PollSystem {
        PollSystem {
            shared: self.shared.prolonged(now),
            claims: self.claims + 1,
            clock: now,
            ..self
        }
    }

    /// The system after a request that had set the time made sure that a task runs.
    pub open spec fn claimed(self) -> PollSystem {
        PollSystem {
            shared: self.shared.claimed(),
            tasks: if self.shared.running {
                self.tasks
            } else {
                self.tasks.push(PollState::Sleeping)
            },
            claims: (self.claims - 1) as nat,
            ..self
        }
    }

    /// The system after task `i` took a step at `now`.
    pub open spec fn stepped(self, i: int, now: Timestamp) -> PollSystem {
        PollSystem {
            shared: self.shared.stepped(self.tasks[i], now),
            tasks: self.tasks.update(i, self.shared.next_state(self.tasks[i], now)),
            clock: now,
            ..self
        }
    }
}

/// At the start no task polls, and none is wanted.
pub proof fn polling_starts_idle(shared: CatchUp, clock: Timestamp)
    requires
        shared.until is None,
        !shared.running,
    ensures
        (PollSystem { shared, tasks: Seq::empty(), claims: 0, clock }).one_polls(),
        (PollSystem { shared, tasks: Seq::empty(), claims: 0, clock }).none_is_missed(),
{
}

/// Setting the time makes polling wanted and changes nothing about who polls.
pub proof fn prolonging_keeps_one_task(system: PollSystem, now: Timestamp)
    requires
        system.one_polls(),
        now.nanos + CATCH_UP_POLL_WINDOW <= u128::MAX,
    ensures
        system.prolonged(now).one_polls(),
        system.prolonged(now).none_is_missed(),
        system.prolonged(now).shared.open_at(now),
{
    let next = system.prolonged(now);
    assert(next.tasks == system.tasks);
    if system.shared.running {
        let i = choose|i: int| 0 <= i < system.tasks.len() && polls(#[trigger] system.tasks[i]);
        assert(polls(next.tasks[i]));
    }
}

/// A request for polling starts a task exactly where none runs, so that one polls.
pub proof fn claiming_keeps_one_task(system: PollSystem)
    requires
        system.one_polls(),
        system.claims > 0,
    ensures
        system.claimed().one_polls(),
        system.claimed().none_is_missed(),
        system.claimed().shared.running,
{
    let next = system.claimed();
    if system.shared.running {
        let i = choose|i: int| 0 <= i < system.tasks.len() && polls(#[trigger] system.tasks[i]);
        assert(polls(next.tasks[i]));
    } else {
        assert(polls(next.tasks[system.tasks.len() as int]));
        assert forall|i: int| 0 <= i < system.tasks.len() implies !polls(
            #[trigger] next.tasks[i],
        ) by {
            assert(next.tasks[i] == system.tasks[i]);
        }
    }
}

/// Whichever task takes its step, at most one task polls, and it is known whether one does.
pub proof fn step_keeps_one_task(system: PollSystem, i: int, now: Timestamp)
    requires
        system.one_polls(),
        0 <= i < system.tasks.len(),
    ensures
        system.stepped(i, now).one_polls(),
{
    let next = system.stepped(i, now);
    let tasks = system.tasks;
    assert forall|k: int| 0 <= k < tasks.len() && k != i implies #[trigger] next.tasks[k]
        == tasks[k] by {}
    if polls(tasks[i]) {
        assert(system.shared.running);
        assert forall|k: int| 0 <= k < tasks.len() && k != i implies !polls(
            #[trigger] next.tasks[k],
        ) by {
            assert(next.tasks[k] == tasks[k]);
        }
        if tasks[i] == PollState::Clearing {
            assert(!polls(next.tasks[i]));
        } else {
            assert(polls(next.tasks[i]));
        }
    } else if polls(next.tasks[i]) {
        assert(!system.shared.running);
        assert forall|k: int| 0 <= k < tasks.len() && k != i implies !polls(
            #[trigger] next.tasks[k],
        ) by {
            assert(next.tasks[k] == tasks[k]);
        }
    } else {
        if system.shared.running {
            let k = choose|k: int| 0 <= k < tasks.len() && polls(#[trigger] tasks[k]);
            assert(polls(next.tasks[k]));
        } else {
            assert forall|k: int| 0 <= k < tasks.len() implies !polls(#[trigger] next.tasks[k]) by {
                if k != i {
                    assert(next.tasks[k] == tasks[k]);
                }
            }
        }
    }
}

/// A request for polling is never lost: whichever task takes its step, as time goes on, while
/// polling is wanted a task polls, or one that is about to end will still look, or the request
/// itself will still see to it.
pub proof fn step_misses_no_request(system: PollSystem, i: int, now: Timestamp)
    requires
        system.one_polls(),
        system.none_is_missed(),
        0 <= i < system.tasks.len(),
        now.nanos >= system.clock.nanos,
    ensures
        system.stepped(i, now).none_is_missed(),
{
    let next = system.stepped(i, now);
    let tasks = system.tasks;
    if next.shared.open_at(now) && !next.shared.running && next.claims == 0 {
        assert(system.shared.open_at(system.clock));
        if tasks[i] == PollState::Clearing {
            assert(looks_again(next.tasks[i]));
        } else {
            let k = choose|k: int| 0 <= k < tasks.len() && looks_again(#[trigger] tasks[k]);
            assert(looks_again(next.tasks[k])) by {
                if k != i {
                    assert(next.tasks[k] == tasks[k]);
                }
            }
        }
    }
}

/// A task that wakes up while polling is wanted scans, and one that wakes up at its end or after
/// does not: that is decided by the deadline alone.
pub proof fn wake_ups_scan_until_the_deadline(shared: CatchUp, now: Timestamp)
    ensures
        shared.next_state(PollState::Sleeping, now) == PollState::Scanning <==> (
        shared.until matches Some(deadline) && now.nanos < deadline.nanos),
        shared.next_state(PollState::Sleeping, now) == PollState::Scanning || shared.next_state(
            PollState::Sleeping,
            now,
        ) == PollState::Clearing,
{
}

/// A request at `asked` makes every wake-up scan that comes less than a minute after it, and
/// none that comes later, whatever was wanted before and however many scans lie between.
pub proof fn polling_lasts_a_minute(shared: CatchUp, asked: Timestamp, now: Timestamp)
    requires
        asked.nanos + 60_000_000_000 <= u128::MAX,
    ensures
        ({
            let after = shared.requested(asked);
            &&& after.running
            &&& after.open_at(now) <==> now.nanos < asked.nanos + 60_000_000_000
            &&& after.next_state(PollState::Sleeping, now) == PollState::Scanning <==> now.nanos
                < asked.nanos + 60_000_000_000
        }),
{
}

/// A task that was started by a request and wakes up every two seconds scans twenty-nine times,
/// and finds polling over the next time.
pub proof fn polling_scans_every_two_seconds(shared: CatchUp, asked: Timestamp, tick: nat)
    requires
        tick <= 30,
        asked.nanos + 60_000_000_000 <= u128::MAX,
    ensures
        CATCH_UP_POLL_INTERVAL == 2_000_000_000,
        CATCH_UP_POLL_WINDOW == 60_000_000_000,
        ({
            let now = Timestamp { nanos: (asked.nanos + tick * CATCH_UP_POLL_INTERVAL) as u128 };
            shared.requested(asked).next_state(PollState::Sleeping, now) == if tick < 30 {
                PollState::Scanning
            } else {
                PollState::Clearing
            }
        }),
{
    assert(tick * CATCH_UP_POLL_INTERVAL == 2_000_000_000 * tick) by (nonlinear_arith)
        requires
            CATCH_UP_POLL_INTERVAL == 2_000_000_000,
    ;
}

/// The two halves of a request: the first sets the deadline a minute ahead and leaves it open
/// who polls, the second says that a task runs and leaves the deadline.
pub proof fn requests_have_two_halves(shared: CatchUp, now: Timestamp)
    requires
        now.nanos + 60_000_000_000 <= u128::MAX,
    ensures
        shared.prolonged(now).until matches Some(deadline) && deadline.nanos == now.nanos
            + 60_000_000_000,
        shared.prolonged(now).running == shared.running,
        shared.claimed().running,
        shared.claimed().until == shared.until,
        shared.requested(now) == shared.prolonged(now).claimed(),
{
}

/// A scan is followed by the next wait.
pub proof fn scans_are_followed_by_waits(shared: CatchUp, now: Timestamp)
    ensures
        shared.next_state(PollState::Scanning, now) == PollState::Sleeping,
        shared.stepped(PollState::Scanning, now) == shared,
{
}

/// The steps of tasks leave the deadline as it is. Only a task that wakes up and finds it passed
/// takes it away.
pub proof fn deadlines_stay(shared: CatchUp, state: PollState, now: Timestamp)
    ensures
        shared.stepped(state, now).until == if state == PollState::Sleeping && !(
        shared.until matches Some(deadline) && now.nanos < deadline.nanos) {
            None
        } else {
            shared.until
        },
{
}

/// Whether a task runs is said by the task that stops and by the one that goes on in its place,
/// and by no other.
pub proof fn who_runs_is_said_at_the_end(shared: CatchUp, state: PollState, now: Timestamp)
    ensures
        state == PollState::Clearing ==> !shared.stepped(state, now).running,
        state == PollState::TakingOver ==> shared.stepped(state, now).running,
        state != PollState::Clearing && state != PollState::TakingOver ==> shared.stepped(
            state,
            now,
        ).running == shared.running,
{
}

/// Where nothing asks for polling again, the task that finds the deadline passed is over three
/// steps later, whenever it takes them, and leaves everything as it was before the first request.
pub proof fn polling_winds_down(
    shared: CatchUp,
    t1: Timestamp,
    t2: Timestamp,
    t3: Timestamp,
)
    requires
        shared.until matches Some(deadline) ==> deadline.nanos <= t1.nanos,
    ensures
        ({
            let s1 = shared.stepped(PollState::Sleeping, t1);
            let p1 = shared.next_state(PollState::Sleeping, t1);
            let s2 = s1.stepped(p1, t2);
            let p2 = s1.next_state(p1, t2);
            let s3 = s2.stepped(p2, t3);
            &&& s2.next_state(p2, t3) == PollState::Ended
            &&& s3.until is None
            &&& !s3.running
        }),
{
}

/// Where polling was asked for again before the task that stops looks once more, that task goes
/// on if no other one runs, and ends if one does.
pub proof fn a_late_request_is_taken_over(shared: CatchUp, t1: Timestamp, t2: Timestamp)
    requires
        shared.until matches Some(deadline) && t1.nanos < deadline.nanos,
    ensures
        shared.next_state(PollState::Clearing, t1) == PollState::Rechecking,
        shared.next_state(PollState::Rechecking, t1) == PollState::TakingOver,
        shared.next_state(PollState::TakingOver, t2) == if shared.running {
            PollState::Ended
        } else {
            PollState::Sleeping
        },
        shared.next_state(PollState::Ended, t2) == PollState::Ended,
{
}

/// A task that is about to go on does so exactly where no other one runs, whatever the time, and
/// one that is over stays so.
pub proof fn going_on_needs_no_other_task(shared: CatchUp, now: Timestamp)
    ensures
        shared.next_state(PollState::TakingOver, now) == PollState::Sleeping <==> !shared.running,
        shared.next_state(PollState::TakingOver, now) == PollState::Ended <==> shared.running,
        shared.next_state(PollState::Ended, now) == PollState::Ended,
        shared.next_state(PollState::Clearing, now) == PollState::Rechecking,
        shared.next_state(PollState::Rechecking, now) == PollState::TakingOver || shared.next_state(
            PollState::Rechecking,
            now,
        ) == PollState::Ended,
        shared.next_state(PollState::Rechecking, now) == PollState::TakingOver <==> (
        shared.until matches Some(deadline) && now.nanos < deadline.nanos),
{
}

/// A request starts a task exactly where none runs, so that the next one, until a task says that
/// it stops, starts none. It opens polling exactly where none was wanted.
pub proof fn one_request_starts_one_task(shared: CatchUp, t1: Timestamp, t2: Timestamp)
    ensures
        shared.scheduling().spawn <==> !shared.running,
        shared.scheduling().opened <==> shared.until is None,
        !shared.requested(t1).scheduling().spawn,
        !shared.requested(t1).scheduling().opened,
        shared.requested(t1).stepped(PollState::Clearing, t2).scheduling().spawn,
{
}

} // verus!
