//! Poll loop decisions: a state machine over timer ticks and poll
//! completions, with missed-tick skip semantics. The caller performs the
//! fetch and apply and hands the events back; the loop never runs two polls
//! concurrently and never queues catch-up polls.

use vstd::prelude::*;
use vstd::arithmetic::div_mod::{
    lemma_div_nonincreasing, lemma_div_pos_is_pos, lemma_fundamental_div_mod,
    lemma_mod_division_less_than_divisor, lemma_mod_multiples_basic,
};

verus! {

/// The two states of the poll task: waiting for the next tick, or a poll
/// (fetch plus apply) in progress.
#[derive(Debug, Clone, Copy, PartialEq, Eq, Structural)]
pub enum PollState {
    Idle,
    Polling,
}

/// The fixed-period tick schedule. Deadlines lie on one grid, one period
/// apart; when a tick fires late, the deadlines that passed meanwhile are
/// skipped rather than queued, so the next deadline always lies strictly in
/// the future and at most one period away.
#[derive(Debug)]
pub struct PollSchedule {
    period: u64,
    next_deadline: u64,
}

/// What one fired tick guarantees: the deadline had passed, the period is
/// kept, and the next deadline moves a whole number of periods forward —
/// at least one — to the first grid point strictly after `now`.
pub open spec fn tick_fired(pre: PollSchedule, now: u64, post: PollSchedule) -> bool {
    &&& now >= pre.spec_next_deadline()
    &&& post.spec_period() == pre.spec_period()
    &&& post.spec_next_deadline() > now
    &&& post.spec_next_deadline() <= now + pre.spec_period()
    &&& post.spec_next_deadline() >= pre.spec_next_deadline() + pre.spec_period()
    &&& (post.spec_next_deadline() - pre.spec_next_deadline()) % (pre.spec_period() as int) == 0
}

impl PollSchedule {
    /// The poll period, in the caller's time unit.
    pub closed spec fn spec_period(&self) -> u64 {
        self.period
    }

    /// The next instant at which a tick fires.
    pub closed spec fn spec_next_deadline(&self) -> u64 {
        self.next_deadline
    }

    /// A zero period would make the schedule fire continuously.
    pub open spec fn wf(&self) -> bool {
        self.spec_period() >= 1
    }

    /// A schedule that first fires one period after `now`.
    pub fn new(period: u64, now: u64) -> (r: PollSchedule)
        requires
            period >= 1,
            now <= u64::MAX - period,
        ensures
            r.wf(),
            r.spec_period() == period,
            r.spec_next_deadline() == now + period,
    {
        PollSchedule { period, next_deadline: now + period }
    }

    /// The poll period.
    pub fn period(&self) -> (r: u64)
        ensures
            r == self.spec_period(),
    {
        self.period
    }

    /// The next deadline, for the caller to sleep until.
    pub fn next_deadline(&self) -> (r: u64)
        ensures
            r == self.spec_next_deadline(),
    {
        self.next_deadline
    }

    /// Observes the clock at `now`. Fires exactly when the deadline has
    /// passed; a fired tick advances the deadline past `now` by whole
    /// periods on the same grid, skipping every deadline that was missed
    /// while the last poll ran. The headroom bound on `now` keeps the new
    /// deadline within the clock's range.
    pub fn tick(&mut self, now: u64) -> (fired: bool)
        requires
            old(self).wf(),
            now <= u64::MAX - old(self).spec_period(),
        ensures
            final(self).wf(),
            final(self).spec_period() == old(self).spec_period(),
            fired == (now >= old(self).spec_next_deadline()),
            !fired ==> *final(self) == *old(self),
            fired ==> tick_fired(*old(self), now, *final(self)),
    {
        if now < self.next_deadline {
            return false;
        }
        let elapsed = now - self.next_deadline;
        let ghost e = elapsed as int;
        let ghost p = self.period as int;
        proof {
            lemma_fundamental_div_mod(e, p);
            lemma_mod_division_less_than_divisor(e, p);
            lemma_div_pos_is_pos(e, p);
            lemma_div_nonincreasing(e, p);
            assert(p * (e / p + 1) == p * (e / p) + p) by (nonlinear_arith);
            assert((e / p + 1) * p == p * (e / p + 1)) by (nonlinear_arith);
        }
        let k = elapsed / self.period + 1;
        assert(k as int == e / p + 1);
        assert(k as int * p == e - e % p + p);
        let step = k * self.period;
        proof {
            lemma_mod_multiples_basic(k as int, p);
        }
        self.next_deadline = self.next_deadline + step;
        true
    }
}

/// Missed-tick skip: deadlines consumed by successive fired ticks lie at
/// least one full period apart on the schedule's grid, so among any three
/// successive fires more than one full period elapses between the first and
/// the third. A poll that overruns its period therefore delays — never
/// accumulates — later polls: at most one poll is started per elapsed
/// period, with no burst of catch-up polls once a slow one completes.
pub proof fn lemma_missed_tick_skip(
    s0: PollSchedule,
    t1: u64,
    s1: PollSchedule,
    t2: u64,
    s2: PollSchedule,
    t3: u64,
    s3: PollSchedule,
)
    requires
        s0.wf(),
        tick_fired(s0, t1, s1),
        tick_fired(s1, t2, s2),
        tick_fired(s2, t3, s3),
    ensures
        t1 < t2,
        t2 < t3,
        t3 - t1 > s0.spec_period(),
{
}

/// The poll task: the tick schedule plus the two-state machine. Driven by
/// the caller, which owns the timer, performs the fetch and apply while the
/// loop is `Polling`, and reports completion; the loop itself never starts
/// a poll while one is in progress.
#[derive(Debug)]
pub struct PollLoop {
    schedule: PollSchedule,
    state: PollState,
}

impl PollLoop {
    /// The tick schedule.
    pub closed spec fn spec_schedule(&self) -> PollSchedule {
        self.schedule
    }

    /// Idle, or a poll in progress.
    pub closed spec fn spec_state(&self) -> PollState {
        self.state
    }

    pub open spec fn wf(&self) -> bool {
        self.spec_schedule().wf()
    }

    /// An idle loop that first polls one period after `now`.
    pub fn new(period: u64, now: u64) -> (r: PollLoop)
        requires
            period >= 1,
            now <= u64::MAX - period,
        ensures
            r.wf(),
            r.spec_state() is Idle,
            r.spec_schedule().spec_period() == period,
            r.spec_schedule().spec_next_deadline() == now + period,
    {
        PollLoop { schedule: PollSchedule::new(period, now), state: PollState::Idle }
    }

    /// The next deadline, for the caller to sleep until.
    pub fn next_deadline(&self) -> (r: u64)
        ensures
            r == self.spec_schedule().spec_next_deadline(),
    {
        self.schedule.next_deadline()
    }

    /// Observes the clock at `now` and decides whether to start a poll: only
    /// when the loop is idle and the deadline has passed. A tick that
    /// arrives while a poll is in progress changes nothing — the loop never
    /// runs two polls concurrently and never queues the missed tick.
    pub fn on_tick(&mut self, now: u64) -> (start: bool)
        requires
            old(self).wf(),
            now <= u64::MAX - old(self).spec_schedule().spec_period(),
        ensures
            final(self).wf(),
            start == (old(self).spec_state() is Idle && now
                >= old(self).spec_schedule().spec_next_deadline()),
            old(self).spec_state() is Polling ==> *final(self) == *old(self),
            old(self).spec_state() is Idle && !start ==> *final(self) == *old(self),
            start ==> final(self).spec_state() is Polling && tick_fired(
                old(self).spec_schedule(),
                now,
                final(self).spec_schedule(),
            ),
    {
        match self.state {
            PollState::Polling => false,
            PollState::Idle => {
                let fired = self.schedule.tick(now);
                if fired {
                    self.state = PollState::Polling;
                    true
                } else {
                    false
                }
            },
        }
    }

    /// The poll in progress finished, successfully or not. The loop only
    /// returns to idle: on fetch failure the caller decides process policy
    /// (fail fast, or keep serving the stale series), and the loop never
    /// retries on its own. The schedule is untouched, so the next poll
    /// starts at the next grid deadline after the slow one completed.
    pub fn on_poll_done(&mut self)
        requires
            old(self).wf(),
        ensures
            final(self).wf(),
            final(self).spec_state() is Idle,
            final(self).spec_schedule() == old(self).spec_schedule(),
    {
        self.state = PollState::Idle;
    }
}

} // verus!
