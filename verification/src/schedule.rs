//! Start/stop control of the recurring update loop and its tick timing.

use vstd::prelude::*;

verus! {

/// How long a running scheduler waits between two update attempts.
pub const UPDATE_INTERVAL_MS: u64 = 60 * 60 * 1000;

/// A command arriving from the tray menu.
#[derive(Clone, Copy, Debug, PartialEq, Eq, Structural)]
pub enum Command {
    ToggleDailyUpdate,
    UpdateNow,
    Exit,
}

/// What the runtime must do after a command was folded into the scheduler
/// state: spawn the recurring loop, cancel it, spawn one immediate update
/// attempt, or terminate the process.
#[derive(Clone, Copy, Debug, PartialEq, Eq, Structural)]
pub enum Directive {
    StartDaily,
    StopDaily,
    RunUpdate,
    Quit,
}

/// The daily-update mode's state machine: stopped or running, never more than
/// one recurring task at a time. The runtime holds the task handle; this state
/// decides when one may be spawned and when the existing one is cancelled.
#[derive(Clone, Copy, Debug, PartialEq, Eq, Structural)]
pub struct Scheduler {
    pub interval_ms: u64,
    pub running: bool,
}

/// Starting is idempotent: a running scheduler is left alone, a stopped one
/// moves to running and asks for exactly one task to be spawned.
pub open spec fn start_spec(s: Scheduler) -> (bool, Scheduler) {
    if s.running {
        (false, s)
    } else {
        (true, Scheduler { running: true, ..s })
    }
}

/// Stopping is idempotent: a stopped scheduler is left alone, a running one
/// moves to stopped and asks for the one existing task to be cancelled.
pub open spec fn stop_spec(s: Scheduler) -> (bool, Scheduler) {
    if s.running {
        (true, Scheduler { running: false, ..s })
    } else {
        (false, s)
    }
}

/// How one menu command changes the mode and what it asks the runtime to do.
pub open spec fn handle_command_spec(s: Scheduler, cmd: Command) -> (Directive, Scheduler) {
    match cmd {
        Command::ToggleDailyUpdate => if s.running {
            (Directive::StopDaily, stop_spec(s).1)
        } else {
            (Directive::StartDaily, start_spec(s).1)
        },
        Command::UpdateNow => (Directive::RunUpdate, s),
        Command::Exit => (Directive::Quit, s),
    }
}

impl Scheduler {
    /// A scheduler as the process starts: stopped, with the interval it will
    /// use whenever daily updating is switched on.
    pub fn new(interval_ms: u64) -> (s: Self)
        ensures
            s == (Scheduler { interval_ms, running: false }),
    {
        Scheduler { interval_ms, running: false }
    }

    /// Switch daily updating on. Returns whether the caller must spawn the
    /// recurring task; a second start is a no-op and spawns nothing.
    pub fn start(&mut self) -> (spawn: bool)
        ensures
            (spawn, *final(self)) == start_spec(*old(self)),
    {
        if self.running {
            false
        } else {
            self.running = true;
            true
        }
    }

    /// Switch daily updating off. Returns whether the caller must cancel the
    /// recurring task; a second stop is a no-op and cancels nothing.
    pub fn stop(&mut self) -> (cancel: bool)
        ensures
            (cancel, *final(self)) == stop_spec(*old(self)),
    {
        if self.running {
            self.running = false;
            true
        } else {
            false
        }
    }

    /// Fold one menu command into the mode and tell the runtime what to do.
    pub fn handle_command(&mut self, cmd: Command) -> (d: Directive)
        ensures
            (d, *final(self)) == handle_command_spec(*old(self), cmd),
    {
        match cmd {
            Command::ToggleDailyUpdate => {
                if self.running {
                    self.stop();
                    Directive::StopDaily
                } else {
                    self.start();
                    Directive::StartDaily
                }
            },
            Command::UpdateNow => Directive::RunUpdate,
            Command::Exit => Directive::Quit,
        }
    }
}

/// Toggle symmetry: `start` followed immediately by `stop` leaves the
/// scheduler stopped with its interval untouched, and the stop cancels
/// exactly the task the start spawned, so no further tick can fire; a repeated
/// stop then changes nothing and cancels nothing.
pub proof fn lemma_toggle_symmetry(s: Scheduler)
    ensures
        ({
            let (spawned, mid) = start_spec(s);
            let (cancelled, end) = stop_spec(mid);
            &&& !end.running
            &&& cancelled
            &&& end.interval_ms == s.interval_ms
            &&& stop_spec(end) == (false, end)
        }),
{
}

/// Tick timing of one running loop. Deadlines sit on the grid
/// `deadline + k * interval_ms`; the loop sleeps until the deadline, then
/// reports the time it actually woke at. A consumer delayed past one or more
/// grid points does not accumulate a backlog: the next deadline is the first
/// grid point strictly after the reported time.
#[derive(Clone, Copy, Debug, PartialEq, Eq, Structural)]
pub struct TickClock {
    pub interval_ms: u64,
    pub deadline: u64,
}

/// The first point on the grid `deadline + k * interval` strictly after `now`.
pub open spec fn next_aligned(deadline: int, interval: int, now: int) -> int
    decreases now - deadline + interval,
        when interval >= 1
{
    if deadline > now {
        deadline
    } else {
        next_aligned(deadline + interval, interval, now)
    }
}

/// One wake-up of the loop at time `now`: fire if the deadline has been
/// reached, and move the deadline to the first grid point after `now`.
pub open spec fn advance_spec(c: TickClock, now: u64) -> (bool, TickClock) {
    if now >= c.deadline {
        (
            true,
            TickClock {
                deadline: next_aligned(c.deadline as int, c.interval_ms as int, now as int) as u64,
                ..c
            },
        )
    } else {
        (false, c)
    }
}

proof fn lemma_next_aligned_bounds(deadline: int, interval: int, now: int)
    requires
        interval >= 1,
        deadline <= now + interval,
    ensures
        now < next_aligned(deadline, interval, now) <= now + interval,
    decreases now - deadline + interval,
{
    if deadline <= now {
        lemma_next_aligned_bounds(deadline + interval, interval, now);
    }
}

impl TickClock {
    pub open spec fn wf(self) -> bool {
        self.interval_ms >= 1
    }

    /// The clock a freshly spawned loop starts with: its first deadline is
    /// `now` itself, so the first tick fires immediately and enabling daily
    /// updates refreshes the wallpaper right away.
    pub fn new(now: u64, interval_ms: u64) -> (c: Self)
        requires
            interval_ms >= 1,
        ensures
            c == (TickClock { interval_ms, deadline: now }),
    {
        TickClock { interval_ms, deadline: now }
    }

    /// Record one wake-up at time `now`. Returns whether a tick fires; the
    /// new deadline is the first grid point strictly after `now`, so missed
    /// grid points collapse into this single firing.
    pub fn advance(&mut self, now: u64) -> (fired: bool)
        requires
            old(self).wf(),
            now <= u64::MAX - old(self).interval_ms,
        ensures
            (fired, *final(self)) == advance_spec(*old(self), now),
            final(self).wf(),
    {
        if now < self.deadline {
            return false;
        }
        let ghost c0 = *self;
        proof {
            lemma_next_aligned_bounds(c0.deadline as int, c0.interval_ms as int, now as int);
        }
        while self.deadline <= now
            invariant
                self.interval_ms == c0.interval_ms,
                self.interval_ms >= 1,
                now <= u64::MAX - self.interval_ms,
                self.deadline <= now + self.interval_ms,
                next_aligned(self.deadline as int, self.interval_ms as int, now as int)
                    == next_aligned(c0.deadline as int, c0.interval_ms as int, now as int),
            decreases now + self.interval_ms - self.deadline,
        {
            self.deadline = self.deadline + self.interval_ms;
        }
        true
    }
}

/// Skip-on-miss collapse: however many whole intervals a delayed consumer has
/// missed, the catch-up is one firing, and no wake-up at or before the same
/// time can fire again off the advanced clock.
pub proof fn lemma_skip_on_miss_collapse(c: TickClock, now: u64, missed: u64)
    requires
        c.wf(),
        now <= u64::MAX - c.interval_ms,
        c.deadline + missed * c.interval_ms <= now,
    ensures
        advance_spec(c, now).0,
        forall|t: u64| t <= now ==> !(#[trigger] advance_spec(advance_spec(c, now).1, t).0),
{
    assert(missed * c.interval_ms >= 0) by (nonlinear_arith);
    lemma_next_aligned_bounds(c.deadline as int, c.interval_ms as int, now as int);
}

} // verus!
