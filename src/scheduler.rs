use vstd::prelude::*;

use vstd::arithmetic::div_mod::{lemma_div_is_ordered, lemma_div_multiples_vanish};

verus! {

/// What the background worker receives.
#[derive(Clone, Copy, Debug, PartialEq, Eq, Structural)]
pub enum SchedulerEvent {
    /// The engine holds changes that were not rendered.
    Changed,
    /// The worker is to exit.
    Stop,
    /// The wait ran out with no event.
    Timeout,
}

/// What the background worker does next.
#[derive(Clone, Copy, Debug, PartialEq, Eq, Structural)]
pub enum SchedulerAction {
    /// Make one render pass through the engine, then wait again.
    Render,
    /// Wait for the next event, bounded by `Scheduler::wait_time`.
    Wait,
    /// Leave the loop.
    Exit,
}

/// The mathematical state of a scheduler; times are in milliseconds.
pub struct SchedulerView {
    pub interval: u64,
    pub next_allowed: u64,
    pub pending: bool,
    pub clock: u64,
    pub render_times: Seq<u64>,
}

/// Renders at these times are at least `interval` apart.
pub open spec fn spaced(times: Seq<u64>, interval: u64) -> bool {
    forall|i: int| 0 <= i < times.len() - 1 ==> #[trigger] times[i] + interval <= times[i + 1]
}

/// The decisions of the debounce worker: it coalesces change notifications
/// into at most one render per interval, the first one after a quiet period
/// at once.
pub struct Scheduler {
    interval: u64,
    next_allowed: u64,
    pending: bool,
    clock: u64,
    render_times: Ghost<Seq<u64>>,
}

impl View for Scheduler {
    type V = SchedulerView;

    closed spec fn view(&self) -> SchedulerView {
        SchedulerView {
            interval: self.interval,
            next_allowed: self.next_allowed,
            pending: self.pending,
            clock: self.clock,
            render_times: self.render_times@,
        }
    }
}

/// The scheduler's invariant: renders are spaced by the interval, none lies
/// in the future, and the next one is allowed an interval after the last.
pub open spec fn scheduler_inv(v: SchedulerView) -> bool {
    &&& spaced(v.render_times, v.interval)
    &&& forall|i: int| 0 <= i < v.render_times.len() ==> #[trigger] v.render_times[i] <= v.clock
    &&& v.render_times.len() > 0 ==> v.next_allowed == v.render_times.last() + v.interval
}

/// The state after handling `event` at time `now`, and the action taken.
pub open spec fn step_post(v: SchedulerView, event: SchedulerEvent, now: u64) -> (SchedulerView, SchedulerAction) {
    let pending = v.pending || event == SchedulerEvent::Changed;
    if event == SchedulerEvent::Stop {
        (SchedulerView { clock: now, ..v }, SchedulerAction::Exit)
    } else if pending && v.next_allowed <= now {
        (
            SchedulerView {
                next_allowed: (now + v.interval) as u64,
                pending: false,
                clock: now,
                render_times: v.render_times.push(now),
                ..v
            },
            SchedulerAction::Render,
        )
    } else {
        (SchedulerView { pending, clock: now, ..v }, SchedulerAction::Wait)
    }
}

impl Scheduler {
    pub open spec fn wf(&self) -> bool {
        scheduler_inv(self@)
    }

    /// A scheduler started at time `now` with the given debounce interval:
    /// nothing pending, and a first render allowed at once.
    pub fn new(interval: u64, now: u64) -> (r: Scheduler)
        ensures
            r.wf(),
            r@ == (SchedulerView {
                interval,
                next_allowed: now,
                pending: false,
                clock: now,
                render_times: Seq::empty(),
            }),
    {
        Scheduler { interval, next_allowed: now, pending: false, clock: now, render_times: Ghost(Seq::empty()) }
    }

    /// Handles one event at time `now`: `Stop` exits; otherwise a pending
    /// change is rendered once the next allowed time has come, after which
    /// the next render is allowed one interval later.
    pub fn step(&mut self, event: SchedulerEvent, now: u64) -> (r: SchedulerAction)
        requires
            old(self).wf(),
            old(self)@.clock <= now,
            now <= u64::MAX - old(self)@.interval,
        ensures
            final(self).wf(),
            (final(self)@, r) == step_post(old(self)@, event, now),
    {
        let ghost v0 = self@;
        self.clock = now;
        if event == SchedulerEvent::Stop {
            return SchedulerAction::Exit;
        }
        if event == SchedulerEvent::Changed {
            self.pending = true;
        }
        if self.pending && self.next_allowed <= now {
            self.pending = false;
            self.next_allowed = now + self.interval;
            proof {
                let t = v0.render_times;
                self.render_times@ = t.push(now);
                assert forall|i: int| 0 <= i < t.len() implies #[trigger] self.render_times@[i] == t[i] by {}
                assert(forall|i: int| 0 <= i < self.render_times@.len() - 1 ==> #[trigger] self.render_times@[i] + self.interval
                    <= self.render_times@[i + 1]) by {
                    assert forall|i: int| 0 <= i < self.render_times@.len() - 1 implies #[trigger] self.render_times@[i] + self.interval
                        <= self.render_times@[i + 1] by {
                        if i < t.len() - 1 {
                            assert(self.render_times@[i + 1] == t[i + 1]);
                        } else {
                            assert(self.render_times@[i + 1] == now);
                        }
                    }
                }
            }
            SchedulerAction::Render
        } else {
            SchedulerAction::Wait
        }
    }

    /// How long to wait for the next event at time `now`: without a pending
    /// change, indefinitely (`None`); otherwise until the next allowed
    /// render time.
    pub fn wait_time(&self, now: u64) -> (r: Option<u64>)
        ensures
            !self@.pending ==> r.is_none(),
            self@.pending ==> r == Some(
                if self@.next_allowed > now {
                    (self@.next_allowed - now) as u64
                } else {
                    0u64
                },
            ),
    {
        if !self.pending {
            None
        } else if self.next_allowed > now {
            Some(self.next_allowed - now)
        } else {
            Some(0)
        }
    }
}

/// Renders spaced by at least `t` take at least `t` per gap: between the
/// first and the last of `n` renders, `(n - 1) * t` time passes.
proof fn lemma_spaced_span(times: Seq<u64>, t: u64)
    requires
        spaced(times, t),
        times.len() > 0,
    ensures
        (times.len() - 1) * t <= times.last() - times[0],
    decreases times.len(),
{
    let n: int = times.len() - 1;
    if n == 0 {
        assert(n * t == 0) by (nonlinear_arith)
            requires
                n == 0,
        ;
    } else {
        let p = times.drop_last();
        assert forall|i: int| 0 <= i < p.len() - 1 implies #[trigger] p[i] + t <= p[i + 1] by {
            assert(p[i] == times[i] && p[i + 1] == times[i + 1]);
        }
        lemma_spaced_span(p, t);
        let m: int = p.len() - 1;
        assert(times[n - 1] + t <= times[n]);
        assert(p.last() == times[n - 1] && p[0] == times[0]);
        assert(m * t <= times[n - 1] - times[0]);
        assert(n * t == m * t + t) by (nonlinear_arith)
            requires
                m == n - 1,
        ;
    }
}

/// The debounce bound: renders spaced by an interval `t > 0` that all fall
/// within a window of length `elapsed` number at most `elapsed / t + 1`
/// (rounded down, hence at most the rounded-up quotient plus one), however
/// many changes were announced.
pub proof fn law_debounce_bound(times: Seq<u64>, t: u64, start: int, elapsed: int)
    requires
        t > 0,
        spaced(times, t),
        elapsed >= 0,
        forall|i: int| 0 <= i < times.len() ==> start <= #[trigger] times[i] <= start + elapsed,
    ensures
        times.len() <= elapsed / (t as int) + 1,
{
    if times.len() > 0 {
        lemma_spaced_span(times, t);
        let n = times.len() - 1;
        assert(times[0] >= start && times[n as int] <= start + elapsed);
        assert(n * t <= elapsed);
        lemma_div_is_ordered(n * t, elapsed, t as int);
        lemma_div_multiples_vanish(n, t as int);
        assert(n * t == t * n) by (nonlinear_arith);
    }
}

/// The renders a scheduler has made are spaced by its interval, so those
/// within a window of length `elapsed` number at most `elapsed / interval + 1`.
pub proof fn law_scheduler_debounce(s: &Scheduler, start: int, elapsed: int)
    requires
        s.wf(),
        s@.interval > 0,
        elapsed >= 0,
        forall|i: int|
            0 <= i < s@.render_times.len() ==> start <= #[trigger] s@.render_times[i] <= start
                + elapsed,
    ensures
        spaced(s@.render_times, s@.interval),
        s@.render_times.len() <= elapsed / (s@.interval as int) + 1,
{
    law_debounce_bound(s@.render_times, s@.interval, start, elapsed);
}

} // verus!
