//! The rate limit on requests to the catalogue, as a machine of states.
//!
//! Requests leave in batches. A batch takes requests off the queue, one
//! after the other, and launches each at once, until it has launched as
//! many as the quota allows. Then the limiter waits until every request of
//! the batch has come back, and rests until a whole window has passed since
//! the last request of the batch left. Only then is the next batch opened.
//! So no request of one batch leaves within a window of a request of
//! another, however late the requests of a batch arrive, and no window
//! holds more requests than the quota.
//!
//! The caller owns the queue, the clock and the connection; the machine
//! says what to do with them. The clock counts milliseconds and does not
//! run backwards; the caller reads it when it has taken a request, and that
//! reading is the time at which the request leaves.

use vstd::prelude::*;

verus! {

/// Where the limiter stands.
#[derive(Clone, Copy, Debug, PartialEq, Eq, Structural)]
pub enum LimiterPhase {
    /// A batch is open and the next request is awaited.
    Collecting,
    /// The batch is full and its requests are under way.
    Settling,
    /// Between batches: the limiter sleeps, and then the clock is to be read.
    Resting,
    /// The queue was closed, or an event came that was not asked for.
    Stopped,
}

/// What happened since the last step.
#[derive(Clone, Copy, Debug, PartialEq, Eq, Structural)]
pub enum LimiterEvent {
    /// A request was taken off the queue, and the clock was read then.
    Request(u64),
    /// The queue is closed and empty.
    Closed,
    /// Every request of the batch has come back.
    Settled,
    /// The limiter has slept, and the clock was read then.
    Tick(u64),
}

/// What the caller is to do next.
#[derive(Clone, Copy, Debug, PartialEq, Eq, Structural)]
pub enum LimiterAction {
    /// Take the next request off the queue and read the clock; answer with
    /// `Request`, or with `Closed`.
    Await,
    /// Launch the request that was taken. Then, if `more`, take the next
    /// one as on `Await`; if not, wait for all that were launched and
    /// answer `Settled`.
    Launch { more: bool },
    /// Sleep until `millis` milliseconds have passed since the clock read
    /// `since`, then read the clock and answer with `Tick`.
    Sleep { since: u64, millis: u64 },
    /// Serve no more requests.
    Stop,
}

/// The limiter as the contracts see it.
pub struct LimiterView {
    /// How many requests may leave in one batch.
    pub quota: nat,
    /// The least time from the last request of one batch to the first of
    /// the next, in milliseconds.
    pub window: nat,
    pub phase: LimiterPhase,
    /// How many requests of the batch at hand were launched.
    pub taken: nat,
    /// The latest reading of the clock at which a request left.
    pub last: nat,
    /// The reading of the clock before which no request of the batch at
    /// hand may leave, nor the next batch be opened.
    pub floor: nat,
}

impl LimiterView {
    /// A limiter that has done nothing yet, and what it asks for first: a
    /// request, or nothing at all where the quota allows none.
    pub open spec fn start(quota: nat, window: nat) -> (LimiterView, LimiterAction) {
        if quota == 0 {
            (
                LimiterView {
                    quota,
                    window,
                    phase: LimiterPhase::Stopped,
                    taken: 0,
                    last: 0,
                    floor: 0,
                },
                LimiterAction::Stop,
            )
        } else {
            (
                LimiterView {
                    quota,
                    window,
                    phase: LimiterPhase::Collecting,
                    taken: 0,
                    last: 0,
                    floor: 0,
                },
                LimiterAction::Await,
            )
        }
    }

    /// What holds of every limiter that `start` and `step` make.
    pub open spec fn wf(self) -> bool {
        &&& self.taken <= self.quota
        &&& self.phase != LimiterPhase::Stopped ==> self.quota > 0
        &&& self.phase == LimiterPhase::Collecting ==> self.taken < self.quota
        &&& self.phase == LimiterPhase::Resting ==> self.floor == self.last + self.window
    }

    pub open spec fn stop(self) -> (LimiterView, LimiterAction) {
        (LimiterView { phase: LimiterPhase::Stopped, ..self }, LimiterAction::Stop)
    }

    /// The rest that is asked for between two batches.
    pub open spec fn rest(self) -> LimiterAction {
        LimiterAction::Sleep { since: self.last as u64, millis: self.window as u64 }
    }

    /// The next state and what is asked for next, on `event`.
    ///
    /// A request that is taken while a batch is open is launched, and the
    /// batch is full with the one that makes up the quota. When the batch
    /// has settled, no request may leave until a window has passed since
    /// the last one left: the limiter rests, and rests again where the
    /// clock shows that it woke too early. A closed queue stops the
    /// limiter, and so does an event that was not asked for, or a clock
    /// that has run backwards.
    pub open spec fn step(self, event: LimiterEvent) -> (LimiterView, LimiterAction) {
        match (self.phase, event) {
            (LimiterPhase::Collecting, LimiterEvent::Request(now)) => if now < self.floor {
                self.stop()
            } else {
                let last = if now > self.last {
                    now as nat
                } else {
                    self.last
                };
                if self.taken + 1 < self.quota {
                    (
                        LimiterView { taken: self.taken + 1, last, ..self },
                        LimiterAction::Launch { more: true },
                    )
                } else {
                    (
                        LimiterView {
                            phase: LimiterPhase::Settling,
                            taken: self.taken + 1,
                            last,
                            ..self
                        },
                        LimiterAction::Launch { more: false },
                    )
                }
            },
            (LimiterPhase::Settling, LimiterEvent::Settled) => (
                LimiterView {
                    phase: LimiterPhase::Resting,
                    floor: self.last + self.window,
                    ..self
                },
                self.rest(),
            ),
            (LimiterPhase::Resting, LimiterEvent::Tick(now)) => if now >= self.floor {
                (
                    LimiterView { phase: LimiterPhase::Collecting, taken: 0, ..self },
                    LimiterAction::Await,
                )
            } else {
                (self, self.rest())
            },
            _ => self.stop(),
        }
    }

    /// Whether a request leaves on `event`.
    pub open spec fn launches(self, event: LimiterEvent) -> bool {
        self.step(event).1 is Launch
    }

    /// The state after a run of events.
    pub open spec fn run(self, events: Seq<LimiterEvent>) -> LimiterView
        decreases events.len(),
    {
        if events.len() == 0 {
            self
        } else {
            self.run(events.drop_last()).step(events.last()).0
        }
    }

    /// How many requests leave in a run of events at a reading of the clock
    /// from `from` up to, but without, `to`.
    pub open spec fn launched_within(self, events: Seq<LimiterEvent>, from: int, to: int) -> nat
        decreases events.len(),
    {
        if events.len() == 0 {
            0
        } else {
            let earlier = self.launched_within(events.drop_last(), from, to);
            if self.run(events.drop_last()).launches(events.last()) && from
                <= events.last()->Request_0 < to {
                earlier + 1
            } else {
                earlier
            }
        }
    }

    /// How many batches were opened in a run of events, after the first.
    pub open spec fn batches(self, events: Seq<LimiterEvent>) -> nat
        decreases events.len(),
    {
        if events.len() == 0 {
            0
        } else {
            let before = self.run(events.drop_last());
            if before.phase == LimiterPhase::Resting && before.step(events.last()).0.phase
                == LimiterPhase::Collecting {
                self.batches(events.drop_last()) + 1
            } else {
                self.batches(events.drop_last())
            }
        }
    }

    /// A batch is open or full.
    pub open spec fn in_batch(self) -> bool {
        self.phase == LimiterPhase::Collecting || self.phase == LimiterPhase::Settling
    }

    /// What a run leaves true of the span of time from `from` to `to`, no
    /// longer than the window: the requests that left in it are within the
    /// quota; there is none where the span begins after the last request
    /// left; and they all belong to the batch at hand where the span
    /// ends after the time from which that batch may launch.
    proof fn lemma_window(self, events: Seq<LimiterEvent>, from: int, to: int)
        requires
            self == LimiterView::start(self.quota, self.window).0,
            to - from <= self.window,
        ensures
            ({
                let after = self.run(events);
                let count = self.launched_within(events, from, to);
                &&& after.wf()
                &&& after.quota == self.quota
                &&& after.window == self.window
                &&& count <= self.quota
                &&& from > after.last ==> count == 0
                &&& after.in_batch() && to > after.floor ==> count <= after.taken
            }),
        decreases events.len(),
    {
        if events.len() > 0 {
            self.lemma_window(events.drop_last(), from, to);
        }
    }

    /// No more requests than the quota leave in any window, whenever the
    /// requests arrive: in every run of events, those that leave at a
    /// reading of the clock from `from` up to a window later are no more
    /// than the quota.
    pub proof fn lemma_quota_in_every_window(
        quota: nat,
        window: nat,
        events: Seq<LimiterEvent>,
        from: int,
    )
        ensures
            LimiterView::start(quota, window).0.launched_within(events, from, from + window)
                <= quota,
    {
        LimiterView::start(quota, window).0.lemma_window(events, from, from + window);
    }

    /// What a run leaves true of a request that left at `at`, when `since`
    /// batches had been opened: no request has left later than the last,
    /// and a batch that was opened after it launches no earlier than a
    /// window after `at`.
    spec fn keeps_apart(self, opened: nat, at: int, since: nat) -> bool {
        &&& self.wf()
        &&& at <= self.last
        &&& opened >= since
        &&& opened > since ==> self.floor >= at + self.window
    }

    proof fn lemma_keeps_apart(self, events: Seq<LimiterEvent>, i: int, upto: int)
        requires
            self == LimiterView::start(self.quota, self.window).0,
            0 <= i < upto <= events.len(),
            self.run(events.take(i)).launches(events[i]),
        ensures
            self.run(events.take(upto)).keeps_apart(
                self.batches(events.take(upto)),
                events[i]->Request_0 as int,
                self.batches(events.take(i)),
            ),
            self.run(events.take(upto)).window == self.window,
        decreases upto - i,
    {
        let head = events.take(upto - 1);
        assert(events.take(upto).drop_last() == head);
        assert(events.take(upto).last() == events[upto - 1]);
        self.lemma_window(head, 0, 0);
        if upto > i + 1 {
            self.lemma_keeps_apart(events, i, upto - 1);
        }
    }

    /// A request of a later batch leaves at least a window after every
    /// request of an earlier batch, whenever the requests arrive. So where
    /// more requests wait than the quota allows, those that are left over
    /// leave no earlier than a window after the batch before them.
    pub proof fn lemma_batches_a_window_apart(
        quota: nat,
        window: nat,
        events: Seq<LimiterEvent>,
        i: int,
        j: int,
    )
        requires
            0 <= i < j < events.len(),
            LimiterView::start(quota, window).0.run(events.take(i)).launches(events[i]),
            LimiterView::start(quota, window).0.run(events.take(j)).launches(events[j]),
            LimiterView::start(quota, window).0.batches(events.take(i)) < LimiterView::start(
                quota,
                window,
            ).0.batches(events.take(j)),
        ensures
            events[j]->Request_0 >= events[i]->Request_0 + window,
    {
        LimiterView::start(quota, window).0.lemma_keeps_apart(events, i, j);
    }

    /// A batch is opened only when the batch before it has settled and the
    /// rest after it is over: out of a full batch the only way on is
    /// `Settled`, which launches nothing, and out of the rest the only way
    /// on is a reading of the clock no earlier than a window after the last
    /// request left.
    pub proof fn lemma_next_batch_waits(self, event: LimiterEvent)
        requires
            self.wf(),
            self.phase == LimiterPhase::Settling || self.phase == LimiterPhase::Resting,
        ensures
            !self.launches(event),
            self.step(event).0.phase == LimiterPhase::Collecting ==> {
                &&& self.phase == LimiterPhase::Resting
                &&& event matches LimiterEvent::Tick(now)
                &&& now >= self.last + self.window
            },
            self.step(event).0.phase == LimiterPhase::Resting ==> self.step(event).0.floor
                == self.last + self.window,
    {
    }
}

/// The limiter of a queue of requests.
#[derive(Debug)]
pub struct RateLimiter {
    quota: u32,
    window: u64,
    phase: LimiterPhase,
    taken: u32,
    last: u64,
    floor: u128,
}

impl View for RateLimiter {
    type V = LimiterView;

    closed spec fn view(&self) -> LimiterView {
        LimiterView {
            quota: self.quota as nat,
            window: self.window as nat,
            phase: self.phase,
            taken: self.taken as nat,
            last: self.last as nat,
            floor: self.floor as nat,
        }
    }
}

impl RateLimiter {
    #[verifier::type_invariant]
    spec fn inv(self) -> bool {
        self@.wf()
    }

    /// A limiter that lets `quota` requests leave in each window of
    /// `window` milliseconds, and what it asks for first.
    pub fn start(quota: u32, window: u64) -> (r: (RateLimiter, LimiterAction))
        ensures
            r.0@ == LimiterView::start(quota as nat, window as nat).0,
            r.1 == LimiterView::start(quota as nat, window as nat).1,
            r.0@.wf(),
    {
        if quota == 0 {
            (
                RateLimiter {
                    quota,
                    window,
                    phase: LimiterPhase::Stopped,
                    taken: 0,
                    last: 0,
                    floor: 0,
                },
                LimiterAction::Stop,
            )
        } else {
            (
                RateLimiter {
                    quota,
                    window,
                    phase: LimiterPhase::Collecting,
                    taken: 0,
                    last: 0,
                    floor: 0,
                },
                LimiterAction::Await,
            )
        }
    }

    /// Where the limiter stands.
    pub fn phase(&self) -> (r: LimiterPhase)
        ensures
            r == self@.phase,
    {
        self.phase
    }

    /// How many requests of the batch at hand were launched.
    pub fn taken(&self) -> (r: u32)
        ensures
            r == self@.taken,
            r <= self@.quota,
    {
        proof {
            use_type_invariant(self);
        }
        self.taken
    }

    /// Takes what happened and says what to do next. A request is launched
    /// only on `Launch`, a batch never launches more than the quota, and
    /// no request leaves within a window of a request of another batch.
    pub fn step(&mut self, event: LimiterEvent) -> (action: LimiterAction)
        ensures
            final(self)@ == old(self)@.step(event).0,
            action == old(self)@.step(event).1,
            old(self)@.wf(),
            final(self)@.wf(),
    {
        proof {
            use_type_invariant(&*self);
        }
        let rest = LimiterAction::Sleep { since: self.last, millis: self.window };
        let stopped = RateLimiter { phase: LimiterPhase::Stopped, ..*self };
        let (next, action) = match (self.phase, event) {
            (LimiterPhase::Collecting, LimiterEvent::Request(now)) => {
                if (now as u128) < self.floor {
                    (stopped, LimiterAction::Stop)
                } else {
                    let last: u64 = if now > self.last {
                        now
                    } else {
                        self.last
                    };
                    let taken: u32 = self.taken + 1;
                    if taken < self.quota {
                        (RateLimiter { taken, last, ..*self }, LimiterAction::Launch { more: true })
                    } else {
                        (
                            RateLimiter { phase: LimiterPhase::Settling, taken, last, ..*self },
                            LimiterAction::Launch { more: false },
                        )
                    }
                }
            },
            (LimiterPhase::Settling, LimiterEvent::Settled) => (
                RateLimiter {
                    phase: LimiterPhase::Resting,
                    floor: self.last as u128 + self.window as u128,
                    ..*self
                },
                rest,
            ),
            (LimiterPhase::Resting, LimiterEvent::Tick(now)) => {
                if now as u128 >= self.floor {
                    (
                        RateLimiter { phase: LimiterPhase::Collecting, taken: 0, ..*self },
                        LimiterAction::Await,
                    )
                } else {
                    (RateLimiter { ..*self }, rest)
                }
            },
            _ => (stopped, LimiterAction::Stop),
        };
        *self = next;
        action
    }
}

} // verus!
