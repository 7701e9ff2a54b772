//! The connection lifecycle driver.
//!
//! A polling loop implements the discover → connect → monitor → disconnect
//! cycle: search for the target process, resolve its base address, then
//! repeatedly confirm liveness and decode, publishing a record when it
//! differs from the last published one or when the staleness heartbeat
//! expires. The loop's blocking work — process snapshots, memory reads,
//! sleeps, channel sends — happens outside this crate; every decision is
//! made here, by [`Driver::step`], a function from the current state and
//! one observed event to the next state and the ordered actions the
//! surrounding loop must perform. The driver never ends on its own: every
//! failure is recovered by backing off and searching again.

use vstd::prelude::*;

use crate::stats::{zero_stats, Stats};

verus! {

/// Interval between discovery attempts while no target is attached, in
/// milliseconds.
pub const SEARCH_BACKOFF_MS: u64 = 1000;

/// Interval before retrying after a failed decode, in milliseconds. A
/// decode failure while the process is alive is transient — the layout may
/// be momentarily unreadable — so the driver stays connected and retries.
pub const DECODE_RETRY_MS: u64 = 1000;

/// Interval between polls while attached, in milliseconds.
pub const POLL_INTERVAL_MS: u64 = 100;

/// Longest time between publishes even without a data change, in
/// milliseconds: the heartbeat that keeps late-joining subscribers current.
pub const STALENESS_INTERVAL_MS: u64 = 1000;

/// The externally published event: either "no process currently found or
/// attached", or one full decoded snapshot.
#[derive(Clone, Copy, Debug, PartialEq, Eq, Structural)]
pub enum TrackerMessage {
    /// No process is currently found or attached.
    Connecting,
    /// A live decoded snapshot.
    Payload { stats: Stats },
}

/// The driver's position in the discover → connect → monitor cycle.
#[derive(Clone, Copy, Debug, PartialEq, Eq, Structural)]
pub enum Phase {
    /// No process found; discovery attempts are running.
    Searching,
    /// A process is open but its base address is not yet known.
    Resolving,
    /// A process is open and its base address is known; records are being
    /// decoded in a polling loop.
    Connected,
}

/// What the surrounding loop reports back to the driver: the outcome of
/// the action it was last asked to perform, or a plain poll at the top of
/// an iteration.
#[derive(Clone, Copy, Debug, PartialEq, Eq)]
pub enum Event {
    /// Top of a loop iteration: nothing observed yet.
    Poll,
    /// Outcome of a discovery attempt: whether the target process was
    /// found and opened.
    FindResult { found: bool },
    /// Outcome of a base-address resolution attempt, with the clock
    /// reading at completion.
    ResolveResult { base: Option<u64>, now_ms: u64 },
    /// Outcome of a liveness check on the attached process.
    LivenessResult { alive: bool },
    /// Outcome of a decode attempt — the whole record, or nothing — with
    /// the clock reading at completion.
    DecodeResult { stats: Option<Stats>, now_ms: u64 },
}

/// One thing the surrounding loop must do, in the order returned.
#[derive(Clone, Copy, Debug, PartialEq, Eq, Structural)]
pub enum Action {
    /// Report that a search for the target has begun.
    AnnounceSearching,
    /// Report that the target was found and resolved.
    AnnounceConnected,
    /// Report that the attached process went away.
    AnnounceDisconnected,
    /// Publish a message to all subscribers (fire-and-forget: succeeding
    /// with zero subscribers is fine).
    Send { message: TrackerMessage },
    /// Attempt to find and open the target process.
    FindProcess,
    /// Attempt to resolve the opened process's base address.
    ResolveBase,
    /// Query whether the attached process is still alive.
    CheckLiveness,
    /// Attempt to decode one record from the attached process.
    Decode,
    /// Close the current process handle; the episode is over.
    CloseHandle,
    /// Sleep for the given number of milliseconds.
    Wait { ms: u64 },
}

/// The lifecycle driver's state: everything one episode carries from one
/// loop iteration to the next. All of it is owned here — no state outlives
/// the driver or is shared with another thread of control.
#[derive(Clone, Copy, Debug)]
pub struct Driver {
    /// Position in the discover → connect → monitor cycle.
    pub phase: Phase,
    /// Whether the current search has already been announced, so a long
    /// search is reported once rather than every backoff interval.
    pub announced: bool,
    /// Base address of the current episode; meaningful only while
    /// connected, and re-resolved afresh for every episode.
    pub base: u64,
    /// The last published record — or the all-zero record at the start of
    /// an episode, before anything has been published.
    pub last_stats: Stats,
    /// Clock reading of the last publish (or of the episode start), in
    /// milliseconds.
    pub last_publish_ms: u64,
}

/// The state a fresh driver starts in: searching, nothing announced,
/// nothing published.
pub open spec fn initial_driver() -> Driver {
    Driver {
        phase: Phase::Searching,
        announced: false,
        base: 0,
        last_stats: zero_stats(),
        last_publish_ms: 0,
    }
}

/// Whether `event` is one the driver can observe in its current state: an
/// outcome event must answer the action the state asked for, and clock
/// readings never run backwards.
pub open spec fn event_fits(pre: Driver, event: Event) -> bool {
    match event {
        Event::Poll => true,
        Event::FindResult { .. } => pre.phase is Searching,
        Event::ResolveResult { .. } => pre.phase is Resolving,
        Event::LivenessResult { .. } => pre.phase is Connected,
        Event::DecodeResult { .. } => pre.phase is Connected && (match event {
            Event::DecodeResult { now_ms, .. } => now_ms >= pre.last_publish_ms,
            _ => true,
        }),
    }
}

/// Whether a freshly decoded record must be published: exactly when it
/// differs from the last published one in at least one counter, or when
/// more than the staleness interval has elapsed since the last publish.
pub open spec fn spec_should_publish(pre: Driver, stats: Stats, now_ms: u64) -> bool {
    stats != pre.last_stats || now_ms - pre.last_publish_ms > STALENESS_INTERVAL_MS
}

/// The driver's whole decision table: the state after observing `event`,
/// and the ordered actions the surrounding loop must then perform.
pub open spec fn step_spec(pre: Driver, event: Event) -> (Driver, Seq<Action>) {
    match event {
        Event::Poll => match pre.phase {
            Phase::Searching => if !pre.announced {
                (
                    Driver { announced: true, ..pre },
                    seq![
                        Action::AnnounceSearching,
                        Action::Send { message: TrackerMessage::Connecting },
                        Action::FindProcess,
                    ],
                )
            } else {
                (
                    pre,
                    seq![
                        Action::Send { message: TrackerMessage::Connecting },
                        Action::FindProcess,
                    ],
                )
            },
            Phase::Resolving => (pre, seq![Action::ResolveBase]),
            Phase::Connected => (pre, seq![Action::CheckLiveness]),
        },
        Event::FindResult { found } => if found {
            (Driver { phase: Phase::Resolving, ..pre }, seq![Action::ResolveBase])
        } else {
            (pre, seq![Action::Wait { ms: SEARCH_BACKOFF_MS }])
        },
        Event::ResolveResult { base, now_ms } => match base {
            Option::Some(b) => (
                Driver {
                    phase: Phase::Connected,
                    announced: false,
                    base: b,
                    last_stats: zero_stats(),
                    last_publish_ms: now_ms,
                },
                seq![Action::AnnounceConnected],
            ),
            Option::None => (
                Driver { phase: Phase::Searching, ..pre },
                seq![Action::CloseHandle, Action::Wait { ms: SEARCH_BACKOFF_MS }],
            ),
        },
        Event::LivenessResult { alive } => if alive {
            (pre, seq![Action::Decode])
        } else {
            (
                Driver { phase: Phase::Searching, ..pre },
                seq![
                    Action::AnnounceDisconnected,
                    Action::CloseHandle,
                    Action::Wait { ms: SEARCH_BACKOFF_MS },
                ],
            )
        },
        Event::DecodeResult { stats, now_ms } => match stats {
            Option::None => (pre, seq![Action::Wait { ms: DECODE_RETRY_MS }]),
            Option::Some(s) => if spec_should_publish(pre, s, now_ms) {
                (
                    Driver { last_stats: s, last_publish_ms: now_ms, ..pre },
                    seq![
                        Action::Send { message: TrackerMessage::Payload { stats: s } },
                        Action::Wait { ms: POLL_INTERVAL_MS },
                    ],
                )
            } else {
                (pre, seq![Action::Wait { ms: POLL_INTERVAL_MS }])
            },
        },
    }
}

impl Driver {
    /// A fresh driver, about to start its first search.
    pub fn new() -> (d: Driver)
        ensures
            d == initial_driver(),
    {
        Driver {
            phase: Phase::Searching,
            announced: false,
            base: 0,
            last_stats: Stats::default(),
            last_publish_ms: 0,
        }
    }

    /// Advances the driver by one observed event. Returns the actions the
    /// surrounding loop must perform next, in order; the driver's new
    /// state and the returned actions are exactly what [`step_spec`]
    /// dictates.
    pub fn step(&mut self, event: Event) -> (actions: Vec<Action>)
        requires
            event_fits(*old(self), event),
        ensures
            *final(self) == step_spec(*old(self), event).0,
            actions@ == step_spec(*old(self), event).1,
    {
        let ghost pre = *self;
        let mut actions: Vec<Action> = Vec::new();
        match event {
            Event::Poll => {
                match self.phase {
                    Phase::Searching => {
                        if !self.announced {
                            self.announced = true;
                            actions.push(Action::AnnounceSearching);
                        }
                        actions.push(Action::Send { message: TrackerMessage::Connecting });
                        actions.push(Action::FindProcess);
                    },
                    Phase::Resolving => {
                        actions.push(Action::ResolveBase);
                    },
                    Phase::Connected => {
                        actions.push(Action::CheckLiveness);
                    },
                }
            },
            Event::FindResult { found } => {
                if found {
                    self.phase = Phase::Resolving;
                    actions.push(Action::ResolveBase);
                } else {
                    actions.push(Action::Wait { ms: SEARCH_BACKOFF_MS });
                }
            },
            Event::ResolveResult { base, now_ms } => {
                match base {
                    Option::Some(b) => {
                        self.phase = Phase::Connected;
                        self.announced = false;
                        self.base = b;
                        self.last_stats = Stats::default();
                        self.last_publish_ms = now_ms;
                        actions.push(Action::AnnounceConnected);
                    },
                    Option::None => {
                        self.phase = Phase::Searching;
                        actions.push(Action::CloseHandle);
                        actions.push(Action::Wait { ms: SEARCH_BACKOFF_MS });
                    },
                }
            },
            Event::LivenessResult { alive } => {
                if alive {
                    actions.push(Action::Decode);
                } else {
                    self.phase = Phase::Searching;
                    actions.push(Action::AnnounceDisconnected);
                    actions.push(Action::CloseHandle);
                    actions.push(Action::Wait { ms: SEARCH_BACKOFF_MS });
                }
            },
            Event::DecodeResult { stats, now_ms } => {
                match stats {
                    Option::None => {
                        actions.push(Action::Wait { ms: DECODE_RETRY_MS });
                    },
                    Option::Some(s) => {
                        if s != self.last_stats
                            || now_ms - self.last_publish_ms > STALENESS_INTERVAL_MS {
                            self.last_stats = s;
                            self.last_publish_ms = now_ms;
                            actions.push(Action::Send {
                                message: TrackerMessage::Payload { stats: s },
                            });
                            actions.push(Action::Wait { ms: POLL_INTERVAL_MS });
                        } else {
                            actions.push(Action::Wait { ms: POLL_INTERVAL_MS });
                        }
                    },
                }
            },
        }
        proof {
            assert(actions@ =~= step_spec(pre, event).1);
        }
        actions
    }
}

/// The driver never requests a decode except in direct response to a
/// liveness check, in the same iteration, that reported the attached
/// process still alive; and a liveness check reporting it exited moves the
/// driver back to searching before any further decode can be requested.
pub proof fn lemma_decode_gated_on_liveness(pre: Driver, event: Event)
    requires
        event_fits(pre, event),
    ensures
        step_spec(pre, event).1.contains(Action::Decode) ==> (pre.phase is Connected && event
            == (Event::LivenessResult { alive: true })),
        (event matches Event::LivenessResult { alive } && !alive) ==> step_spec(
            pre,
            event,
        ).0.phase is Searching,
{
    let acts = step_spec(pre, event).1;
    if !(pre.phase is Connected && event == (Event::LivenessResult { alive: true })) {
        assert forall|i: int| 0 <= i < acts.len() implies acts[i] != Action::Decode by {
            lemma_step_actions_indexed(pre, event, i);
        }
        assert(!acts.contains(Action::Decode));
    }
}

/// Helper: every action at a concrete index of every branch of the
/// decision table, spelled out so that quantified facts about the action
/// list can be discharged index by index. Each outcome-producing action is
/// only ever issued from the state that can observe its outcome.
proof fn lemma_step_actions_indexed(pre: Driver, event: Event, i: int)
    requires
        event_fits(pre, event),
        0 <= i < step_spec(pre, event).1.len(),
    ensures
        step_spec(pre, event).1[i] == Action::Decode ==> (pre.phase is Connected && event
            == (Event::LivenessResult { alive: true })),
        step_spec(pre, event).1[i] == Action::Decode ==> step_spec(pre, event).0.phase
            is Connected,
        step_spec(pre, event).1[i] == Action::FindProcess ==> step_spec(pre, event).0.phase
            is Searching,
        step_spec(pre, event).1[i] == Action::ResolveBase ==> step_spec(pre, event).0.phase
            is Resolving,
        step_spec(pre, event).1[i] == Action::CheckLiveness ==> step_spec(pre, event).0.phase
            is Connected,
{
    let acts = step_spec(pre, event).1;
    match event {
        Event::Poll => match pre.phase {
            Phase::Searching => {
                if !pre.announced {
                    assert(acts[0] == Action::AnnounceSearching);
                    assert(acts[1] == Action::Send { message: TrackerMessage::Connecting });
                    assert(acts[2] == Action::FindProcess);
                } else {
                    assert(acts[0] == Action::Send { message: TrackerMessage::Connecting });
                    assert(acts[1] == Action::FindProcess);
                }
            },
            Phase::Resolving => {
                assert(acts[0] == Action::ResolveBase);
            },
            Phase::Connected => {
                assert(acts[0] == Action::CheckLiveness);
            },
        },
        Event::FindResult { found } => {
            if found {
                assert(acts[0] == Action::ResolveBase);
            } else {
                assert(acts[0] == Action::Wait { ms: SEARCH_BACKOFF_MS });
            }
        },
        Event::ResolveResult { base, .. } => {
            match base {
                Option::Some(_) => {
                    assert(acts[0] == Action::AnnounceConnected);
                },
                Option::None => {
                    assert(acts[0] == Action::CloseHandle);
                    assert(acts[1] == Action::Wait { ms: SEARCH_BACKOFF_MS });
                },
            }
        },
        Event::LivenessResult { alive } => {
            if !alive {
                assert(acts[0] == Action::AnnounceDisconnected);
                assert(acts[1] == Action::CloseHandle);
                assert(acts[2] == Action::Wait { ms: SEARCH_BACKOFF_MS });
            }
        },
        Event::DecodeResult { stats, now_ms } => {
            match stats {
                Option::None => {
                    assert(acts[0] == Action::Wait { ms: DECODE_RETRY_MS });
                },
                Option::Some(s) => {
                    if spec_should_publish(pre, s, now_ms) {
                        assert(acts[0] == Action::Send {
                            message: TrackerMessage::Payload { stats: s },
                        });
                        assert(acts[1] == Action::Wait { ms: POLL_INTERVAL_MS });
                    } else {
                        assert(acts[0] == Action::Wait { ms: POLL_INTERVAL_MS });
                    }
                },
            }
        },
    }
}

/// The interaction protocol is self-sustaining: whatever outcome an action
/// the driver just requested may produce, that outcome is an event the
/// driver's new state can observe. A loop that performs the returned
/// actions in order and reports each outcome back can therefore always
/// take the next step.
pub proof fn lemma_outcomes_fit_next_state(pre: Driver, event: Event, outcome: Event)
    requires
        event_fits(pre, event),
        (match outcome {
            Event::Poll => true,
            Event::FindResult { .. } => step_spec(pre, event).1.contains(Action::FindProcess),
            Event::ResolveResult { .. } => step_spec(pre, event).1.contains(Action::ResolveBase),
            Event::LivenessResult { .. } => step_spec(pre, event).1.contains(
                Action::CheckLiveness,
            ),
            Event::DecodeResult { stats: _, now_ms } => step_spec(pre, event).1.contains(
                Action::Decode,
            ) && now_ms >= step_spec(pre, event).0.last_publish_ms,
        }),
    ensures
        event_fits(step_spec(pre, event).0, outcome),
{
    let acts = step_spec(pre, event).1;
    match outcome {
        Event::Poll => {},
        Event::FindResult { .. } => {
            let i: int = choose|i: int| 0 <= i < acts.len() && acts[i] == Action::FindProcess;
            lemma_step_actions_indexed(pre, event, i);
        },
        Event::ResolveResult { .. } => {
            let i: int = choose|i: int| 0 <= i < acts.len() && acts[i] == Action::ResolveBase;
            lemma_step_actions_indexed(pre, event, i);
        },
        Event::LivenessResult { .. } => {
            let i: int = choose|i: int| 0 <= i < acts.len() && acts[i] == Action::CheckLiveness;
            lemma_step_actions_indexed(pre, event, i);
        },
        Event::DecodeResult { .. } => {
            let i: int = choose|i: int| 0 <= i < acts.len() && acts[i] == Action::Decode;
            lemma_step_actions_indexed(pre, event, i);
        },
    }
}

/// After a successful decode, a publish is emitted if and only if the new
/// record differs from the last published one in at least one counter, or
/// the elapsed time since the last publish exceeds the staleness interval;
/// and exactly the published record becomes the new comparison point.
pub proof fn lemma_publish_iff_changed_or_stale(pre: Driver, stats: Stats, now_ms: u64)
    requires
        pre.phase is Connected,
        now_ms >= pre.last_publish_ms,
    ensures
        ({
            let outcome = step_spec(pre, Event::DecodeResult { stats: Some(stats), now_ms });
            let published = outcome.1.contains(
                Action::Send { message: TrackerMessage::Payload { stats } },
            );
            &&& published <==> spec_should_publish(pre, stats, now_ms)
            &&& published ==> outcome.0.last_stats == stats && outcome.0.last_publish_ms == now_ms
            &&& !published ==> outcome.0 == pre
        }),
{
    let outcome = step_spec(pre, Event::DecodeResult { stats: Some(stats), now_ms });
    let acts = outcome.1;
    if spec_should_publish(pre, stats, now_ms) {
        assert(acts[0] == Action::Send { message: TrackerMessage::Payload { stats } });
        assert(acts.contains(Action::Send { message: TrackerMessage::Payload { stats } }));
    } else {
        assert forall|i: int| 0 <= i < acts.len() implies acts[i] != Action::Send {
            message: TrackerMessage::Payload { stats },
        } by {
            assert(acts[0] == Action::Wait { ms: POLL_INTERVAL_MS });
        }
        assert(!acts.contains(Action::Send { message: TrackerMessage::Payload { stats } }));
    }
}

/// While searching, every poll publishes a `Connecting` message and
/// attempts discovery — never a decode — and a failed discovery leaves the
/// driver searching, to try again after the backoff interval.
pub proof fn lemma_searching_stays_searching(pre: Driver)
    requires
        pre.phase is Searching,
    ensures
        step_spec(pre, Event::Poll).1.contains(
            Action::Send { message: TrackerMessage::Connecting },
        ),
        !step_spec(pre, Event::Poll).1.contains(Action::Decode),
        step_spec(pre, Event::Poll).0.phase is Searching,
        step_spec(pre, Event::FindResult { found: false }).0.phase is Searching,
        step_spec(pre, Event::FindResult { found: false }).1.contains(
            Action::Wait { ms: SEARCH_BACKOFF_MS },
        ),
{
    let acts = step_spec(pre, Event::Poll).1;
    if !pre.announced {
        assert(acts[1] == Action::Send { message: TrackerMessage::Connecting });
    } else {
        assert(acts[0] == Action::Send { message: TrackerMessage::Connecting });
    }
    assert(acts.contains(Action::Send { message: TrackerMessage::Connecting }));
    lemma_decode_gated_on_liveness(pre, Event::Poll);
    assert(step_spec(pre, Event::FindResult { found: false }).1[0] == Action::Wait {
        ms: SEARCH_BACKOFF_MS,
    });
}

/// When the liveness check reports the attached process exited, the driver
/// closes its handle and returns to searching: the episode is over, and
/// the next one re-resolves a fresh handle and base address rather than
/// reusing these.
pub proof fn lemma_exit_ends_episode(pre: Driver)
    requires
        pre.phase is Connected,
    ensures
        step_spec(pre, Event::LivenessResult { alive: false }).1.contains(Action::CloseHandle),
        step_spec(pre, Event::LivenessResult { alive: false }).0.phase is Searching,
{
    let acts = step_spec(pre, Event::LivenessResult { alive: false }).1;
    assert(acts[1] == Action::CloseHandle);
    assert(acts.contains(Action::CloseHandle));
}

} // verus!
