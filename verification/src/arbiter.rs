//! Exclusive access arbitration: serializes concurrent sessions against the
//! single engine process and implements last-writer-wins preemption. The
//! arbiter is an explicit state machine; every transition is a total function
//! of the current state and one event.

use vstd::prelude::*;

verus! {

/// One event at the arbitration layer.
#[derive(Clone, Copy, PartialEq, Eq, Structural, Debug)]
pub enum ArbiterEvent {
    /// A session asks for exclusive access to the engine.
    Acquire(u64),
    /// A session relinquishes its claim: voluntary release, or its
    /// connection closed (a blocked acquirer that disconnects also
    /// relinquishes its pending claim).
    Release(u64),
    /// The holding session submitted an analysis directive to the engine.
    GoSubmitted(u64),
    /// The engine settled: its best-move line was observed.
    BestMove,
    /// The engine subprocess terminated unexpectedly.
    Died,
}

/// The externally visible effect of one transition.
#[derive(Clone, Copy, PartialEq, Eq, Structural, Debug)]
pub enum ArbiterAction {
    /// The session now holds the exclusive handle.
    Grant(u64),
    /// A stop command goes to the engine to settle the running analysis.
    SendStop,
    /// The best move of a completed analysis goes to this holding session.
    Deliver(u64),
    /// The submitted analysis directive goes through to the engine.
    Forward(u64),
    /// The acquire fails: the engine is no longer available.
    Fail(u64),
    /// The engine died: the holder and any waiter are failed.
    FailAll,
    /// No externally visible effect.
    Nothing,
    /// The event is incompatible with the current state and is rejected.
    Reject,
}

/// Arbiter state. `draining` means the previous holder released while an
/// analysis was outstanding: a stop was sent and the coming best-move line
/// will be consumed without being delivered to anyone.
#[derive(Clone, Copy, Debug)]
pub struct Arbiter {
    pub alive: bool,
    pub holder: Option<u64>,
    /// At most one pending successor; a newer acquirer replaces an older one
    /// (last-writer-wins, matching the single-client design).
    pub waiter: Option<u64>,
    /// An analysis directive is outstanding on the engine.
    pub busy: bool,
    pub draining: bool,
}

/// The arbiter as it stands when the engine has started: nobody holds the
/// handle, nothing is outstanding.
pub open spec fn arbiter_init() -> Arbiter {
    Arbiter { alive: true, holder: None, waiter: None, busy: false, draining: false }
}

/// The transition function: next state and visible action for one event.
/// The preemption grace interval is fixed at zero: when a waiter is present,
/// the handle passes to it as soon as the engine settles.
pub open spec fn arb_step(s: Arbiter, e: ArbiterEvent) -> (Arbiter, ArbiterAction) {
    match e {
        ArbiterEvent::Acquire(sid) => {
            if !s.alive {
                (s, ArbiterAction::Fail(sid))
            } else if s.holder is None && !s.draining {
                (Arbiter { holder: Some(sid), ..s }, ArbiterAction::Grant(sid))
            } else if s.holder is Some {
                (
                    Arbiter { waiter: Some(sid), ..s },
                    if s.busy {
                        ArbiterAction::SendStop
                    } else {
                        ArbiterAction::Nothing
                    },
                )
            } else {
                (Arbiter { waiter: Some(sid), ..s }, ArbiterAction::Nothing)
            }
        },
        ArbiterEvent::Release(sid) => {
            if s.holder == Some(sid) {
                if s.busy {
                    (Arbiter { holder: None, draining: true, ..s }, ArbiterAction::SendStop)
                } else if s.waiter is Some {
                    (
                        Arbiter { holder: Some(s.waiter.unwrap()), waiter: None, ..s },
                        ArbiterAction::Grant(s.waiter.unwrap()),
                    )
                } else {
                    (Arbiter { holder: None, ..s }, ArbiterAction::Nothing)
                }
            } else if s.waiter == Some(sid) {
                (Arbiter { waiter: None, ..s }, ArbiterAction::Nothing)
            } else {
                (s, ArbiterAction::Nothing)
            }
        },
        ArbiterEvent::GoSubmitted(sid) => {
            if s.alive && s.holder == Some(sid) && !s.busy && !s.draining {
                (Arbiter { busy: true, ..s }, ArbiterAction::Forward(sid))
            } else {
                (s, ArbiterAction::Reject)
            }
        },
        ArbiterEvent::BestMove => {
            if s.draining {
                if s.waiter is Some {
                    (
                        Arbiter {
                            holder: Some(s.waiter.unwrap()),
                            waiter: None,
                            busy: false,
                            draining: false,
                            ..s
                        },
                        ArbiterAction::Grant(s.waiter.unwrap()),
                    )
                } else {
                    (Arbiter { busy: false, draining: false, ..s }, ArbiterAction::Nothing)
                }
            } else if s.busy && s.holder is Some {
                if s.waiter is Some {
                    // the settling best move answers the stop that preemption
                    // sent: it is consumed silently, never delivered to the
                    // superseded session
                    (
                        Arbiter { holder: Some(s.waiter.unwrap()), waiter: None, busy: false, ..s },
                        ArbiterAction::Grant(s.waiter.unwrap()),
                    )
                } else {
                    (Arbiter { busy: false, ..s }, ArbiterAction::Deliver(s.holder.unwrap()))
                }
            } else {
                (s, ArbiterAction::Reject)
            }
        },
        ArbiterEvent::Died => {
            (
                Arbiter { alive: false, holder: None, waiter: None, busy: false, draining: false },
                ArbiterAction::FailAll,
            )
        },
    }
}

impl Arbiter {
    /// A fresh arbiter over a started engine.
    pub fn new() -> (a: Arbiter)
        ensures
            a == arbiter_init(),
    {
        Arbiter { alive: true, holder: None, waiter: None, busy: false, draining: false }
    }

    /// Whether this session currently holds the exclusive handle.
    pub open spec fn holds(self, sid: u64) -> bool {
        self.holder == Some(sid)
    }

    /// Apply one event; the result is exactly what the transition function
    /// states.
    pub fn on_event(&mut self, e: ArbiterEvent) -> (a: ArbiterAction)
        ensures
            (*final(self), a) == arb_step(*old(self), e),
    {
        let s = *self;
        match e {
            ArbiterEvent::Acquire(sid) => {
                if !s.alive {
                    ArbiterAction::Fail(sid)
                } else if s.holder.is_none() && !s.draining {
                    self.holder = Some(sid);
                    ArbiterAction::Grant(sid)
                } else if s.holder.is_some() {
                    self.waiter = Some(sid);
                    if s.busy {
                        ArbiterAction::SendStop
                    } else {
                        ArbiterAction::Nothing
                    }
                } else {
                    self.waiter = Some(sid);
                    ArbiterAction::Nothing
                }
            },
            ArbiterEvent::Release(sid) => {
                let held = match s.holder {
                    Some(h) => h == sid,
                    None => false,
                };
                let waiting = match s.waiter {
                    Some(w) => w == sid,
                    None => false,
                };
                if held {
                    if s.busy {
                        self.holder = None;
                        self.draining = true;
                        ArbiterAction::SendStop
                    } else {
                        match s.waiter {
                            Some(w) => {
                                self.holder = Some(w);
                                self.waiter = None;
                                ArbiterAction::Grant(w)
                            },
                            None => {
                                self.holder = None;
                                ArbiterAction::Nothing
                            },
                        }
                    }
                } else if waiting {
                    self.waiter = None;
                    ArbiterAction::Nothing
                } else {
                    ArbiterAction::Nothing
                }
            },
            ArbiterEvent::GoSubmitted(sid) => {
                let held = match s.holder {
                    Some(h) => h == sid,
                    None => false,
                };
                if s.alive && held && !s.busy && !s.draining {
                    self.busy = true;
                    ArbiterAction::Forward(sid)
                } else {
                    ArbiterAction::Reject
                }
            },
            ArbiterEvent::BestMove => {
                if s.draining {
                    match s.waiter {
                        Some(w) => {
                            self.holder = Some(w);
                            self.waiter = None;
                            self.busy = false;
                            self.draining = false;
                            ArbiterAction::Grant(w)
                        },
                        None => {
                            self.busy = false;
                            self.draining = false;
                            ArbiterAction::Nothing
                        },
                    }
                } else if s.busy && s.holder.is_some() {
                    let h = match s.holder {
                        Some(h) => h,
                        None => 0,
                    };
                    match s.waiter {
                        Some(w) => {
                            self.holder = Some(w);
                            self.waiter = None;
                            self.busy = false;
                            ArbiterAction::Grant(w)
                        },
                        None => {
                            self.busy = false;
                            ArbiterAction::Deliver(h)
                        },
                    }
                } else {
                    ArbiterAction::Reject
                }
            },
            ArbiterEvent::Died => {
                self.alive = false;
                self.holder = None;
                self.waiter = None;
                self.busy = false;
                self.draining = false;
                ArbiterAction::FailAll
            },
        }
    }
}

/// Internal consistency of an arbiter state.
pub open spec fn arb_inv(s: Arbiter) -> bool {
    &&& (!s.alive ==> s.holder is None && s.waiter is None && !s.busy && !s.draining)
    &&& (s.draining ==> s.holder is None && s.busy)
    &&& (s.busy ==> s.holder is Some || s.draining)
}

/// The state after a sequence of events, starting from a fresh arbiter.
pub open spec fn arb_run(evs: Seq<ArbiterEvent>) -> Arbiter
    decreases evs.len(),
{
    if evs.len() == 0 {
        arbiter_init()
    } else {
        arb_step(arb_run(evs.drop_last()), evs.last()).0
    }
}

/// Every transition preserves the arbiter's internal consistency.
pub proof fn lemma_arb_step_inv(s: Arbiter, e: ArbiterEvent)
    requires
        arb_inv(s),
    ensures
        arb_inv(arb_step(s, e).0),
{
}

/// Every reachable arbiter state is internally consistent.
pub proof fn lemma_arb_run_inv(evs: Seq<ArbiterEvent>)
    ensures
        arb_inv(arb_run(evs)),
    decreases evs.len(),
{
    if evs.len() > 0 {
        lemma_arb_run_inv(evs.drop_last());
        lemma_arb_step_inv(arb_run(evs.drop_last()), evs.last());
    }
}

/// Mutual exclusion: along every sequence of events — in particular every
/// interleaving of `acquire` calls from distinct sessions — at most one
/// session holds the exclusive handle at any instant.
pub proof fn lemma_mutual_exclusion(evs: Seq<ArbiterEvent>, a: u64, b: u64)
    requires
        arb_run(evs).holds(a),
        arb_run(evs).holds(b),
    ensures
        a == b,
{
}

/// The handle is never taken from its holder behind its back: it changes
/// hands only through the holder's own release, through the engine settling
/// after a preemption stop was sent on a waiter's behalf, or through the
/// death of the engine.
pub proof fn lemma_holder_loses_handle_only_legitimately(s: Arbiter, e: ArbiterEvent, h: u64)
    requires
        arb_inv(s),
        s.holder == Some(h),
        arb_step(s, e).0.holder != Some(h),
    ensures
        e == ArbiterEvent::Release(h) || (e == ArbiterEvent::BestMove && s.busy && s.waiter is Some)
            || e == ArbiterEvent::Died,
{
}

/// A dead engine rejects every acquire without touching any state: a fresh
/// connection attempt after the subprocess exit fails immediately, and no
/// session is granted anything afterwards.
pub proof fn lemma_dead_engine_rejects(s: Arbiter, sid: u64)
    requires
        !s.alive,
    ensures
        arb_step(s, ArbiterEvent::Acquire(sid)) == (s, ArbiterAction::Fail(sid)),
{
}

/// Disconnect while holding with an analysis outstanding: the release path
/// sends a stop; when the engine settles, the handle passes to the pending
/// waiter, and the best-move line is consumed without being delivered to the
/// disconnected session (nor to anyone else).
pub proof fn lemma_disconnect_frees_handle(s: Arbiter, sid: u64, w: u64)
    requires
        arb_inv(s),
        s.holder == Some(sid),
        s.busy,
        s.waiter == Some(w),
    ensures
        ({
            let (s1, a1) = arb_step(s, ArbiterEvent::Release(sid));
            let (s2, a2) = arb_step(s1, ArbiterEvent::BestMove);
            &&& a1 == ArbiterAction::SendStop
            &&& s1.holder is None
            &&& a2 == ArbiterAction::Grant(w)
            &&& s2.holder == Some(w)
            &&& a2 != ArbiterAction::Deliver(sid)
            &&& a1 != ArbiterAction::Deliver(sid)
        }),
{
}

/// The same, with no waiter pending: the handle simply becomes free once the
/// engine settles, and the drained best move is delivered to nobody.
pub proof fn lemma_disconnect_drains_silently(s: Arbiter, sid: u64)
    requires
        arb_inv(s),
        s.holder == Some(sid),
        s.busy,
        s.waiter is None,
    ensures
        ({
            let (s1, a1) = arb_step(s, ArbiterEvent::Release(sid));
            let (s2, a2) = arb_step(s1, ArbiterEvent::BestMove);
            &&& a1 == ArbiterAction::SendStop
            &&& s1.holder is None
            &&& s2.holder is None
            &&& !s2.draining
            &&& a2 == ArbiterAction::Nothing
        }),
{
}

} // verus!
