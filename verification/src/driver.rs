//! The process driver's request/response state machine: the UCI handshake
//! and command cycle as an explicit tagged state with an exhaustive
//! transition function. Inputs incompatible with the current state are
//! rejected rather than silently ignored.

use vstd::prelude::*;
use crate::caps::{EngineCapabilities, EngineParameters};
use crate::uci::{spec_engine_line, EngineLine, EngineLineV};

verus! {

/// Lifecycle of the engine subprocess as the driver sees it.
#[derive(Clone, Copy, PartialEq, Eq, Structural, Debug)]
pub enum Phase {
    /// Subprocess not yet spawned.
    Starting,
    /// Identification sent; collecting declarations until the acknowledgment.
    Handshaking,
    /// Handshake done, no directive outstanding.
    Idle,
    /// An analysis directive is outstanding; output lines are being relayed.
    Thinking,
    /// The subprocess exited; no recovery is attempted.
    Terminated,
}

/// One event at the driver: a classified line from the engine, a command
/// from the session side, or a lifecycle change.
#[derive(Clone, Copy, PartialEq, Eq, Structural, Debug)]
pub enum DriverEvent {
    /// The subprocess was spawned.
    Spawned,
    /// An identification or option declaration line, during the handshake.
    LineDeclaration,
    /// The engine acknowledged the handshake.
    LineUciOk,
    /// A principal-variation/info line during an analysis.
    LineInfo,
    /// The best-move line terminating a search.
    LineBestMove,
    /// Any other line from the engine.
    LineOther,
    /// The session side asks to start an analysis.
    CmdGo,
    /// The session side asks to stop the running analysis.
    CmdStop,
    /// The subprocess exited.
    ProcExit,
}

/// The externally visible effect of one driver transition.
#[derive(Clone, Copy, PartialEq, Eq, Structural, Debug)]
pub enum DriverAction {
    /// The UCI identification command goes to the engine.
    SendUci,
    /// Thread and hash option-set commands go to the engine, before any
    /// analysis.
    SendOptions,
    /// The analysis directive (position and search budget) goes to the
    /// engine.
    SendGo,
    /// A stop command goes to the engine; its best-move line must follow.
    SendStop,
    /// The declaration line is collected into the capability record.
    Collect,
    /// The output line is relayed to the holder of the exclusive handle.
    RelayInfo,
    /// The best-move line is reported; the search is over.
    ReportBestMove,
    /// The subprocess failure is reported to whoever holds access.
    ReportFailure,
    /// The line carries nothing the protocol needs.
    Ignore,
    /// The event is incompatible with the current state and is rejected.
    Reject,
}

/// The exhaustive transition function of the driver.
pub open spec fn drv_step(p: Phase, e: DriverEvent) -> (Phase, DriverAction) {
    match (p, e) {
        (Phase::Starting, DriverEvent::Spawned) => (Phase::Handshaking, DriverAction::SendUci),
        (Phase::Starting, DriverEvent::ProcExit) => (Phase::Terminated, DriverAction::ReportFailure),
        (Phase::Starting, _) => (Phase::Starting, DriverAction::Reject),
        (Phase::Handshaking, DriverEvent::LineDeclaration) => (
            Phase::Handshaking,
            DriverAction::Collect,
        ),
        (Phase::Handshaking, DriverEvent::LineUciOk) => (Phase::Idle, DriverAction::SendOptions),
        (Phase::Handshaking, DriverEvent::LineOther) => (Phase::Handshaking, DriverAction::Ignore),
        (Phase::Handshaking, DriverEvent::ProcExit) => (
            Phase::Terminated,
            DriverAction::ReportFailure,
        ),
        (Phase::Handshaking, _) => (Phase::Handshaking, DriverAction::Reject),
        (Phase::Idle, DriverEvent::CmdGo) => (Phase::Thinking, DriverAction::SendGo),
        (Phase::Idle, DriverEvent::CmdStop) => (Phase::Idle, DriverAction::Ignore),
        (Phase::Idle, DriverEvent::LineOther) => (Phase::Idle, DriverAction::Ignore),
        (Phase::Idle, DriverEvent::ProcExit) => (Phase::Terminated, DriverAction::ReportFailure),
        (Phase::Idle, _) => (Phase::Idle, DriverAction::Reject),
        (Phase::Thinking, DriverEvent::LineInfo) => (Phase::Thinking, DriverAction::RelayInfo),
        (Phase::Thinking, DriverEvent::LineBestMove) => (Phase::Idle, DriverAction::ReportBestMove),
        (Phase::Thinking, DriverEvent::CmdStop) => (Phase::Thinking, DriverAction::SendStop),
        (Phase::Thinking, DriverEvent::LineOther) => (Phase::Thinking, DriverAction::Ignore),
        (Phase::Thinking, DriverEvent::ProcExit) => (
            Phase::Terminated,
            DriverAction::ReportFailure,
        ),
        (Phase::Thinking, _) => (Phase::Thinking, DriverAction::Reject),
        (Phase::Terminated, _) => (Phase::Terminated, DriverAction::Reject),
    }
}

/// The phase after a sequence of events, from a not-yet-spawned driver.
pub open spec fn drv_run(evs: Seq<DriverEvent>) -> Phase
    decreases evs.len(),
{
    if evs.len() == 0 {
        Phase::Starting
    } else {
        drv_step(drv_run(evs.drop_last()), evs.last()).0
    }
}

/// The phase just before the event at position `i` is applied.
pub open spec fn drv_at(evs: Seq<DriverEvent>, i: int) -> Phase {
    drv_run(evs.take(i))
}

/// The action produced by the event at position `i`.
pub open spec fn drv_action_at(evs: Seq<DriverEvent>, i: int) -> DriverAction {
    drv_step(drv_at(evs, i), evs[i]).1
}

proof fn lemma_run_take_step(evs: Seq<DriverEvent>, i: int)
    requires
        0 <= i < evs.len(),
    ensures
        drv_at(evs, i + 1) == drv_step(drv_at(evs, i), evs[i]).0,
{
    assert(evs.take(i + 1).drop_last() =~= evs.take(i));
    assert(evs.take(i + 1).last() == evs[i]);
}

/// Once terminated, terminated forever: the driver never auto-restarts.
pub proof fn lemma_terminated_absorbing(evs: Seq<DriverEvent>, i: int, j: int)
    requires
        0 <= i <= j <= evs.len(),
        drv_at(evs, i) == Phase::Terminated,
    ensures
        drv_at(evs, j) == Phase::Terminated,
    decreases j - i,
{
    if i < j {
        lemma_run_take_step(evs, i);
        lemma_terminated_absorbing(evs, i + 1, j);
    }
}

/// An analysis directive is sent to the engine only from `Idle`: never while
/// a previous directive is still outstanding.
pub proof fn lemma_go_only_when_settled(p: Phase, e: DriverEvent)
    ensures
        drv_step(p, e).1 == DriverAction::SendGo ==> p == Phase::Idle && drv_step(p, e).0
            == Phase::Thinking,
{
}

/// Leaving `Thinking` for `Idle` takes a best-move line: if the driver is
/// thinking at `i` and idle at `j`, the engine's best-move line was observed
/// somewhere in between.
proof fn lemma_idle_needs_bestmove(evs: Seq<DriverEvent>, i: int, j: int)
    requires
        0 <= i <= j <= evs.len(),
        drv_at(evs, i) == Phase::Thinking,
        drv_at(evs, j) == Phase::Idle,
    ensures
        exists|k: int| i <= k < j && evs[k] == DriverEvent::LineBestMove,
    decreases j - i,
{
    lemma_run_take_step(evs, i);
    if evs[i] == DriverEvent::LineBestMove {
        assert(i <= i < j && evs[i] == DriverEvent::LineBestMove);
    } else {
        let p1 = drv_at(evs, i + 1);
        if p1 == Phase::Terminated {
            lemma_terminated_absorbing(evs, i + 1, j);
            assert(false);
        } else {
            assert(p1 == Phase::Thinking);
            lemma_idle_needs_bestmove(evs, i + 1, j);
        }
    }
}

/// The driver event a classified engine output line amounts to.
pub open spec fn spec_event_of_line(l: EngineLineV) -> DriverEvent {
    match l {
        EngineLineV::IdName(_) => DriverEvent::LineDeclaration,
        EngineLineV::OptionDecl { .. } => DriverEvent::LineDeclaration,
        EngineLineV::UciOk => DriverEvent::LineUciOk,
        EngineLineV::ReadyOk => DriverEvent::LineOther,
        EngineLineV::Info(_) => DriverEvent::LineInfo,
        EngineLineV::BestMove(_) => DriverEvent::LineBestMove,
        EngineLineV::Other => DriverEvent::LineOther,
    }
}

/// The supervisor that owns the subprocess's lifecycle state and collects
/// the handshake declarations into the capability record.
pub struct Supervisor {
    pub phase: Phase,
    /// Operator ceilings, already clamped against the host.
    pub params: EngineParameters,
    /// Declared display name, as collected so far.
    pub name: Option<String>,
    /// Declared supported variants, as collected so far.
    pub variants: Vec<String>,
    /// The engine's declared thread ceiling, if any.
    pub declared_threads: Option<u64>,
    /// The engine's declared hash ceiling (MiB), if any.
    pub declared_hash: Option<u64>,
    /// Finalized on the handshake acknowledgment; immutable afterwards.
    pub capabilities: Option<EngineCapabilities>,
}

/// The effective cap once the engine has declared its own ceiling: the
/// configured parameter intersected with the declaration.
pub open spec fn effective_cap(configured: u32, declared: Option<u64>) -> int {
    match declared {
        Some(d) => if d < configured as u64 {
            d as int
        } else {
            configured as int
        },
        None => configured as int,
    }
}

impl Supervisor {
    /// A supervisor for a subprocess about to be spawned.
    pub fn new(params: EngineParameters) -> (s: Supervisor)
        ensures
            s.phase == Phase::Starting,
            s.params == params,
            s.name is None,
            s.declared_threads is None,
            s.declared_hash is None,
            s.capabilities is None,
            s.variants@.len() == 0,
    {
        Supervisor {
            phase: Phase::Starting,
            params,
            name: None,
            variants: Vec::new(),
            declared_threads: None,
            declared_hash: None,
            capabilities: None,
        }
    }

    /// Apply a non-line event (spawn, command, subprocess exit).
    pub fn on_event(&mut self, e: DriverEvent) -> (a: DriverAction)
        ensures
            (final(self).phase, a) == drv_step(old(self).phase, e),
            final(self).params == old(self).params,
            final(self).capabilities == old(self).capabilities,
            final(self).name == old(self).name,
            final(self).declared_threads == old(self).declared_threads,
            final(self).declared_hash == old(self).declared_hash,
            final(self).variants == old(self).variants,
    {
        let (p, a) = step_exec(self.phase, e);
        self.phase = p;
        a
    }

    /// Consume one line of engine output: drive the state machine, collect
    /// handshake declarations, and finalize the capability record on the
    /// acknowledgment — each effective cap is the configured ceiling
    /// intersected with what the engine itself declared.
    pub fn on_line(&mut self, line: &EngineLine) -> (a: DriverAction)
        ensures
            (final(self).phase, a) == drv_step(old(self).phase, spec_event_of_line(line@)),
            final(self).params == old(self).params,
            a == DriverAction::Collect ==> (line@ matches EngineLineV::IdName(n)
                ==> (final(self).name matches Some(nm) && nm@ == n)),
            a == DriverAction::Collect ==> (line@ matches EngineLineV::OptionDecl {
                name,
                max,
                vars,
            } ==> {
                &&& name == "Threads"@ ==> final(self).declared_threads == max
                &&& name == "Hash"@ ==> final(self).declared_hash == max
                &&& name == "UCI_Variant"@ ==> final(self).variants.deep_view() == vars
            }),
            a == DriverAction::SendOptions ==> (final(self).capabilities matches Some(c) && {
                &&& c.max_threads == effective_cap(
                    old(self).params.max_threads,
                    old(self).declared_threads,
                )
                &&& c.max_hash == effective_cap(old(self).params.max_hash, old(self).declared_hash)
                &&& c.name == final(self).name
                &&& c.variants@ == final(self).variants@
            }),
            a != DriverAction::SendOptions ==> final(self).capabilities == old(self).capabilities,
    {
        let e = classify_exec(line);
        let (p, a) = step_exec(self.phase, e);
        self.phase = p;
        match (a, line) {
            (DriverAction::Collect, EngineLine::IdName(n)) => {
                self.name = Some(n.clone());
            },
            (DriverAction::Collect, EngineLine::OptionDecl { name, max, vars }) => {
                if crate::uci::tok_is(name, "Threads") {
                    self.declared_threads = *max;
                }
                if crate::uci::tok_is(name, "Hash") {
                    self.declared_hash = *max;
                }
                if crate::uci::tok_is(name, "UCI_Variant") {
                    self.variants = clone_strings(vars);
                }
            },
            (DriverAction::SendOptions, _) => {
                let eff_threads = cap_with(self.params.max_threads, self.declared_threads);
                let eff_hash = cap_with(self.params.max_hash, self.declared_hash);
                let nm = match &self.name {
                    Some(n) => Some(n.clone()),
                    None => None,
                };
                let vs = clone_strings(&self.variants);
                self.capabilities = Some(
                    EngineCapabilities {
                        name: nm,
                        variants: vs,
                        max_threads: eff_threads,
                        max_hash: eff_hash,
                    },
                );
            },
            _ => {},
        }
        a
    }
}

/// An element-for-element copy of a list of strings.
fn clone_strings(v: &Vec<String>) -> (r: Vec<String>)
    ensures
        r@ == v@,
{
    let mut r: Vec<String> = Vec::new();
    proof {
        assert(r@ =~= v@.take(0));
    }
    let mut i: usize = 0;
    while i < v.len()
        invariant
            i <= v@.len(),
            r@ == v@.take(i as int),
        decreases v@.len() - i,
    {
        r.push(v[i].clone());
        proof {
            assert(r@ =~= v@.take(i + 1));
        }
        i = i + 1;
    }
    proof {
        assert(v@.take(v@.len() as int) =~= v@);
    }
    r
}

/// Capability clamping, end to end: the configured parameter is the
/// operator's cap already clamped to the host's, so the effective cap after
/// the handshake is the minimum of operator cap, host cap and the
/// engine-declared cap — it exceeds none of the three.
pub proof fn lemma_effective_cap_is_min3(op: u32, host: u32, declared: u64)
    ensures
        effective_cap(
            if op <= host {
                op
            } else {
                host
            },
            Some(declared),
        ) == crate::caps::min3(op as int, host as int, declared as int),
{
}

/// Intersect a configured ceiling with a declared one.
fn cap_with(configured: u32, declared: Option<u64>) -> (r: u32)
    ensures
        r == effective_cap(configured, declared),
{
    match declared {
        Some(d) => {
            if d < configured as u64 {
                d as u32
            } else {
                configured
            }
        },
        None => configured,
    }
}

/// The transition function, computed.
pub fn step_exec(p: Phase, e: DriverEvent) -> (r: (Phase, DriverAction))
    ensures
        r == drv_step(p, e),
{
    match (p, e) {
        (Phase::Starting, DriverEvent::Spawned) => (Phase::Handshaking, DriverAction::SendUci),
        (Phase::Starting, DriverEvent::ProcExit) => (Phase::Terminated, DriverAction::ReportFailure),
        (Phase::Starting, _) => (Phase::Starting, DriverAction::Reject),
        (Phase::Handshaking, DriverEvent::LineDeclaration) => (
            Phase::Handshaking,
            DriverAction::Collect,
        ),
        (Phase::Handshaking, DriverEvent::LineUciOk) => (Phase::Idle, DriverAction::SendOptions),
        (Phase::Handshaking, DriverEvent::LineOther) => (Phase::Handshaking, DriverAction::Ignore),
        (Phase::Handshaking, DriverEvent::ProcExit) => (
            Phase::Terminated,
            DriverAction::ReportFailure,
        ),
        (Phase::Handshaking, _) => (Phase::Handshaking, DriverAction::Reject),
        (Phase::Idle, DriverEvent::CmdGo) => (Phase::Thinking, DriverAction::SendGo),
        (Phase::Idle, DriverEvent::CmdStop) => (Phase::Idle, DriverAction::Ignore),
        (Phase::Idle, DriverEvent::LineOther) => (Phase::Idle, DriverAction::Ignore),
        (Phase::Idle, DriverEvent::ProcExit) => (Phase::Terminated, DriverAction::ReportFailure),
        (Phase::Idle, _) => (Phase::Idle, DriverAction::Reject),
        (Phase::Thinking, DriverEvent::LineInfo) => (Phase::Thinking, DriverAction::RelayInfo),
        (Phase::Thinking, DriverEvent::LineBestMove) => (Phase::Idle, DriverAction::ReportBestMove),
        (Phase::Thinking, DriverEvent::CmdStop) => (Phase::Thinking, DriverAction::SendStop),
        (Phase::Thinking, DriverEvent::LineOther) => (Phase::Thinking, DriverAction::Ignore),
        (Phase::Thinking, DriverEvent::ProcExit) => (
            Phase::Terminated,
            DriverAction::ReportFailure,
        ),
        (Phase::Thinking, _) => (Phase::Thinking, DriverAction::Reject),
        (Phase::Terminated, _) => (Phase::Terminated, DriverAction::Reject),
    }
}

/// Classify an already-parsed line as a driver event.
pub fn classify_exec(l: &EngineLine) -> (e: DriverEvent)
    ensures
        e == spec_event_of_line(l@),
{
    match l {
        EngineLine::IdName(_) => DriverEvent::LineDeclaration,
        EngineLine::OptionDecl { .. } => DriverEvent::LineDeclaration,
        EngineLine::UciOk => DriverEvent::LineUciOk,
        EngineLine::ReadyOk => DriverEvent::LineOther,
        EngineLine::Info(_) => DriverEvent::LineInfo,
        EngineLine::BestMove(_) => DriverEvent::LineBestMove,
        EngineLine::Other => DriverEvent::LineOther,
    }
}

/// Stop-before-go ordering: for every sequence of events — every preemption
/// sequence included — between any two analysis directives sent to the
/// engine, the prior directive's best-move line was observed. The driver
/// never has two outstanding unanswered directives.
pub proof fn lemma_stop_before_go(evs: Seq<DriverEvent>, i: int, j: int)
    requires
        0 <= i < j < evs.len(),
        drv_action_at(evs, i) == DriverAction::SendGo,
        drv_action_at(evs, j) == DriverAction::SendGo,
    ensures
        exists|k: int| i < k < j && evs[k] == DriverEvent::LineBestMove,
{
    lemma_go_only_when_settled(drv_at(evs, i), evs[i]);
    lemma_go_only_when_settled(drv_at(evs, j), evs[j]);
    lemma_run_take_step(evs, i);
    lemma_idle_needs_bestmove(evs, i + 1, j);
}

} // verus!
