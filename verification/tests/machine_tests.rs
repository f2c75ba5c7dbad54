use remote_uci::arbiter::{Arbiter, ArbiterAction, ArbiterEvent};
use remote_uci::caps::EngineParameters;
use remote_uci::driver::{DriverAction, DriverEvent, Phase, Supervisor};
use remote_uci::session::{interpret_acquire, SessionError};
use remote_uci::uci::parse_engine_line;

fn handshaken_supervisor() -> Supervisor {
    let mut sup = Supervisor::new(EngineParameters { max_threads: 8, max_hash: 256 });
    assert_eq!(sup.on_event(DriverEvent::Spawned), DriverAction::SendUci);
    assert_eq!(sup.phase, Phase::Handshaking);
    let lines = [
        "id name Stockfish 16",
        "option name Threads type spin default 1 min 1 max 512",
        "option name Hash type spin default 16 min 1 max 33554432",
        "option name UCI_Variant type combo default chess var chess var atomic",
    ];
    for l in lines {
        assert_eq!(sup.on_line(&parse_engine_line(l)), DriverAction::Collect);
    }
    assert_eq!(sup.on_line(&parse_engine_line("uciok")), DriverAction::SendOptions);
    assert_eq!(sup.phase, Phase::Idle);
    sup
}

#[test]
fn handshake_collects_and_clamps_capabilities() {
    let sup = handshaken_supervisor();
    let caps = sup.capabilities.expect("finalized");
    assert_eq!(caps.name.as_deref(), Some("Stockfish 16"));
    assert_eq!(caps.variants, vec!["chess", "atomic"]);
    // operator cap 8 is below the declared 512
    assert_eq!(caps.max_threads, 8);
    // operator cap 256 is below the declared 33554432
    assert_eq!(caps.max_hash, 256);
}

#[test]
fn handshake_respects_smaller_engine_declaration() {
    let mut sup = Supervisor::new(EngineParameters { max_threads: 64, max_hash: 4096 });
    assert_eq!(sup.on_event(DriverEvent::Spawned), DriverAction::SendUci);
    sup.on_line(&parse_engine_line("option name Threads type spin default 1 min 1 max 4"));
    sup.on_line(&parse_engine_line("option name Hash type spin default 16 min 1 max 1024"));
    assert_eq!(sup.on_line(&parse_engine_line("uciok")), DriverAction::SendOptions);
    let caps = sup.capabilities.expect("finalized");
    assert_eq!(caps.max_threads, 4);
    assert_eq!(caps.max_hash, 1024);
    assert_eq!(caps.name, None);
    assert_eq!(caps.variants, Vec::<String>::new());
}

#[test]
fn engine_startup_failure_is_fatal() {
    let mut sup = Supervisor::new(EngineParameters { max_threads: 1, max_hash: 16 });
    assert_eq!(sup.on_event(DriverEvent::Spawned), DriverAction::SendUci);
    assert_eq!(sup.on_event(DriverEvent::ProcExit), DriverAction::ReportFailure);
    assert_eq!(sup.phase, Phase::Terminated);
    // no recovery: everything afterwards is rejected
    assert_eq!(sup.on_event(DriverEvent::CmdGo), DriverAction::Reject);
    assert_eq!(sup.on_event(DriverEvent::Spawned), DriverAction::Reject);
}

#[test]
fn no_second_directive_before_best_move() {
    let mut sup = handshaken_supervisor();
    assert_eq!(sup.on_event(DriverEvent::CmdGo), DriverAction::SendGo);
    assert_eq!(sup.phase, Phase::Thinking);
    // a further directive while one is outstanding is rejected
    assert_eq!(sup.on_event(DriverEvent::CmdGo), DriverAction::Reject);
    assert_eq!(sup.on_line(&parse_engine_line("info depth 1")), DriverAction::RelayInfo);
    assert_eq!(sup.on_line(&parse_engine_line("bestmove e2e4")), DriverAction::ReportBestMove);
    assert_eq!(sup.phase, Phase::Idle);
    // settled: the next directive may go out
    assert_eq!(sup.on_event(DriverEvent::CmdGo), DriverAction::SendGo);
}

#[test]
fn stop_is_answered_by_best_move() {
    let mut sup = handshaken_supervisor();
    assert_eq!(sup.on_event(DriverEvent::CmdGo), DriverAction::SendGo);
    assert_eq!(sup.on_event(DriverEvent::CmdStop), DriverAction::SendStop);
    assert_eq!(sup.phase, Phase::Thinking);
    assert_eq!(sup.on_line(&parse_engine_line("bestmove a7a8q")), DriverAction::ReportBestMove);
    assert_eq!(sup.phase, Phase::Idle);
    // stop while idle is a harmless no-op
    assert_eq!(sup.on_event(DriverEvent::CmdStop), DriverAction::Ignore);
}

#[test]
fn mutual_exclusion_at_every_step() {
    let mut arb = Arbiter::new();
    assert_eq!(arb.on_event(ArbiterEvent::Acquire(1)), ArbiterAction::Grant(1));
    assert_eq!(arb.holder, Some(1));
    assert_eq!(arb.on_event(ArbiterEvent::GoSubmitted(1)), ArbiterAction::Forward(1));
    // a second session asks: the first still holds, a stop goes out
    assert_eq!(arb.on_event(ArbiterEvent::Acquire(2)), ArbiterAction::SendStop);
    assert_eq!(arb.holder, Some(1));
    assert_eq!(arb.waiter, Some(2));
    // only the holder may submit work
    assert_eq!(arb.on_event(ArbiterEvent::GoSubmitted(2)), ArbiterAction::Reject);
}

#[test]
fn preemption_passes_handle_after_settle() {
    // the scenario: A analyses P1, B arrives before A's best move
    let mut arb = Arbiter::new();
    assert_eq!(arb.on_event(ArbiterEvent::Acquire(1)), ArbiterAction::Grant(1));
    assert_eq!(arb.on_event(ArbiterEvent::GoSubmitted(1)), ArbiterAction::Forward(1));
    assert_eq!(arb.on_event(ArbiterEvent::Acquire(2)), ArbiterAction::SendStop);
    // the engine settles: A's best move is consumed internally, never
    // delivered; the handle passes to B
    assert_eq!(arb.on_event(ArbiterEvent::BestMove), ArbiterAction::Grant(2));
    assert_eq!(arb.holder, Some(2));
    assert_eq!(arb.waiter, None);
    // B's own search runs to completion and its best move is delivered to B
    assert_eq!(arb.on_event(ArbiterEvent::GoSubmitted(2)), ArbiterAction::Forward(2));
    assert_eq!(arb.on_event(ArbiterEvent::BestMove), ArbiterAction::Deliver(2));
}

#[test]
fn disconnect_while_thinking_frees_handle_silently() {
    let mut arb = Arbiter::new();
    assert_eq!(arb.on_event(ArbiterEvent::Acquire(1)), ArbiterAction::Grant(1));
    assert_eq!(arb.on_event(ArbiterEvent::GoSubmitted(1)), ArbiterAction::Forward(1));
    assert_eq!(arb.on_event(ArbiterEvent::Acquire(2)), ArbiterAction::SendStop);
    // the holder's connection drops mid-analysis: stop and drain
    assert_eq!(arb.on_event(ArbiterEvent::Release(1)), ArbiterAction::SendStop);
    assert_eq!(arb.holder, None);
    // the drained best move reaches nobody; the waiter takes over
    assert_eq!(arb.on_event(ArbiterEvent::BestMove), ArbiterAction::Grant(2));
    assert_eq!(arb.holder, Some(2));
}

#[test]
fn disconnect_with_nobody_waiting_just_drains() {
    let mut arb = Arbiter::new();
    assert_eq!(arb.on_event(ArbiterEvent::Acquire(1)), ArbiterAction::Grant(1));
    assert_eq!(arb.on_event(ArbiterEvent::GoSubmitted(1)), ArbiterAction::Forward(1));
    assert_eq!(arb.on_event(ArbiterEvent::Release(1)), ArbiterAction::SendStop);
    assert_eq!(arb.on_event(ArbiterEvent::BestMove), ArbiterAction::Nothing);
    assert_eq!(arb.holder, None);
    // a later acquire succeeds immediately
    assert_eq!(arb.on_event(ArbiterEvent::Acquire(3)), ArbiterAction::Grant(3));
}

#[test]
fn blocked_acquirer_that_disconnects_is_not_leaked() {
    let mut arb = Arbiter::new();
    assert_eq!(arb.on_event(ArbiterEvent::Acquire(1)), ArbiterAction::Grant(1));
    assert_eq!(arb.on_event(ArbiterEvent::GoSubmitted(1)), ArbiterAction::Forward(1));
    assert_eq!(arb.on_event(ArbiterEvent::Acquire(2)), ArbiterAction::SendStop);
    // the blocked waiter goes away before being granted
    assert_eq!(arb.on_event(ArbiterEvent::Release(2)), ArbiterAction::Nothing);
    assert_eq!(arb.waiter, None);
    assert_eq!(arb.on_event(ArbiterEvent::BestMove), ArbiterAction::Deliver(1));
    assert_eq!(arb.holder, Some(1));
}

#[test]
fn engine_death_fails_everyone_without_contact() {
    let mut arb = Arbiter::new();
    assert_eq!(arb.on_event(ArbiterEvent::Acquire(1)), ArbiterAction::Grant(1));
    assert_eq!(arb.on_event(ArbiterEvent::GoSubmitted(1)), ArbiterAction::Forward(1));
    // the subprocess exits mid-analysis
    assert_eq!(arb.on_event(ArbiterEvent::Died), ArbiterAction::FailAll);
    assert_eq!(arb.holder, None);
    assert!(!arb.alive);
    // a fresh connection attempt fails immediately
    assert_eq!(arb.on_event(ArbiterEvent::Acquire(7)), ArbiterAction::Fail(7));
    assert_eq!(arb.holder, None);
}

#[test]
fn acquire_outcomes_as_the_session_sees_them() {
    let mut arb = Arbiter::new();
    let a = arb.on_event(ArbiterEvent::Acquire(1));
    assert_eq!(interpret_acquire(1, a), Ok(true));
    let a = arb.on_event(ArbiterEvent::Acquire(2));
    assert_eq!(interpret_acquire(2, a), Ok(false));
    arb.on_event(ArbiterEvent::Died);
    let a = arb.on_event(ArbiterEvent::Acquire(3));
    assert_eq!(interpret_acquire(3, a), Err(SessionError::EngineUnavailable));
}
