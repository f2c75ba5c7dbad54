use remote_uci::uci::{go_line, parse_engine_line, position_line, setoption_num_line, stop_line,
    uci_line, Budget, EngineLine};

#[test]
fn handshake_lines_classify() {
    assert_eq!(parse_engine_line("uciok"), EngineLine::UciOk);
    assert_eq!(parse_engine_line("readyok"), EngineLine::ReadyOk);
    assert_eq!(
        parse_engine_line("id name Stockfish 16"),
        EngineLine::IdName("Stockfish 16".to_string())
    );
}

#[test]
fn option_declaration_collects_max() {
    let l = parse_engine_line("option name Threads type spin default 1 min 1 max 512");
    assert_eq!(
        l,
        EngineLine::OptionDecl { name: "Threads".to_string(), max: Some(512), vars: Vec::new() }
    );
    let l = parse_engine_line("option name Hash type spin default 16 min 1 max 33554432");
    assert_eq!(
        l,
        EngineLine::OptionDecl { name: "Hash".to_string(), max: Some(33554432), vars: Vec::new() }
    );
}

#[test]
fn option_declaration_collects_variants() {
    let l = parse_engine_line(
        "option name UCI_Variant type combo default chess var chess var atomic var crazyhouse",
    );
    match l {
        EngineLine::OptionDecl { name, max, vars } => {
            assert_eq!(name, "UCI_Variant");
            assert_eq!(max, None);
            assert_eq!(vars, vec!["chess", "atomic", "crazyhouse"]);
        }
        other => panic!("wrong classification: {:?}", other),
    }
}

#[test]
fn search_lines_classify() {
    assert_eq!(
        parse_engine_line("info depth 10 score cp 31 pv e2e4 e7e5"),
        EngineLine::Info("info depth 10 score cp 31 pv e2e4 e7e5".to_string())
    );
    assert_eq!(
        parse_engine_line("bestmove e2e4 ponder e7e5"),
        EngineLine::BestMove("e2e4".to_string())
    );
    assert_eq!(parse_engine_line("bestmove (none)"), EngineLine::BestMove("(none)".to_string()));
    assert_eq!(parse_engine_line("Stockfish 16 by the Stockfish developers"), EngineLine::Other);
    assert_eq!(parse_engine_line(""), EngineLine::Other);
    assert_eq!(parse_engine_line("bestmove"), EngineLine::Other);
}

#[test]
fn commands_render_exactly() {
    assert_eq!(uci_line(), "uci");
    assert_eq!(stop_line(), "stop");
    assert_eq!(position_line("startpos moves e2e4"), "position startpos moves e2e4");
    assert_eq!(setoption_num_line("Threads", 8), "setoption name Threads value 8");
    assert_eq!(setoption_num_line("Hash", 448), "setoption name Hash value 448");
    assert_eq!(go_line(Budget::Depth(10)), "go depth 10");
    assert_eq!(go_line(Budget::MoveTimeMillis(5000)), "go movetime 5000");
    assert_eq!(go_line(Budget::Nodes(1000000)), "go nodes 1000000");
    assert_eq!(go_line(Budget::Infinite), "go infinite");
}
