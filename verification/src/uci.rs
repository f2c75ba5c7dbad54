//! The UCI text protocol: classification of engine output lines, including
//! the option declarations the handshake collects, and rendering of the
//! commands the driver sends.

use vstd::prelude::*;
use vstd::string::*;
use crate::text::{
    all_digits, dec_val, digit_val, join_from, parse_u64, spec_join, spec_tokens, tokenize,
    u64_to_dec,
};

verus! {

/// Mathematical form of a classified engine output line.
pub ghost enum EngineLineV {
    /// `id name <name>`: the engine's display name.
    IdName(Seq<char>),
    /// `option name <name> ...`: one declared option, with the `max` bound
    /// if a numeric one follows a `max` token, and any `var` alternatives.
    OptionDecl { name: Seq<char>, max: Option<u64>, vars: Seq<Seq<char>> },
    /// `uciok`: the handshake acknowledgment.
    UciOk,
    /// `readyok`.
    ReadyOk,
    /// `info ...`: a principal-variation/info line, kept whole for relaying.
    Info(Seq<char>),
    /// `bestmove <move> ...`: the line terminating a search.
    BestMove(Seq<char>),
    /// Anything else.
    Other,
}

/// A classified engine output line.
#[derive(Debug, PartialEq, Eq)]
pub enum EngineLine {
    IdName(String),
    OptionDecl { name: String, max: Option<u64>, vars: Vec<String> },
    UciOk,
    ReadyOk,
    Info(String),
    BestMove(String),
    Other,
}

impl View for EngineLine {
    type V = EngineLineV;

    open spec fn view(&self) -> EngineLineV {
        match self {
            EngineLine::IdName(n) => EngineLineV::IdName(n@),
            EngineLine::OptionDecl { name, max, vars } => EngineLineV::OptionDecl {
                name: name@,
                max: *max,
                vars: vars.deep_view(),
            },
            EngineLine::UciOk => EngineLineV::UciOk,
            EngineLine::ReadyOk => EngineLineV::ReadyOk,
            EngineLine::Info(l) => EngineLineV::Info(l@),
            EngineLine::BestMove(m) => EngineLineV::BestMove(m@),
            EngineLine::Other => EngineLineV::Other,
        }
    }
}

/// The first numeric value following a `max` token.
pub open spec fn spec_find_max(ts: Seq<Seq<char>>) -> Option<u64>
    decreases ts.len(),
{
    if ts.len() < 2 {
        None
    } else if ts[0] == "max"@ && ts[1].len() > 0 && all_digits(ts[1]) && dec_val(ts[1])
        <= u64::MAX {
        Some(dec_val(ts[1]) as u64)
    } else {
        spec_find_max(ts.drop_first())
    }
}

/// Every token directly following a `var` token, in order.
pub open spec fn spec_find_vars(ts: Seq<Seq<char>>) -> Seq<Seq<char>>
    decreases ts.len(),
{
    if ts.len() < 2 {
        Seq::empty()
    } else if ts[0] == "var"@ {
        seq![ts[1]] + spec_find_vars(ts.skip(2))
    } else {
        spec_find_vars(ts.skip(1))
    }
}

/// Classification of one engine output line, over its token sequence.
pub open spec fn spec_engine_line(s: Seq<char>) -> EngineLineV {
    let ts = spec_tokens(s);
    if ts.len() >= 2 && ts[0] == "id"@ && ts[1] == "name"@ {
        EngineLineV::IdName(spec_join(ts.skip(2)))
    } else if ts.len() >= 3 && ts[0] == "option"@ && ts[1] == "name"@ {
        EngineLineV::OptionDecl { name: ts[2], max: spec_find_max(ts), vars: spec_find_vars(ts) }
    } else if ts.len() == 1 && ts[0] == "uciok"@ {
        EngineLineV::UciOk
    } else if ts.len() == 1 && ts[0] == "readyok"@ {
        EngineLineV::ReadyOk
    } else if ts.len() >= 1 && ts[0] == "info"@ {
        EngineLineV::Info(s)
    } else if ts.len() >= 2 && ts[0] == "bestmove"@ {
        EngineLineV::BestMove(ts[1])
    } else {
        EngineLineV::Other
    }
}

/// Whether this token equals the given keyword.
pub fn tok_is(t: &String, k: &str) -> (r: bool)
    ensures
        r == (t@ == k@),
{
    let ks = String::from_str(k);
    *t == ks
}

fn find_max(toks: &Vec<String>) -> (r: Option<u64>)
    ensures
        r == spec_find_max(toks.deep_view()),
{
    let ghost full = toks.deep_view();
    proof {
        assert(full.skip(0) =~= full);
    }
    let mut i: usize = 0;
    while i < toks.len()
        invariant
            full == toks.deep_view(),
            full.len() == toks@.len(),
            i <= toks@.len(),
            spec_find_max(full) == spec_find_max(full.skip(i as int)),
        decreases toks@.len() - i,
    {
        proof {
            assert(full.skip(i as int).drop_first() =~= full.skip(i + 1));
        }
        if i + 1 < toks.len() && tok_is(&toks[i], "max") {
            match parse_u64(toks[i + 1].as_str()) {
                Some(v) => {
                    return Some(v);
                },
                None => {},
            }
        }
        i = i + 1;
    }
    None
}

fn find_vars(toks: &Vec<String>) -> (r: Vec<String>)
    ensures
        r.deep_view() == spec_find_vars(toks.deep_view()),
{
    let ghost full = toks.deep_view();
    proof {
        assert(full.skip(0) =~= full);
    }
    let mut r: Vec<String> = Vec::new();
    let mut i: usize = 0;
    while i < toks.len()
        invariant
            full == toks.deep_view(),
            full.len() == toks@.len(),
            i <= toks@.len(),
            spec_find_vars(full) == r.deep_view() + spec_find_vars(full.skip(i as int)),
        decreases toks@.len() - i,
    {
        let ghost pre = r.deep_view();
        if i + 1 < toks.len() && tok_is(&toks[i], "var") {
            let v = toks[i + 1].clone();
            proof {
                assert(v@ == full.skip(i as int)[1]);
            }
            r.push(v);
            proof {
                assert(full.skip(i as int).skip(2) =~= full.skip(i + 2));
                assert(r.deep_view() =~= pre.push(full.skip(i as int)[1]));
                assert(r.deep_view() + spec_find_vars(full.skip(i + 2)) =~= pre + (seq![
                    full.skip(i as int)[1],
                ] + spec_find_vars(full.skip(i as int).skip(2))));
            }
            i = i + 2;
        } else {
            proof {
                assert(full.skip(i as int).skip(1) =~= full.skip(i + 1));
                if i < toks@.len() && full.skip(i as int).len() >= 2 {
                    assert(full.skip(i as int)[0] == full[i as int]);
                }
            }
            i = i + 1;
        }
    }
    r
}

/// Classify one line of engine output.
pub fn parse_engine_line(s: &str) -> (r: EngineLine)
    ensures
        r@ == spec_engine_line(s@),
{
    let toks = tokenize(s);
    let ghost ts = toks.deep_view();
    proof {
        assert(ts.len() == toks@.len());
    }
    if toks.len() >= 2 && tok_is(&toks[0], "id") && tok_is(&toks[1], "name") {
        EngineLine::IdName(join_from(&toks, 2))
    } else if toks.len() >= 3 && tok_is(&toks[0], "option") && tok_is(&toks[1], "name") {
        let name = toks[2].clone();
        let max = find_max(&toks);
        let vars = find_vars(&toks);
        EngineLine::OptionDecl { name, max, vars }
    } else if toks.len() == 1 && tok_is(&toks[0], "uciok") {
        EngineLine::UciOk
    } else if toks.len() == 1 && tok_is(&toks[0], "readyok") {
        EngineLine::ReadyOk
    } else if toks.len() >= 1 && tok_is(&toks[0], "info") {
        EngineLine::Info(String::from_str(s))
    } else if toks.len() >= 2 && tok_is(&toks[0], "bestmove") {
        EngineLine::BestMove(toks[1].clone())
    } else {
        EngineLine::Other
    }
}

/// A digit string denoting exactly `n`, without leading zeroes.
pub open spec fn is_dec_of(s: Seq<char>, n: nat) -> bool {
    &&& s.len() >= 1
    &&& all_digits(s)
    &&& dec_val(s) == n
    &&& (digit_val(s[0]) == 0 ==> s.len() == 1)
}

/// The UCI identification command.
pub fn uci_line() -> (r: String)
    ensures
        r@ == "uci"@,
{
    String::from_str("uci")
}

/// The stop command: the engine must answer with exactly one best-move line.
pub fn stop_line() -> (r: String)
    ensures
        r@ == "stop"@,
{
    String::from_str("stop")
}

/// The search budget an analysis directive carries: the caller's own time,
/// depth or node limit, or none.
#[derive(Clone, Copy, PartialEq, Eq, Structural, Debug)]
pub enum Budget {
    Depth(u64),
    MoveTimeMillis(u64),
    Nodes(u64),
    Infinite,
}

/// The analysis command for a search budget.
pub fn go_line(b: Budget) -> (r: String)
    ensures
        b is Infinite ==> r@ == "go infinite"@,
        b matches Budget::Depth(d) ==> exists|ds: Seq<char>|
            r@ == "go depth "@ + ds && is_dec_of(ds, d as nat),
        b matches Budget::MoveTimeMillis(t) ==> exists|ds: Seq<char>|
            r@ == "go movetime "@ + ds && is_dec_of(ds, t as nat),
        b matches Budget::Nodes(n) ==> exists|ds: Seq<char>|
            r@ == "go nodes "@ + ds && is_dec_of(ds, n as nat),
{
    match b {
        Budget::Infinite => String::from_str("go infinite"),
        Budget::Depth(d) => {
            let mut r = String::from_str("go depth ");
            let ds = u64_to_dec(d);
            r.append(ds.as_str());
            proof {
                assert(r@ =~= "go depth "@ + ds@);
                assert(is_dec_of(ds@, d as nat));
            }
            r
        },
        Budget::MoveTimeMillis(t) => {
            let mut r = String::from_str("go movetime ");
            let ds = u64_to_dec(t);
            r.append(ds.as_str());
            proof {
                assert(r@ =~= "go movetime "@ + ds@);
                assert(is_dec_of(ds@, t as nat));
            }
            r
        },
        Budget::Nodes(n) => {
            let mut r = String::from_str("go nodes ");
            let ds = u64_to_dec(n);
            r.append(ds.as_str());
            proof {
                assert(r@ =~= "go nodes "@ + ds@);
                assert(is_dec_of(ds@, n as nat));
            }
            r
        },
    }
}

/// The position-set command for a position description.
pub fn position_line(payload: &str) -> (r: String)
    ensures
        r@ == "position "@ + payload@,
{
    let mut r = String::from_str("position ");
    r.append(payload);
    r
}

/// An option-set command with a numeric value.
pub fn setoption_num_line(name: &str, value: u64) -> (r: String)
    ensures
        exists|ds: Seq<char>|
            r@ == "setoption name "@ + name@ + " value "@ + ds && is_dec_of(ds, value as nat),
{
    let mut r = String::from_str("setoption name ");
    r.append(name);
    r.append(" value ");
    let ds = u64_to_dec(value);
    r.append(ds.as_str());
    proof {
        assert(r@ =~= "setoption name "@ + name@ + " value "@ + ds@);
        assert(is_dec_of(ds@, value as nat));
    }
    r
}

} // verus!
