//! The per-connection protocol handler's logic: authentication, parsing of
//! inbound frames into engine directives, and the relaying of engine output
//! back as outbound frames until the best-move line.

use vstd::prelude::*;
use vstd::string::*;
use crate::arbiter::ArbiterAction;
use crate::secret::Secret;
use crate::text::{all_digits, dec_val, spec_join, spec_tokens, tokenize, join_from, parse_u64};
use crate::uci::{spec_engine_line, Budget, EngineLine, EngineLineV, parse_engine_line, tok_is};

verus! {

/// Session-level failures. An authentication failure closes the connection
/// before the arbiter is ever reached; a protocol failure closes the
/// connection with no effect on the engine or other sessions.
#[derive(Clone, Copy, PartialEq, Eq, Structural, Debug)]
pub enum SessionError {
    Authentication,
    Protocol,
    EngineUnavailable,
}

/// Gate a connection on its provided credential. Success exactly when the
/// provided bytes equal the configured secret; the comparison is
/// constant-time over equal-length inputs.
pub fn authenticate(secret: &Secret, provided: &[u8]) -> (r: Result<(), SessionError>)
    ensures
        r is Ok <==> secret.bytes@ == provided@,
        r is Err ==> r.unwrap_err() == SessionError::Authentication,
{
    if secret.verify(provided) {
        Ok(())
    } else {
        Err(SessionError::Authentication)
    }
}

/// Mathematical form of an inbound directive.
pub ghost enum DirectiveV {
    /// Set one engine option.
    SetOption { name: Seq<char>, value: Seq<char> },
    /// Set the position to analyse (the payload after `position`).
    Position(Seq<char>),
    /// Start an analysis under the given search budget.
    Go(Budget),
    /// Stop the current analysis.
    Stop,
}

/// An inbound frame parsed into a directive.
#[derive(Debug, PartialEq, Eq)]
pub enum Directive {
    SetOption { name: String, value: String },
    Position(String),
    Go(Budget),
    Stop,
}

impl View for Directive {
    type V = DirectiveV;

    open spec fn view(&self) -> DirectiveV {
        match self {
            Directive::SetOption { name, value } => DirectiveV::SetOption {
                name: name@,
                value: value@,
            },
            Directive::Position(p) => DirectiveV::Position(p@),
            Directive::Go(b) => DirectiveV::Go(*b),
            Directive::Stop => DirectiveV::Stop,
        }
    }
}

/// A numeric token that fits the budget fields.
pub open spec fn spec_num(t: Seq<char>) -> bool {
    t.len() > 0 && all_digits(t) && dec_val(t) <= u64::MAX
}

/// The frame grammar: which lines parse into which directives. Anything
/// outside this grammar is a protocol error, with no partial application.
pub open spec fn spec_parse_frame(s: Seq<char>) -> Option<DirectiveV> {
    let ts = spec_tokens(s);
    if ts.len() >= 5 && ts[0] == "setoption"@ && ts[1] == "name"@ && ts[3] == "value"@ {
        Some(DirectiveV::SetOption { name: ts[2], value: spec_join(ts.skip(4)) })
    } else if ts.len() >= 2 && ts[0] == "position"@ {
        Some(DirectiveV::Position(spec_join(ts.skip(1))))
    } else if ts.len() == 3 && ts[0] == "go"@ && ts[1] == "depth"@ && spec_num(ts[2]) {
        Some(DirectiveV::Go(Budget::Depth(dec_val(ts[2]) as u64)))
    } else if ts.len() == 3 && ts[0] == "go"@ && ts[1] == "movetime"@ && spec_num(ts[2]) {
        Some(DirectiveV::Go(Budget::MoveTimeMillis(dec_val(ts[2]) as u64)))
    } else if ts.len() == 3 && ts[0] == "go"@ && ts[1] == "nodes"@ && spec_num(ts[2]) {
        Some(DirectiveV::Go(Budget::Nodes(dec_val(ts[2]) as u64)))
    } else if ts.len() == 2 && ts[0] == "go"@ && ts[1] == "infinite"@ {
        Some(DirectiveV::Go(Budget::Infinite))
    } else if ts.len() == 1 && ts[0] == "stop"@ {
        Some(DirectiveV::Stop)
    } else {
        None
    }
}

/// Parse one inbound frame. Succeeds exactly on the frames of the grammar;
/// a malformed frame is a protocol error.
pub fn parse_frame(s: &str) -> (r: Result<Directive, SessionError>)
    ensures
        r is Ok <==> spec_parse_frame(s@) is Some,
        r matches Ok(d) ==> Some(d@) == spec_parse_frame(s@),
        r matches Err(e) ==> e == SessionError::Protocol,
{
    proof {
        reveal_strlit("setoption");
        reveal_strlit("position");
        reveal_strlit("go");
        reveal_strlit("depth");
        reveal_strlit("movetime");
        reveal_strlit("nodes");
        reveal_strlit("infinite");
        reveal_strlit("stop");
    }
    let toks = tokenize(s);
    if toks.len() >= 5 && tok_is(&toks[0], "setoption") && tok_is(&toks[1], "name") && tok_is(
        &toks[3],
        "value",
    ) {
        let name = toks[2].clone();
        let value = join_from(&toks, 4);
        Ok(Directive::SetOption { name, value })
    } else if toks.len() >= 2 && tok_is(&toks[0], "position") {
        Ok(Directive::Position(join_from(&toks, 1)))
    } else if toks.len() == 3 && tok_is(&toks[0], "go") && tok_is(&toks[1], "depth") {
        match parse_u64(toks[2].as_str()) {
            Some(v) => Ok(Directive::Go(Budget::Depth(v))),
            None => Err(SessionError::Protocol),
        }
    } else if toks.len() == 3 && tok_is(&toks[0], "go") && tok_is(&toks[1], "movetime") {
        match parse_u64(toks[2].as_str()) {
            Some(v) => Ok(Directive::Go(Budget::MoveTimeMillis(v))),
            None => Err(SessionError::Protocol),
        }
    } else if toks.len() == 3 && tok_is(&toks[0], "go") && tok_is(&toks[1], "nodes") {
        match parse_u64(toks[2].as_str()) {
            Some(v) => Ok(Directive::Go(Budget::Nodes(v))),
            None => Err(SessionError::Protocol),
        }
    } else if toks.len() == 2 && tok_is(&toks[0], "go") && tok_is(&toks[1], "infinite") {
        Ok(Directive::Go(Budget::Infinite))
    } else if toks.len() == 1 && tok_is(&toks[0], "stop") {
        Ok(Directive::Stop)
    } else {
        Err(SessionError::Protocol)
    }
}

/// What an acquire means for the requesting session: granted now, blocked
/// behind a current holder that is being preempted, or failed for good
/// because the engine is gone — the one failure a session's stream ends
/// with, and the answer every fresh connection gets after the subprocess
/// exit.
pub fn interpret_acquire(sid: u64, a: ArbiterAction) -> (r: Result<bool, SessionError>)
    ensures
        a == ArbiterAction::Grant(sid) ==> r == Ok::<bool, SessionError>(true),
        a == ArbiterAction::Fail(sid) ==> r == Err::<bool, SessionError>(
            SessionError::EngineUnavailable,
        ),
        a != ArbiterAction::Grant(sid) && a != ArbiterAction::Fail(sid) ==> r == Ok::<
            bool,
            SessionError,
        >(false),
{
    match a {
        ArbiterAction::Grant(g) => {
            if g == sid {
                Ok(true)
            } else {
                Ok(false)
            }
        },
        ArbiterAction::Fail(f) => {
            if f == sid {
                Err(SessionError::EngineUnavailable)
            } else {
                Ok(false)
            }
        },
        _ => Ok(false),
    }
}

/// Mathematical form of an outbound frame.
pub ghost enum OutFrameV {
    /// One relayed output line, tagged with the directive it answers.
    Info { work: u64, line: Seq<char> },
    /// The terminating best move, tagged likewise.
    Best { work: u64, mv: Seq<char> },
}

/// An outbound frame: engine output tagged with the originating directive's
/// identifier.
#[derive(Debug, PartialEq, Eq)]
pub enum OutFrame {
    Info { work: u64, line: String },
    Best { work: u64, mv: String },
}

impl View for OutFrame {
    type V = OutFrameV;

    open spec fn view(&self) -> OutFrameV {
        match self {
            OutFrame::Info { work, line } => OutFrameV::Info { work: *work, line: line@ },
            OutFrame::Best { work, mv } => OutFrameV::Best { work: *work, mv: mv@ },
        }
    }
}

impl DeepView for OutFrame {
    type V = OutFrameV;

    open spec fn deep_view(&self) -> OutFrameV {
        self.view()
    }
}

/// This engine output line terminates a search.
pub open spec fn is_best_line(s: Seq<char>) -> bool {
    spec_engine_line(s) is BestMove
}

/// Index of the first best-move line.
pub open spec fn first_best(lv: Seq<Seq<char>>) -> int
    decreases lv.len(),
{
    if lv.len() == 0 {
        0
    } else if is_best_line(lv[0]) {
        0
    } else {
        1 + first_best(lv.drop_first())
    }
}

/// How many frames of a stream are best-move frames.
pub open spec fn count_best(fs: Seq<OutFrameV>) -> int
    decreases fs.len(),
{
    if fs.len() == 0 {
        0int
    } else {
        (if fs[0] is Best {
            1int
        } else {
            0int
        }) + count_best(fs.drop_first())
    }
}

/// What relaying one completed search returns: every output line before the
/// first best-move line, in the exact order the engine emitted them, each
/// tagged with the directive's identifier, then the best move — and nothing
/// after it.
pub open spec fn relay_post(work: u64, lv: Seq<Seq<char>>, fs: Seq<OutFrameV>) -> bool {
    let k = first_best(lv);
    &&& fs.len() == k + 1
    &&& (forall|j: int| 0 <= j < k ==> fs[j] == (OutFrameV::Info { work, line: lv[j] }))
    &&& (spec_engine_line(lv[k]) matches EngineLineV::BestMove(m) && fs[k] == (OutFrameV::Best {
        work,
        mv: m,
    }))
}

proof fn lemma_first_best_at(lv: Seq<Seq<char>>, i: int)
    requires
        0 <= i < lv.len(),
        is_best_line(lv[i]),
        forall|j: int| 0 <= j < i ==> !is_best_line(#[trigger] lv[j]),
    ensures
        first_best(lv) == i,
    decreases i,
{
    if i > 0 {
        lemma_first_best_at(lv.drop_first(), i - 1);
    }
}

/// Relay the output of one search: stream the lines of `lines` (the engine's
/// output for this directive, in emission order) as tagged frames until the
/// first best-move line, which becomes the single terminating best-move
/// frame.
pub fn relay_search(work: u64, lines: &Vec<String>) -> (frames: Vec<OutFrame>)
    requires
        exists|i: int|
            0 <= i < lines.deep_view().len() && is_best_line(#[trigger] lines.deep_view()[i]),
    ensures
        relay_post(work, lines.deep_view(), frames.deep_view()),
        count_best(frames.deep_view()) == 1,
{
    let ghost lv = lines.deep_view();
    let mut frames: Vec<OutFrame> = Vec::new();
    let mut i: usize = 0;
    loop
        invariant
            lv == lines.deep_view(),
            lv.len() == lines@.len(),
            i <= lv.len(),
            exists|t: int| i <= t < lv.len() && is_best_line(#[trigger] lv[t]),
            forall|j: int| 0 <= j < i ==> !is_best_line(#[trigger] lv[j]),
            frames.deep_view().len() == i,
            forall|j: int|
                0 <= j < i ==> frames.deep_view()[j] == (OutFrameV::Info { work, line: lv[j] }),
        decreases lv.len() - i,
    {
        let n = lines.len();
        proof {
            let t = choose|t: int| i <= t < lv.len() && is_best_line(#[trigger] lv[t]);
            assert(i < n);
        }
        let line = &lines[i];
        let parsed = parse_engine_line(line.as_str());
        match parsed {
            EngineLine::BestMove(m) => {
                let ghost pre = frames.deep_view();
                frames.push(OutFrame::Best { work, mv: m });
                proof {
                    lemma_first_best_at(lv, i as int);
                    assert(frames.deep_view() =~= pre.push(
                        OutFrameV::Best { work, mv: spec_engine_line(lv[i as int])->BestMove_0 },
                    ));
                    lemma_count_one(frames.deep_view());
                }
                return frames;
            },
            _ => {
                let ghost pre = frames.deep_view();
                frames.push(OutFrame::Info { work, line: line.clone() });
                proof {
                    assert(frames.deep_view() =~= pre.push(
                        OutFrameV::Info { work, line: lv[i as int] },
                    ));
                    let t = choose|t: int| i <= t < lv.len() && is_best_line(#[trigger] lv[t]);
                    assert(t != i);
                    assert(i + 1 <= t < lv.len() && is_best_line(lv[t]));
                }
                i = i + 1;
            },
        }
    }
}

/// A stream whose last frame alone is a best-move frame holds exactly one.
proof fn lemma_count_one(fs: Seq<OutFrameV>)
    requires
        fs.len() >= 1,
        fs.last() is Best,
        forall|j: int| 0 <= j < fs.len() - 1 ==> !(#[trigger] fs[j] is Best),
    ensures
        count_best(fs) == 1,
    decreases fs.len(),
{
    assert(count_best(fs) == (if fs[0] is Best {
        1int
    } else {
        0int
    }) + count_best(fs.drop_first()));
    if fs.len() == 1 {
        assert(fs[0] == fs.last());
        assert(fs.drop_first() =~= Seq::<OutFrameV>::empty());
        assert(count_best(fs.drop_first()) == 0);
    } else {
        assert(!(fs[0] is Best));
        assert(fs.drop_first().last() == fs.last());
        assert forall|j: int| 0 <= j < fs.drop_first().len() - 1 implies !(#[trigger] fs.drop_first()[j]
            is Best) by {
            assert(fs.drop_first()[j] == fs[j + 1]);
        }
        lemma_count_one(fs.drop_first());
    }
}

/// Determinism of the stream: the frames a completed search yields are a
/// function of the directive's identifier and the engine's output lines
/// alone. With a deterministic engine — the same position and budget giving
/// the same output lines — re-submitting an identical directive therefore
/// yields the identical stream, ending in the same best move.
pub proof fn lemma_same_search_same_stream(
    work: u64,
    lv: Seq<Seq<char>>,
    fs1: Seq<OutFrameV>,
    fs2: Seq<OutFrameV>,
)
    requires
        relay_post(work, lv, fs1),
        relay_post(work, lv, fs2),
    ensures
        fs1 == fs2,
{
    assert(fs1 =~= fs2);
}

} // verus!
