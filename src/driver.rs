use vstd::prelude::*;
use crate::cursor::{Cursor, byte_offset, bytes_before, line_col, line_start, newlines_before};
use crate::grammar::{Expr, Grammar};
use crate::matcher::{Memo, Outcome, match_expr};
use crate::semantics::{EngineFault, OutcomeV, Token, depth_limit, end_of_input, eval};
use crate::tracker::{TrackV, Tracker, label_views, merge, single_track};

verus! {

broadcast use vstd::string::to_string_from_display_ensures_for_str;

/// How a parse failed to match.
#[derive(Clone, Copy, Debug, PartialEq, Eq, Structural)]
pub enum DiagnosticKind {
    /// The start rule did not match, and the end of the input was not what it
    /// expected farthest.
    UnexpectedInput,
    /// A prefix matched but input is left over where the end of the input was
    /// required, by `EndOfInput` in the grammar or by the caller.
    IncompleteParse,
}

/// Where a parse failed, and what was expected there.
#[derive(Debug)]
pub struct Diagnostic {
    pub kind: DiagnosticKind,
    /// Offset of the farthest failure, in characters.
    pub pos: usize,
    pub expected: Vec<String>,
}

impl Diagnostic {
    /// The 1-based line and column of the failure in `input`, the text parsed.
    pub fn line_col(&self, input: &Vec<char>) -> (r: (usize, usize))
        requires
            self.pos <= input.len(),
            input.len() < usize::MAX,
        ensures
            r.0 == newlines_before(input@, self.pos as int) + 1,
            r.1 == self.pos - line_start(input@, self.pos as int) + 1,
    {
        line_col(input, self.pos)
    }

    /// The byte offset of the failure in the UTF-8 form of `input`, the text parsed.
    pub fn byte_offset(&self, input: &Vec<char>) -> (r: usize)
        requires
            self.pos <= input.len(),
            input.len() <= usize::MAX / 4,
        ensures
            r == bytes_before(input@, self.pos as int),
    {
        byte_offset(input, self.pos)
    }
}

/// Why a parse returned no tree.
#[derive(Debug)]
pub enum ParseError {
    Syntax(Diagnostic),
    Fault(EngineFault),
}

/// A parse tree as a queue of `Start` and `End` tokens in preorder.
#[derive(Debug)]
pub struct ParseTree {
    pub tokens: Vec<Token>,
}

/// The model of a parse result.
pub enum ParseV {
    Tree(Seq<Token>),
    Syntax { kind: DiagnosticKind, pos: int, expected: Seq<Seq<char>> },
    Fault(EngineFault),
}


/// How a failure of the start rule is classed: where the end of the input is among
/// what was expected farthest, a prefix matched and input was left over.
pub open spec fn failure_kind(t: TrackV) -> DiagnosticKind {
    if t.labels.contains(end_of_input()) {
        DiagnosticKind::IncompleteParse
    } else {
        DiagnosticKind::UnexpectedInput
    }
}

pub open spec fn syntax_view(kind: DiagnosticKind, t: TrackV) -> ParseV {
    let p = if t.pos < 0 { 0 } else { t.pos };
    ParseV::Syntax { kind, pos: p, expected: t.labels }
}

pub open spec fn start_ref(g: Grammar) -> Expr {
    Expr::RuleRef(g.spec_rules()[g.spec_start()].name)
}

/// What parsing `input` with `g` gives: the tree of the start rule where it matches,
/// and where `full` holds, only where it matches all of the input. Offsets count
/// characters.
pub open spec fn parse_spec(g: Grammar, input: Seq<char>, full: bool) -> ParseV {
    let limit = depth_limit(g.spec_rules().len() as int, input.len() as int);
    let r = eval(g.spec_rules(), input, start_ref(g), 0, limit as nat, false);
    match r.out {
        OutcomeV::Matched { end, toks } => {
            if !full || end == input.len() {
                ParseV::Tree(toks)
            } else {
                syntax_view(DiagnosticKind::IncompleteParse, merge(r.track, single_track(end, end_of_input())))
            }
        },
        OutcomeV::Failed => syntax_view(failure_kind(r.track), r.track),
        OutcomeV::Faulted(f) => ParseV::Fault(f),
    }
}

pub open spec fn result_view(r: Result<ParseTree, ParseError>) -> ParseV {
    match r {
        Ok(t) => ParseV::Tree(t.tokens@),
        Err(ParseError::Syntax(d)) => ParseV::Syntax {
            kind: d.kind,
            pos: d.pos as int,
            expected: label_views(d.expected@),
        },
        Err(ParseError::Fault(f)) => ParseV::Fault(f),
    }
}

fn diagnostic(kind: DiagnosticKind, input: &Vec<char>, t: Tracker) -> (r: Diagnostic)
    requires
        t@.pos <= input.len(),
    ensures
        result_view(Err(ParseError::Syntax(r))) == syntax_view(kind, t@),
        r.pos <= input.len(),
{
    let p = match t.farthest() {
        Some(p) => p,
        None => 0,
    };
    Diagnostic { kind, pos: p, expected: t.labels() }
}

/// The nesting bound of `depth_limit`, computed.
fn depth_limit_exec(n_rules: usize, len: usize) -> (r: usize)
    ensures
        r == depth_limit(n_rules as int, len as int),
{
    if n_rules == 0 {
        return 2;
    }
    let lp = match len.checked_add(1) {
        Some(x) => x,
        None => {
            proof {
                assert((len + 1) * n_rules + 2 > usize::MAX) by (nonlinear_arith)
                    requires
                        len + 1 > usize::MAX,
                        n_rules >= 1,
                ;
            }
            return usize::MAX;
        },
    };
    let prod = match lp.checked_mul(n_rules) {
        Some(x) => x,
        None => {
            proof {
                assert(lp * n_rules + 2 > usize::MAX) by (nonlinear_arith)
                    requires
                        lp * n_rules > usize::MAX,
                ;
            }
            return usize::MAX;
        },
    };
    match prod.checked_add(2) {
        Some(x) => x,
        None => usize::MAX,
    }
}

/// Parses `input` with `g`; where `full` holds, input left after the start rule is an
/// `IncompleteParse`. `use_memo` false turns the cache off, which changes nothing of
/// the result.
pub fn parse_with(g: &Grammar, input: &Vec<char>, use_memo: bool, full: bool) -> (r: Result<ParseTree, ParseError>)
    requires
        g.wf(),
    ensures
        result_view(r) == parse_spec(*g, input@, full),
        r matches Err(ParseError::Syntax(d)) ==> d.pos <= input.len(),
{
    let mut memo = Memo::new(input.len(), use_memo);
    let start = Expr::RuleRef(g.rules()[g.start()].name.clone());
    let limit = depth_limit_exec(g.rules().len(), input.len());
    proof {
        assert(eval(g.spec_rules(), input@, start, 0, limit as nat, false) == eval(
            g.spec_rules(),
            input@,
            start_ref(*g),
            0,
            limit as nat,
            false,
        ));
    }
    let r = match_expr(g, input, &start, 0, limit, false, &mut memo);
    match r.out {
        Outcome::Matched { end, tokens } => {
            if !full || end == input.len() {
                Ok(ParseTree { tokens })
            } else {
                let t = Tracker::merge(r.track, Tracker::single(end, "end of input".to_string()));
                Err(ParseError::Syntax(diagnostic(DiagnosticKind::IncompleteParse, input, t)))
            }
        },
        Outcome::Failed => {
            let kind = if r.track.expects(&"end of input".to_string()) {
                DiagnosticKind::IncompleteParse
            } else {
                DiagnosticKind::UnexpectedInput
            };
            Err(ParseError::Syntax(diagnostic(kind, input, r.track)))
        },
        Outcome::Faulted(f) => Err(ParseError::Fault(f)),
    }
}

/// Parses the text `input` with `g`: the tree of the start rule where it matches a
/// prefix of the input (a grammar that must reach the end says so with `EndOfInput`),
/// else the diagnostic at the farthest failure, or an engine fault. Offsets count
/// characters.
pub fn parse(g: &Grammar, input: &str) -> (r: Result<ParseTree, ParseError>)
    requires
        g.wf(),
    ensures
        result_view(r) == parse_spec(*g, input@, false),
        r matches Err(ParseError::Syntax(d)) ==> d.pos <= input@.len(),
{
    let cursor = Cursor::new(input);
    parse_with(g, cursor.input(), true, false)
}

/// Parses the text `input` with `g`, where the start rule must consume all of it:
/// input left over is an `IncompleteParse` that expects the end of the input.
pub fn parse_full(g: &Grammar, input: &str) -> (r: Result<ParseTree, ParseError>)
    requires
        g.wf(),
    ensures
        result_view(r) == parse_spec(*g, input@, true),
        r matches Err(ParseError::Syntax(d)) ==> d.pos <= input@.len(),
{
    let cursor = Cursor::new(input);
    parse_with(g, cursor.input(), true, true)
}

} // verus!
