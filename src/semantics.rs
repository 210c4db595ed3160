use vstd::prelude::*;
use crate::grammar::{Expr, Rule, has_rule, rule_index, skip_name};
use crate::tracker::{TrackV, merge, no_track, single_track};

verus! {

/// How far rule references may nest in a parse of `len` characters with `n_rules`
/// rules. A deeper chain holds some rule twice at one position, which is left
/// recursion; the bound is capped to what a `usize` holds.
pub open spec fn depth_limit(n_rules: int, len: int) -> int {
    let d = (len + 1) * n_rules + 2;
    if d <= usize::MAX {
        d
    } else {
        usize::MAX as int
    }
}

/// The label recorded where the end of the input was expected.
pub open spec fn end_of_input() -> Seq<char> {
    "end of input"@
}

/// One event of a parse tree in preorder, as a flat token queue: a node of rule
/// `rule` opens at `Start` and closes at `End`.
#[derive(Clone, Copy, Debug, PartialEq, Eq, Structural)]
pub enum Token {
    Start { rule: usize, pos: usize },
    End { rule: usize, pos: usize },
}

/// A fault of the engine, kept apart from ordinary failures to match.
#[derive(Clone, Copy, Debug, PartialEq, Eq, Structural)]
pub enum EngineFault {
    /// Rule references nested deeper than the limit (as left recursion does).
    DepthExceeded,
    /// A repetition whose body matched without consuming input.
    EmptyRepetition,
}

/// The model of what matching an expression at a position gives.
pub enum OutcomeV {
    Matched { end: int, toks: Seq<Token> },
    Failed,
    Faulted(EngineFault),
}

/// An outcome together with the failures it recorded.
pub struct Eval {
    pub out: OutcomeV,
    pub track: TrackV,
}

pub open spec fn matched(end: int, toks: Seq<Token>, track: TrackV) -> Eval {
    Eval { out: OutcomeV::Matched { end, toks }, track }
}

pub open spec fn failed(track: TrackV) -> Eval {
    Eval { out: OutcomeV::Failed, track }
}

pub open spec fn in_class(ranges: Seq<(char, char)>, c: char) -> bool {
    exists|i: int| 0 <= i < ranges.len() && #[trigger] ranges[i].0 <= c && c <= ranges[i].1
}

pub open spec fn range_label(r: (char, char)) -> Seq<char> {
    seq!['\'', r.0, '\'', '.', '.', '\'', r.1, '\'']
}

/// The expectation label of a character class: its first `k` ranges, joined by " | ".
pub open spec fn class_label_upto(ranges: Seq<(char, char)>, k: nat) -> Seq<char>
    decreases k,
{
    if k == 0 || k > ranges.len() {
        seq![]
    } else if k == 1 {
        range_label(ranges[0])
    } else {
        class_label_upto(ranges, (k - 1) as nat) + seq![' ', '|', ' '] + range_label(ranges[k - 1])
    }
}

pub open spec fn class_label(ranges: Seq<(char, char)>) -> Seq<char> {
    class_label_upto(ranges, ranges.len())
}

/// The tokens that a successful match of rule `k` from `pos` to `end` contributes.
pub open spec fn wrap(k: int, rule: Rule, pos: int, end: int, toks: Seq<Token>, at: bool) -> Seq<Token> {
    if at || rule.silent {
        seq![]
    } else if rule.transparent {
        toks
    } else {
        seq![Token::Start { rule: k as usize, pos: pos as usize }] + toks + seq![
            Token::End { rule: k as usize, pos: end as usize },
        ]
    }
}

/// Appends `toks` in front of what a following match gave.
pub open spec fn then_out(toks: Seq<Token>, o: OutcomeV) -> OutcomeV {
    match o {
        OutcomeV::Matched { end, toks: t2 } => OutcomeV::Matched { end, toks: toks + t2 },
        _ => o,
    }
}

/// What matching `e` at `pos` of `input` gives, with `fuel` rule references left to
/// nest and `at` telling whether an atomic rule encloses it.
///
/// Literals and classes record themselves where they fail. A rule that fails records
/// its own name at its start, in place of what failed inside it no farther than that;
/// failures farther on are kept. Faults pass through every combinator unchanged.
pub open spec fn eval(rules: Seq<Rule>, input: Seq<char>, e: Expr, pos: int, fuel: nat, at: bool) -> Eval
    decreases fuel, e, 2int, 0int,
{
    match e {
        Expr::Literal(l) => {
            if pos + l@.len() <= input.len() && input.subrange(pos, pos + l@.len()) == l@ {
                matched(pos + l@.len(), seq![], no_track())
            } else {
                failed(single_track(pos, l@))
            }
        },
        Expr::CharClass(rs) => {
            if pos < input.len() && in_class(rs@, input[pos]) {
                matched(pos + 1, seq![], no_track())
            } else {
                failed(single_track(pos, class_label(rs@)))
            }
        },
        Expr::EndOfInput => {
            if pos == input.len() {
                matched(pos, seq![], no_track())
            } else {
                failed(single_track(pos, end_of_input()))
            }
        },
        Expr::RuleRef(n) => {
            if !has_rule(rules, n@) {
                failed(no_track())
            } else if fuel == 0 {
                Eval { out: OutcomeV::Faulted(EngineFault::DepthExceeded), track: no_track() }
            } else {
                let k = rule_index(rules, n@);
                let rule = rules[k];
                let r = eval(rules, input, rule.expr, pos, (fuel - 1) as nat, at || rule.atomic);
                match r.out {
                    OutcomeV::Matched { end, toks } => matched(end, wrap(k, rule, pos, end, toks, at), r.track),
                    OutcomeV::Failed => failed(
                        if r.track.pos > pos {
                            r.track
                        } else {
                            single_track(pos, n@)
                        },
                    ),
                    OutcomeV::Faulted(_) => r,
                }
            }
        },
        Expr::Sequence(a, b) => {
            let r = eval(rules, input, *a, pos, fuel, at);
            match r.out {
                OutcomeV::Matched { end, toks } => {
                    let s = if at {
                        matched(end, seq![], no_track())
                    } else {
                        eval_skip(rules, input, e, end, fuel)
                    };
                    match s.out {
                        OutcomeV::Matched { end: p1, .. } => {
                            let r2 = eval(rules, input, *b, p1, fuel, at);
                            Eval { out: then_out(toks, r2.out), track: merge(r.track, r2.track) }
                        },
                        _ => Eval { out: s.out, track: r.track },
                    }
                },
                _ => r,
            }
        },
        Expr::Choice(a, b) => {
            let r = eval(rules, input, *a, pos, fuel, at);
            match r.out {
                OutcomeV::Failed => {
                    let r2 = eval(rules, input, *b, pos, fuel, at);
                    Eval { out: r2.out, track: merge(r.track, r2.track) }
                },
                _ => r,
            }
        },
        Expr::ZeroOrMore(b) => {
            let r = eval(rules, input, *b, pos, fuel, at);
            match r.out {
                OutcomeV::Matched { end, toks } => {
                    if end <= pos || end > input.len() {
                        Eval { out: OutcomeV::Faulted(EngineFault::EmptyRepetition), track: r.track }
                    } else {
                        let r2 = eval_star(rules, input, e, end, fuel, at);
                        Eval { out: then_out(toks, r2.out), track: merge(r.track, r2.track) }
                    }
                },
                OutcomeV::Failed => matched(pos, seq![], r.track),
                _ => r,
            }
        },
        Expr::OneOrMore(b) => {
            let r = eval(rules, input, *b, pos, fuel, at);
            match r.out {
                OutcomeV::Matched { end, toks } => {
                    if end <= pos || end > input.len() {
                        Eval { out: OutcomeV::Faulted(EngineFault::EmptyRepetition), track: r.track }
                    } else {
                        let r2 = eval_star(rules, input, e, end, fuel, at);
                        Eval { out: then_out(toks, r2.out), track: merge(r.track, r2.track) }
                    }
                },
                _ => r,
            }
        },
        Expr::Optional(b) => {
            let r = eval(rules, input, *b, pos, fuel, at);
            match r.out {
                OutcomeV::Failed => matched(pos, seq![], r.track),
                _ => r,
            }
        },
        Expr::PositiveLookahead(b) => {
            let r = eval(rules, input, *b, pos, fuel, at);
            match r.out {
                OutcomeV::Matched { .. } => matched(pos, seq![], r.track),
                _ => r,
            }
        },
        Expr::NegativeLookahead(b) => {
            let r = eval(rules, input, *b, pos, fuel, at);
            match r.out {
                OutcomeV::Matched { .. } => failed(no_track()),
                OutcomeV::Failed => matched(pos, seq![], no_track()),
                _ => r,
            }
        },
    }
}

/// The further repetitions of the body of `e` from `pos`, each preceded by implicit
/// skipping outside atomic rules, for as long as they match.
pub open spec fn eval_star(rules: Seq<Rule>, input: Seq<char>, e: Expr, pos: int, fuel: nat, at: bool) -> Eval
    decreases fuel, e, 1int, input.len() - pos,
{
    match e {
        Expr::ZeroOrMore(b) | Expr::OneOrMore(b) => {
            let s = if at {
                matched(pos, seq![], no_track())
            } else {
                eval_skip(rules, input, e, pos, fuel)
            };
            match s.out {
                OutcomeV::Matched { end: p1, .. } => {
                    let r = eval(rules, input, *b, p1, fuel, at);
                    match r.out {
                        OutcomeV::Matched { end, toks } => {
                            if end <= pos || end > input.len() {
                                Eval { out: OutcomeV::Faulted(EngineFault::EmptyRepetition), track: r.track }
                            } else {
                                let r2 = eval_star(rules, input, e, end, fuel, at);
                                Eval { out: then_out(toks, r2.out), track: merge(r.track, r2.track) }
                            }
                        },
                        OutcomeV::Failed => matched(pos, seq![], r.track),
                        _ => r,
                    }
                },
                _ => s,
            }
        },
        _ => failed(no_track()),
    }
}

/// Implicit skipping from `pos`: the rule named `skip_name()`, matched as an atomic
/// rule, as often as it consumes input. It yields no tokens and records no failure;
/// `e` only bounds the recursion.
pub open spec fn eval_skip(rules: Seq<Rule>, input: Seq<char>, e: Expr, pos: int, fuel: nat) -> Eval
    decreases fuel, e, 0int, input.len() - pos,
{
    if !has_rule(rules, skip_name()) {
        matched(pos, seq![], no_track())
    } else if fuel == 0 {
        Eval { out: OutcomeV::Faulted(EngineFault::DepthExceeded), track: no_track() }
    } else {
        let k = rule_index(rules, skip_name());
        let r = eval(rules, input, Expr::RuleRef(rules[k].name), pos, (fuel - 1) as nat, true);
        match r.out {
            OutcomeV::Matched { end, .. } => {
                if end > pos && end <= input.len() {
                    eval_skip(rules, input, e, end, fuel)
                } else {
                    matched(pos, seq![], no_track())
                }
            },
            OutcomeV::Failed => matched(pos, seq![], no_track()),
            OutcomeV::Faulted(f) => Eval { out: OutcomeV::Faulted(f), track: no_track() },
        }
    }
}

} // verus!
