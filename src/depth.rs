use vstd::prelude::*;
use crate::grammar::{Expr, Rule};
use crate::semantics::{EngineFault, OutcomeV, eval, eval_skip, eval_star};

verus! {

pub open spec fn hit_depth_limit(o: OutcomeV) -> bool {
    o == OutcomeV::Faulted(EngineFault::DepthExceeded)
}

/// More depth changes nothing of an evaluation that did not reach the depth limit.
pub proof fn eval_depth_irrelevant(
    rules: Seq<Rule>,
    input: Seq<char>,
    e: Expr,
    pos: int,
    f1: nat,
    f2: nat,
    at: bool,
)
    requires
        f1 <= f2,
        !hit_depth_limit(eval(rules, input, e, pos, f1, at).out),
    ensures
        eval(rules, input, e, pos, f2, at) == eval(rules, input, e, pos, f1, at),
    decreases f1, e, 2int, 0int,
{
    match e {
        Expr::RuleRef(n) => {
            if crate::grammar::has_rule(rules, n@) && f1 > 0 {
                let k = crate::grammar::rule_index(rules, n@);
                let rule = rules[k];
                let r = eval(rules, input, rule.expr, pos, (f1 - 1) as nat, at || rule.atomic);
                if !hit_depth_limit(r.out) {
                    eval_depth_irrelevant(rules, input, rule.expr, pos, (f1 - 1) as nat, (f2 - 1) as nat, at || rule.atomic);
                }
            }
        },
        Expr::Sequence(a, b) => {
            let r = eval(rules, input, *a, pos, f1, at);
            if !hit_depth_limit(r.out) {
                eval_depth_irrelevant(rules, input, *a, pos, f1, f2, at);
                if let OutcomeV::Matched { end, toks } = r.out {
                    let s = if at {
                        crate::semantics::matched(end, seq![], crate::tracker::no_track())
                    } else {
                        eval_skip(rules, input, e, end, f1)
                    };
                    if !at && !hit_depth_limit(s.out) {
                        skip_depth_irrelevant(rules, input, e, end, f1, f2);
                    }
                    if let OutcomeV::Matched { end: p1, .. } = s.out {
                        if !hit_depth_limit(eval(rules, input, *b, p1, f1, at).out) {
                            eval_depth_irrelevant(rules, input, *b, p1, f1, f2, at);
                        }
                    }
                }
            }
        },
        Expr::Choice(a, b) => {
            let r = eval(rules, input, *a, pos, f1, at);
            if !hit_depth_limit(r.out) {
                eval_depth_irrelevant(rules, input, *a, pos, f1, f2, at);
                if !hit_depth_limit(eval(rules, input, *b, pos, f1, at).out) {
                    eval_depth_irrelevant(rules, input, *b, pos, f1, f2, at);
                }
            }
        },
        Expr::ZeroOrMore(b) | Expr::OneOrMore(b) => {
            let r = eval(rules, input, *b, pos, f1, at);
            if !hit_depth_limit(r.out) {
                eval_depth_irrelevant(rules, input, *b, pos, f1, f2, at);
                if let OutcomeV::Matched { end, toks } = r.out {
                    if end > pos && end <= input.len() && !hit_depth_limit(
                        eval_star(rules, input, e, end, f1, at).out,
                    ) {
                        star_depth_irrelevant(rules, input, e, end, f1, f2, at);
                    }
                }
            }
        },
        Expr::Optional(b) | Expr::PositiveLookahead(b) | Expr::NegativeLookahead(b) => {
            if !hit_depth_limit(eval(rules, input, *b, pos, f1, at).out) {
                eval_depth_irrelevant(rules, input, *b, pos, f1, f2, at);
            }
        },
        _ => {},
    }
}

proof fn star_depth_irrelevant(
    rules: Seq<Rule>,
    input: Seq<char>,
    e: Expr,
    pos: int,
    f1: nat,
    f2: nat,
    at: bool,
)
    requires
        f1 <= f2,
        !hit_depth_limit(eval_star(rules, input, e, pos, f1, at).out),
    ensures
        eval_star(rules, input, e, pos, f2, at) == eval_star(rules, input, e, pos, f1, at),
    decreases f1, e, 1int, input.len() - pos,
{
    match e {
        Expr::ZeroOrMore(b) | Expr::OneOrMore(b) => {
            let s = if at {
                crate::semantics::matched(pos, seq![], crate::tracker::no_track())
            } else {
                eval_skip(rules, input, e, pos, f1)
            };
            if !at && !hit_depth_limit(s.out) {
                skip_depth_irrelevant(rules, input, e, pos, f1, f2);
            }
            if let OutcomeV::Matched { end: p1, .. } = s.out {
                let r = eval(rules, input, *b, p1, f1, at);
                if !hit_depth_limit(r.out) {
                    eval_depth_irrelevant(rules, input, *b, p1, f1, f2, at);
                    if let OutcomeV::Matched { end, toks } = r.out {
                        if end > pos && end <= input.len() && !hit_depth_limit(
                            eval_star(rules, input, e, end, f1, at).out,
                        ) {
                            star_depth_irrelevant(rules, input, e, end, f1, f2, at);
                        }
                    }
                }
            }
        },
        _ => {},
    }
}

proof fn skip_depth_irrelevant(
    rules: Seq<Rule>,
    input: Seq<char>,
    e: Expr,
    pos: int,
    f1: nat,
    f2: nat,
)
    requires
        f1 <= f2,
        !hit_depth_limit(eval_skip(rules, input, e, pos, f1).out),
    ensures
        eval_skip(rules, input, e, pos, f2) == eval_skip(rules, input, e, pos, f1),
    decreases f1, e, 0int, input.len() - pos,
{
    if crate::grammar::has_rule(rules, crate::grammar::skip_name()) && f1 > 0 {
        let k = crate::grammar::rule_index(rules, crate::grammar::skip_name());
        let ws = Expr::RuleRef(rules[k].name);
        let r = eval(rules, input, ws, pos, (f1 - 1) as nat, true);
        if !hit_depth_limit(r.out) {
            eval_depth_irrelevant(rules, input, ws, pos, (f1 - 1) as nat, (f2 - 1) as nat, true);
            if let OutcomeV::Matched { end, .. } = r.out {
                if end > pos && end <= input.len() && !hit_depth_limit(
                    eval_skip(rules, input, e, end, f1).out,
                ) {
                    skip_depth_irrelevant(rules, input, e, end, f1, f2);
                }
            }
        }
    }
}

} // verus!
