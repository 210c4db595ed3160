use vstd::prelude::*;
use crate::grammar::{Expr, Grammar, Rule, has_rule, names_unique, rule_index};
use crate::driver::{ParseV, parse_spec};
use crate::semantics::{OutcomeV, Token, depth_limit, eval, eval_skip, eval_star, wrap};

verus! {

/// Ordered choice: where `a` matches, `a / b` gives exactly what `a` gives, whatever
/// `b` would have matched.
pub proof fn choice_prefers_first(
    rules: Seq<Rule>,
    input: Seq<char>,
    a: Expr,
    b: Expr,
    pos: int,
    fuel: nat,
    at: bool,
)
    requires
        eval(rules, input, a, pos, fuel, at).out is Matched,
    ensures
        eval(rules, input, Expr::Choice(Box::new(a), Box::new(b)), pos, fuel, at) == eval(
            rules,
            input,
            a,
            pos,
            fuel,
            at,
        ),
{
}

/// Lookahead, positive or negative, never advances and never yields a tree node.
pub proof fn lookahead_is_zero_width(
    rules: Seq<Rule>,
    input: Seq<char>,
    e: Expr,
    pos: int,
    fuel: nat,
    at: bool,
)
    ensures
        eval(rules, input, Expr::PositiveLookahead(Box::new(e)), pos, fuel, at).out matches
            OutcomeV::Matched { end, toks } ==> end == pos && toks.len() == 0,
        eval(rules, input, Expr::NegativeLookahead(Box::new(e)), pos, fuel, at).out matches
            OutcomeV::Matched { end, toks } ==> end == pos && toks.len() == 0,
{
}

/// After `e*` stops, no further repetition could match: where the body, tried
/// again, must follow implicit skipping (outside atomic rules, after at least one
/// repetition), it fails after the skip; otherwise it fails right where `e*` ended.
pub open spec fn stops_for_good(rules: Seq<Rule>, input: Seq<char>, z: Expr, e: Expr, end: int, fuel: nat, at: bool) -> bool {
    if at {
        eval(rules, input, e, end, fuel, at).out is Failed
    } else {
        eval_skip(rules, input, z, end, fuel).out matches OutcomeV::Matched { end: p1, .. }
            && eval(rules, input, e, p1, fuel, at).out is Failed
    }
}

/// Greedy repetition: where `e*` matches from `pos` up to `end`, the body matched no
/// more: either nothing matched at `pos`, or a further repetition fails at `end`.
pub proof fn repetition_is_greedy(
    rules: Seq<Rule>,
    input: Seq<char>,
    e: Expr,
    pos: int,
    fuel: nat,
    at: bool,
)
    ensures
        eval(rules, input, Expr::ZeroOrMore(Box::new(e)), pos, fuel, at).out matches
            OutcomeV::Matched { end, .. } ==> (end == pos && eval(rules, input, e, pos, fuel, at).out is Failed)
            || stops_for_good(rules, input, Expr::ZeroOrMore(Box::new(e)), e, end, fuel, at),
{
    let z = Expr::ZeroOrMore(Box::new(e));
    let r = eval(rules, input, e, pos, fuel, at);
    if let OutcomeV::Matched { end, toks } = r.out {
        if end > pos && end <= input.len() {
            star_stops_for_good(rules, input, z, e, end, fuel, at);
        }
    }
}

proof fn star_stops_for_good(
    rules: Seq<Rule>,
    input: Seq<char>,
    z: Expr,
    e: Expr,
    pos: int,
    fuel: nat,
    at: bool,
)
    requires
        z == Expr::ZeroOrMore(Box::new(e)),
    ensures
        eval_star(rules, input, z, pos, fuel, at).out matches OutcomeV::Matched { end, .. }
            ==> stops_for_good(rules, input, z, e, end, fuel, at),
    decreases input.len() - pos,
{
    let s = if at {
        crate::semantics::matched(pos, seq![], crate::tracker::no_track())
    } else {
        eval_skip(rules, input, z, pos, fuel)
    };
    if let OutcomeV::Matched { end: p1, .. } = s.out {
        let r = eval(rules, input, e, p1, fuel, at);
        if let OutcomeV::Matched { end, toks } = r.out {
            if end > pos && end <= input.len() {
                star_stops_for_good(rules, input, z, e, end, fuel, at);
            }
        }
    }
}

/// Ordered choice at the level of a rule `R = a / b`: where `a` matches, `R` yields
/// exactly `a`'s match; for a plain rule (not silent, atomic or transparent, outside
/// atomic rules) that is one node of `R` over `a`'s span holding `a`'s tokens.
pub proof fn rule_choice_prefers_first(
    rules: Seq<Rule>,
    input: Seq<char>,
    name: String,
    a: Expr,
    b: Expr,
    pos: int,
    fuel: nat,
    at: bool,
)
    requires
        has_rule(rules, name@),
        rules[rule_index(rules, name@)].expr == Expr::Choice(Box::new(a), Box::new(b)),
        fuel > 0,
        eval(rules, input, a, pos, (fuel - 1) as nat, at || rules[rule_index(rules, name@)].atomic).out is Matched,
    ensures
        ({
            let k = rule_index(rules, name@);
            let ra = eval(rules, input, a, pos, (fuel - 1) as nat, at || rules[k].atomic).out;
            let r = eval(rules, input, Expr::RuleRef(name), pos, fuel, at).out;
            &&& r == OutcomeV::Matched { end: ra->end, toks: wrap(k, rules[k], pos, ra->end, ra->toks, at) }
            &&& (!at && !rules[k].silent && !rules[k].transparent && !rules[k].atomic) ==> r
                == OutcomeV::Matched {
                end: ra->end,
                toks: seq![Token::Start { rule: k as usize, pos: pos as usize }] + ra->toks + seq![
                    Token::End { rule: k as usize, pos: ra->end as usize },
                ],
            }
        }),
{
    let k = rule_index(rules, name@);
    choice_prefers_first(rules, input, a, b, pos, (fuel - 1) as nat, at || rules[k].atomic);
}

/// A start rule that is a positive lookahead, with the end of the input not required,
/// parses where its expression matches at the start, into one empty node.
pub proof fn lookahead_start_rule_parses_empty(g: Grammar, input: Seq<char>, e: Expr)
    requires
        g.wf(),
        g.spec_rules()[g.spec_start()].expr == Expr::PositiveLookahead(Box::new(e)),
        !g.spec_rules()[g.spec_start()].silent,
        !g.spec_rules()[g.spec_start()].transparent,
        eval(
            g.spec_rules(),
            input,
            e,
            0,
            (depth_limit(g.spec_rules().len() as int, input.len() as int) - 1) as nat,
            g.spec_rules()[g.spec_start()].atomic,
        ).out is Matched,
    ensures
        parse_spec(g, input, false) == ParseV::Tree(
            seq![
                Token::Start { rule: g.spec_start() as usize, pos: 0 },
                Token::End { rule: g.spec_start() as usize, pos: 0 },
            ],
        ),
{
    let rules = g.spec_rules();
    let s = g.spec_start();
    let n = rules[s].name@;
    assert(has_rule(rules, n));
    let c = rule_index(rules, n);
    assert(c == s) by {
        assert(rules[c].name@ == n);
        if c < s {
            assert(rules[c].name@ != rules[s].name@);
        } else if s < c {
            assert(rules[s].name@ != rules[c].name@);
        }
    }
    let limit = depth_limit(rules.len() as int, input.len() as int);
    assert(limit >= 2);
    let at = false || rules[s].atomic;
    let inner = eval(rules, input, rules[s].expr, 0, (limit - 1) as nat, at);
    assert(inner.out == OutcomeV::Matched { end: 0, toks: Seq::<Token>::empty() });
    let top = eval(rules, input, crate::driver::start_ref(g), 0, limit as nat, false);
    assert(top.out == OutcomeV::Matched { end: 0, toks: wrap(s, rules[s], 0, 0, Seq::<Token>::empty(), false) });
    assert(seq![Token::Start { rule: s as usize, pos: 0 }] + Seq::<Token>::empty() + seq![
        Token::End { rule: s as usize, pos: 0 },
    ] =~= seq![Token::Start { rule: s as usize, pos: 0 }, Token::End { rule: s as usize, pos: 0 }]);
}

/// The start rule's name leads back to the start rule.
proof fn start_is_its_own_index(g: Grammar)
    requires
        g.wf(),
    ensures
        has_rule(g.spec_rules(), g.spec_rules()[g.spec_start()].name@),
        rule_index(g.spec_rules(), g.spec_rules()[g.spec_start()].name@) == g.spec_start(),
{
    let rules = g.spec_rules();
    let s = g.spec_start();
    let n = rules[s].name@;
    assert(has_rule(rules, n));
    let c = rule_index(rules, n);
    assert(rules[c].name@ == n);
    if c < s {
        assert(rules[c].name@ != rules[s].name@);
    } else if s < c {
        assert(rules[s].name@ != rules[c].name@);
    }
}

/// Ordered choice in a parse: where the start rule is `a / b`, is neither silent nor
/// transparent, and `a` matches at the start, the parse gives one node of the start
/// rule over exactly `a`'s match, whatever `b` would match.
pub proof fn parse_choice_prefers_first(g: Grammar, input: Seq<char>, a: Expr, b: Expr)
    requires
        g.wf(),
        g.spec_rules()[g.spec_start()].expr == Expr::Choice(Box::new(a), Box::new(b)),
        !g.spec_rules()[g.spec_start()].silent,
        !g.spec_rules()[g.spec_start()].transparent,
        eval(
            g.spec_rules(),
            input,
            a,
            0,
            (depth_limit(g.spec_rules().len() as int, input.len() as int) - 1) as nat,
            g.spec_rules()[g.spec_start()].atomic,
        ).out is Matched,
    ensures
        ({
            let ra = eval(
                g.spec_rules(),
                input,
                a,
                0,
                (depth_limit(g.spec_rules().len() as int, input.len() as int) - 1) as nat,
                g.spec_rules()[g.spec_start()].atomic,
            ).out;
            parse_spec(g, input, false) == ParseV::Tree(
                seq![Token::Start { rule: g.spec_start() as usize, pos: 0 }] + ra->toks + seq![
                    Token::End { rule: g.spec_start() as usize, pos: ra->end as usize },
                ],
            )
        }),
{
    start_is_its_own_index(g);
    let rules = g.spec_rules();
    let limit = depth_limit(rules.len() as int, input.len() as int);
    assert(limit >= 2);
    rule_choice_prefers_first(rules, input, rules[g.spec_start()].name, a, b, 0, limit as nat, false);
}

/// A lookahead start rule (neither silent nor transparent, end of input not required)
/// parses exactly where the lookahead succeeds at the start, and then into one empty
/// node; where its expression fails, a positive one gives no tree and a negative one
/// gives that node.
pub proof fn lookahead_start_rule_parses_iff(g: Grammar, input: Seq<char>, e: Expr, positive: bool)
    requires
        g.wf(),
        positive ==> g.spec_rules()[g.spec_start()].expr == Expr::PositiveLookahead(Box::new(e)),
        !positive ==> g.spec_rules()[g.spec_start()].expr == Expr::NegativeLookahead(Box::new(e)),
        !g.spec_rules()[g.spec_start()].silent,
        !g.spec_rules()[g.spec_start()].transparent,
        !(eval(
            g.spec_rules(),
            input,
            e,
            0,
            (depth_limit(g.spec_rules().len() as int, input.len() as int) - 1) as nat,
            g.spec_rules()[g.spec_start()].atomic,
        ).out is Faulted),
    ensures
        ({
            let matched = eval(
                g.spec_rules(),
                input,
                e,
                0,
                (depth_limit(g.spec_rules().len() as int, input.len() as int) - 1) as nat,
                g.spec_rules()[g.spec_start()].atomic,
            ).out is Matched;
            &&& (parse_spec(g, input, false) is Tree <==> (matched == positive))
            &&& (matched == positive) ==> parse_spec(g, input, false) == ParseV::Tree(
                seq![
                    Token::Start { rule: g.spec_start() as usize, pos: 0 },
                    Token::End { rule: g.spec_start() as usize, pos: 0 },
                ],
            )
        }),
{
    start_is_its_own_index(g);
    let rules = g.spec_rules();
    let s = g.spec_start();
    let limit = depth_limit(rules.len() as int, input.len() as int);
    assert(limit >= 2);
    let top = eval(rules, input, crate::driver::start_ref(g), 0, limit as nat, false);
    let at = false || rules[s].atomic;
    let inner = eval(rules, input, rules[s].expr, 0, (limit - 1) as nat, at);
    let re = eval(rules, input, e, 0, (limit - 1) as nat, at);
    if (re.out is Matched) == positive {
        assert(inner.out == OutcomeV::Matched { end: 0, toks: Seq::<Token>::empty() });
        assert(top.out == OutcomeV::Matched { end: 0, toks: wrap(s, rules[s], 0, 0, Seq::<Token>::empty(), false) });
    } else {
        assert(inner.out is Failed);
        assert(top.out is Failed);
    }
    assert(seq![Token::Start { rule: s as usize, pos: 0 }] + Seq::<Token>::empty() + seq![
        Token::End { rule: s as usize, pos: 0 },
    ] =~= seq![Token::Start { rule: s as usize, pos: 0 }, Token::End { rule: s as usize, pos: 0 }]);
}

/// Inside atomic rules (where nothing is skipped), a lookahead that succeeds in front
/// of `x` changes nothing of what `x` gives: the same end and the same tokens.
pub proof fn lookahead_prefix_changes_nothing(
    rules: Seq<Rule>,
    input: Seq<char>,
    l: Expr,
    x: Expr,
    pos: int,
    fuel: nat,
)
    requires
        l matches Expr::PositiveLookahead(_) || l matches Expr::NegativeLookahead(_),
        eval(rules, input, l, pos, fuel, true).out is Matched,
    ensures
        eval(rules, input, Expr::Sequence(Box::new(l), Box::new(x)), pos, fuel, true).out == eval(
            rules,
            input,
            x,
            pos,
            fuel,
            true,
        ).out,
{
    let r2 = eval(rules, input, x, pos, fuel, true);
    if let OutcomeV::Matched { end, toks } = r2.out {
        assert(Seq::<Token>::empty() + toks =~= toks);
    }
}

} // verus!
