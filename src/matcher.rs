use vstd::prelude::*;
use vstd::hash_map::HashMapWithView;
use crate::grammar::{Expr, Grammar, Rule};
use crate::semantics::{
    EngineFault, Eval, OutcomeV, Token, class_label, class_label_upto, eval, eval_skip, eval_star,
    in_class, range_label, then_out, wrap,
};
use crate::tracker::Tracker;

verus! {

broadcast use vstd::string::to_string_from_display_ensures_for_str;

/// What matching an expression gave.
pub enum Outcome {
    Matched { end: usize, tokens: Vec<Token> },
    Failed,
    Faulted(EngineFault),
}

impl View for Outcome {
    type V = OutcomeV;

    open spec fn view(&self) -> OutcomeV {
        match self {
            Outcome::Matched { end, tokens } => OutcomeV::Matched { end: *end as int, toks: tokens@ },
            Outcome::Failed => OutcomeV::Failed,
            Outcome::Faulted(f) => OutcomeV::Faulted(*f),
        }
    }
}

/// An outcome with the failures recorded while reaching it.
pub struct Step {
    pub out: Outcome,
    pub track: Tracker,
}

impl View for Step {
    type V = Eval;

    open spec fn view(&self) -> Eval {
        Eval { out: self.out@, track: self.track@ }
    }
}

/// Relies on `String`'s `FromIterator<&char>`: the string holds exactly these characters, in order.
#[verifier::external_body]
fn string_from_chars(v: &Vec<char>) -> (r: String)
    ensures
        r@ == v@,
{
    v.iter().collect()
}

fn copy_tokens(v: &Vec<Token>) -> (r: Vec<Token>)
    ensures
        r@ == v@,
{
    let mut r: Vec<Token> = Vec::new();
    let mut i: usize = 0;
    while i < v.len()
        invariant
            i <= v.len(),
            r@ == v@.subrange(0, i as int),
        decreases v.len() - i,
    {
        r.push(v[i]);
        assert(r@ =~= v@.subrange(0, i + 1));
        i = i + 1;
    }
    assert(v@.subrange(0, i as int) =~= v@);
    r
}

/// `a` followed by `b`.
fn concat_tokens(a: Vec<Token>, b: &Vec<Token>) -> (r: Vec<Token>)
    ensures
        r@ == a@ + b@,
{
    let mut r = a;
    let ghost a0 = r@;
    let mut i: usize = 0;
    while i < b.len()
        invariant
            i <= b.len(),
            r@ == a0 + b@.subrange(0, i as int),
        decreases b.len() - i,
    {
        r.push(b[i]);
        assert(r@ =~= a0 + b@.subrange(0, i + 1));
        i = i + 1;
    }
    assert(b@.subrange(0, i as int) =~= b@);
    r
}

impl Step {
    fn copy(&self) -> (r: Step)
        ensures
            r@ == self@,
    {
        let out = match &self.out {
            Outcome::Matched { end, tokens } => Outcome::Matched { end: *end, tokens: copy_tokens(tokens) },
            Outcome::Failed => Outcome::Failed,
            Outcome::Faulted(f) => Outcome::Faulted(*f),
        };
        Step { out, track: self.track.copy() }
    }
}

fn then_exec(toks: Vec<Token>, o: Outcome) -> (r: Outcome)
    ensures
        r@ == then_out(toks@, o@),
        r matches Outcome::Matched { end, .. } ==> o matches Outcome::Matched { end: e2, .. } && end == e2,
{
    match o {
        Outcome::Matched { end, tokens } => Outcome::Matched { end, tokens: concat_tokens(toks, &tokens) },
        _ => o,
    }
}

struct MemoEntry {
    rule: usize,
    pos: usize,
    fuel: usize,
    atomic: bool,
    step: Step,
}

/// The cache of rule outcomes of one parse, keyed by rule, position and atomic
/// context. An entry made with some depth left serves every later call with at least
/// as much left, unless the entry itself ran out of depth.
pub struct Memo {
    enabled: bool,
    width: usize,
    map: HashMapWithView<usize, MemoEntry>,
}

/// What a cache entry claims: the outcome of its rule at its position.
pub open spec fn entry_ok(rule: usize, pos: usize, fuel: usize, atomic: bool, step: Eval, rules: Seq<Rule>, input: Seq<char>) -> bool {
    &&& rule < rules.len()
    &&& step == eval(rules, input, Expr::RuleRef(rules[rule as int].name), pos as int, fuel as nat, atomic)
    &&& step.out matches OutcomeV::Matched { end, .. } ==> pos <= end <= input.len()
    &&& step.track.pos <= input.len()
}

impl Memo {
    /// Every entry holds the outcome of its rule at its position.
    pub closed spec fn valid(&self, rules: Seq<Rule>, input: Seq<char>) -> bool {
        forall|key: usize| #[trigger] self.map@.contains_key(key) ==> {
            let en = self.map@[key];
            entry_ok(en.rule, en.pos, en.fuel, en.atomic, en.step@, rules, input)
        }
    }

    /// An empty cache for an input of `len` characters; `enabled` false caches nothing.
    pub fn new(len: usize, enabled: bool) -> (r: Memo)
        ensures
            forall|rules: Seq<Rule>, input: Seq<char>| r.valid(rules, input),
    {
        broadcast use vstd::std_specs::hash::group_hash_axioms;

        let width = if len < usize::MAX { len + 1 } else { len };
        Memo { enabled, width, map: HashMapWithView::new() }
    }

    /// Where the outcome of `rule` at `pos` in context `atomic` is kept; none where the
    /// cache is off or the index does not fit.
    fn key(&self, rule: usize, pos: usize, atomic: bool) -> (r: Option<usize>) {
        if !self.enabled {
            return None;
        }
        let base = match rule.checked_mul(self.width) {
            Some(b) => b,
            None => {
                return None;
            },
        };
        let slot = match base.checked_add(pos) {
            Some(s) => s,
            None => {
                return None;
            },
        };
        match slot.checked_mul(2) {
            Some(d) => d.checked_add(if atomic { 1 } else { 0 }),
            None => None,
        }
    }
}

/// The label of a character class, as `class_label` describes it.
fn class_label_exec(ranges: &Vec<(char, char)>) -> (r: Vec<char>)
    ensures
        r@ == class_label(ranges@),
{
    let mut r: Vec<char> = Vec::new();
    let mut i: usize = 0;
    while i < ranges.len()
        invariant
            i <= ranges.len(),
            r@ == class_label_upto(ranges@, i as nat),
        decreases ranges.len() - i,
    {
        let ghost before = r@;
        if i > 0 {
            r.push(' ');
            r.push('|');
            r.push(' ');
        }
        let (lo, hi) = ranges[i];
        r.push('\'');
        r.push(lo);
        r.push('\'');
        r.push('.');
        r.push('.');
        r.push('\'');
        r.push(hi);
        r.push('\'');
        proof {
            if i == 0 {
                assert(r@ =~= range_label(ranges@[0]));
            } else {
                assert(r@ =~= before + seq![' ', '|', ' '] + range_label(ranges@[i as int]));
            }
        }
        i = i + 1;
    }
    r
}

fn match_literal(input: &Vec<char>, l: &Vec<char>, pos: usize) -> (r: bool)
    requires
        pos <= input.len(),
    ensures
        r == (pos + l@.len() <= input.len() && input@.subrange(pos as int, pos + l@.len()) == l@),
{
    if l.len() > input.len() - pos {
        return false;
    }
    let mut i: usize = 0;
    while i < l.len()
        invariant
            i <= l.len(),
            pos + l.len() <= input.len(),
            input@.subrange(pos as int, pos + i) == l@.subrange(0, i as int),
        decreases l.len() - i,
    {
        if input[pos + i] != l[i] {
            assert(input@.subrange(pos as int, pos + l@.len())[i as int] != l@[i as int]);
            return false;
        }
        assert(input@.subrange(pos as int, pos + i + 1) =~= l@.subrange(0, i + 1));
        i = i + 1;
    }
    assert(l@.subrange(0, i as int) =~= l@);
    true
}

fn match_class(ranges: &Vec<(char, char)>, c: char) -> (r: bool)
    ensures
        r == in_class(ranges@, c),
{
    let mut i: usize = 0;
    while i < ranges.len()
        invariant
            i <= ranges.len(),
            forall|j: int| 0 <= j < i ==> !(#[trigger] ranges@[j].0 <= c && c <= ranges@[j].1),
        decreases ranges.len() - i,
    {
        let (lo, hi) = ranges[i];
        if lo <= c && c <= hi {
            return true;
        }
        i = i + 1;
    }
    false
}

fn wrap_exec(k: usize, rule: &Rule, pos: usize, end: usize, toks: Vec<Token>, at: bool) -> (r: Vec<Token>)
    ensures
        r@ == wrap(k as int, *rule, pos as int, end as int, toks@, at),
{
    if at || rule.silent {
        Vec::new()
    } else if rule.transparent {
        toks
    } else {
        let mut v: Vec<Token> = Vec::new();
        v.push(Token::Start { rule: k, pos });
        let mut v = concat_tokens(v, &toks);
        v.push(Token::End { rule: k, pos: end });
        assert(v@ =~= seq![Token::Start { rule: k, pos }] + toks@ + seq![Token::End { rule: k, pos: end }]);
        v
    }
}

/// Matches `e` at `pos`, as `eval` describes, consulting and filling the cache.
pub fn match_expr(g: &Grammar, input: &Vec<char>, e: &Expr, pos: usize, fuel: usize, at: bool, memo: &mut Memo) -> (r: Step)
    requires
        g.wf(),
        pos <= input.len(),
        old(memo).valid(g.spec_rules(), input@),
    ensures
        final(memo).valid(g.spec_rules(), input@),
        r@ == eval(g.spec_rules(), input@, *e, pos as int, fuel as nat, at),
        r.out matches Outcome::Matched { end, .. } ==> pos <= end <= input.len(),
        r@.track.pos <= input.len(),
    decreases fuel, *e, 2int, 0int,
{
    match e {
        Expr::Literal(l) => {
            if match_literal(input, l, pos) {
                Step { out: Outcome::Matched { end: pos + l.len(), tokens: Vec::new() }, track: Tracker::empty() }
            } else {
                Step { out: Outcome::Failed, track: Tracker::single(pos, string_from_chars(l)) }
            }
        },
        Expr::CharClass(rs) => {
            if pos < input.len() && match_class(rs, input[pos]) {
                Step { out: Outcome::Matched { end: pos + 1, tokens: Vec::new() }, track: Tracker::empty() }
            } else {
                let label = class_label_exec(rs);
                Step { out: Outcome::Failed, track: Tracker::single(pos, string_from_chars(&label)) }
            }
        },
        Expr::EndOfInput => {
            if pos == input.len() {
                Step { out: Outcome::Matched { end: pos, tokens: Vec::new() }, track: Tracker::empty() }
            } else {
                Step { out: Outcome::Failed, track: Tracker::single(pos, "end of input".to_string()) }
            }
        },
        Expr::RuleRef(n) => {
            match g.rule_index(n) {
                None => Step { out: Outcome::Failed, track: Tracker::empty() },
                Some(k) => {
                    if fuel == 0 {
                        Step { out: Outcome::Faulted(EngineFault::DepthExceeded), track: Tracker::empty() }
                    } else {
                        match_rule(g, input, e, k, pos, fuel, at, memo)
                    }
                },
            }
        },
        Expr::Sequence(a, b) => {
            let r = match_expr(g, input, a, pos, fuel, at, memo);
            match r.out {
                Outcome::Matched { end, tokens } => {
                    let s = if at {
                        Step { out: Outcome::Matched { end, tokens: Vec::new() }, track: Tracker::empty() }
                    } else {
                        match_skip(g, input, e, end, fuel, memo)
                    };
                    match s.out {
                        Outcome::Matched { end: p1, .. } => {
                            let r2 = match_expr(g, input, b, p1, fuel, at, memo);
                            let out = then_exec(tokens, r2.out);
                            Step { out, track: Tracker::merge(r.track, r2.track) }
                        },
                        _ => Step { out: s.out, track: r.track },
                    }
                },
                _ => r,
            }
        },
        Expr::Choice(a, b) => {
            let r = match_expr(g, input, a, pos, fuel, at, memo);
            match r.out {
                Outcome::Failed => {
                    let r2 = match_expr(g, input, b, pos, fuel, at, memo);
                    Step { out: r2.out, track: Tracker::merge(r.track, r2.track) }
                },
                _ => r,
            }
        },
        Expr::ZeroOrMore(b) => {
            let r = match_expr(g, input, b, pos, fuel, at, memo);
            match r.out {
                Outcome::Matched { end, tokens } => {
                    if end <= pos {
                        Step { out: Outcome::Faulted(EngineFault::EmptyRepetition), track: r.track }
                    } else {
                        let r2 = match_star(g, input, e, end, fuel, at, memo);
                        let out = then_exec(tokens, r2.out);
                        Step { out, track: Tracker::merge(r.track, r2.track) }
                    }
                },
                Outcome::Failed => Step { out: Outcome::Matched { end: pos, tokens: Vec::new() }, track: r.track },
                _ => r,
            }
        },
        Expr::OneOrMore(b) => {
            let r = match_expr(g, input, b, pos, fuel, at, memo);
            match r.out {
                Outcome::Matched { end, tokens } => {
                    if end <= pos {
                        Step { out: Outcome::Faulted(EngineFault::EmptyRepetition), track: r.track }
                    } else {
                        let r2 = match_star(g, input, e, end, fuel, at, memo);
                        let out = then_exec(tokens, r2.out);
                        Step { out, track: Tracker::merge(r.track, r2.track) }
                    }
                },
                _ => r,
            }
        },
        Expr::Optional(b) => {
            let r = match_expr(g, input, b, pos, fuel, at, memo);
            match r.out {
                Outcome::Failed => Step { out: Outcome::Matched { end: pos, tokens: Vec::new() }, track: r.track },
                _ => r,
            }
        },
        Expr::PositiveLookahead(b) => {
            let r = match_expr(g, input, b, pos, fuel, at, memo);
            match r.out {
                Outcome::Matched { .. } => Step { out: Outcome::Matched { end: pos, tokens: Vec::new() }, track: r.track },
                _ => r,
            }
        },
        Expr::NegativeLookahead(b) => {
            let r = match_expr(g, input, b, pos, fuel, at, memo);
            match r.out {
                Outcome::Matched { .. } => Step { out: Outcome::Failed, track: Tracker::empty() },
                Outcome::Failed => Step { out: Outcome::Matched { end: pos, tokens: Vec::new() }, track: Tracker::empty() },
                _ => r,
            }
        },
    }
}

/// The further repetitions of the body of `e` from `pos`, as `eval_star` describes.
fn match_star(g: &Grammar, input: &Vec<char>, e: &Expr, pos: usize, fuel: usize, at: bool, memo: &mut Memo) -> (r: Step)
    requires
        g.wf(),
        pos <= input.len(),
        old(memo).valid(g.spec_rules(), input@),
    ensures
        final(memo).valid(g.spec_rules(), input@),
        r@ == eval_star(g.spec_rules(), input@, *e, pos as int, fuel as nat, at),
        r.out matches Outcome::Matched { end, .. } ==> pos <= end <= input.len(),
        r@.track.pos <= input.len(),
    decreases fuel, *e, 1int, input.len() - pos,
{
    match e {
        Expr::ZeroOrMore(b) | Expr::OneOrMore(b) => {
            let s = if at {
                Step { out: Outcome::Matched { end: pos, tokens: Vec::new() }, track: Tracker::empty() }
            } else {
                match_skip(g, input, e, pos, fuel, memo)
            };
            match s.out {
                Outcome::Matched { end: p1, .. } => {
                    let r = match_expr(g, input, b, p1, fuel, at, memo);
                    match r.out {
                        Outcome::Matched { end, tokens } => {
                            if end <= pos {
                                Step { out: Outcome::Faulted(EngineFault::EmptyRepetition), track: r.track }
                            } else {
                                let r2 = match_star(g, input, e, end, fuel, at, memo);
                                let out = then_exec(tokens, r2.out);
                                Step { out, track: Tracker::merge(r.track, r2.track) }
                            }
                        },
                        Outcome::Failed => Step { out: Outcome::Matched { end: pos, tokens: Vec::new() }, track: r.track },
                        _ => r,
                    }
                },
                _ => s,
            }
        },
        _ => Step { out: Outcome::Failed, track: Tracker::empty() },
    }
}

/// Implicit skipping from `pos`, as `eval_skip` describes.
fn match_skip(g: &Grammar, input: &Vec<char>, e: &Expr, pos: usize, fuel: usize, memo: &mut Memo) -> (r: Step)
    requires
        g.wf(),
        pos <= input.len(),
        old(memo).valid(g.spec_rules(), input@),
    ensures
        final(memo).valid(g.spec_rules(), input@),
        r@ == eval_skip(g.spec_rules(), input@, *e, pos as int, fuel as nat),
        r.out matches Outcome::Matched { end, .. } ==> pos <= end <= input.len(),
        r@.track.pos <= input.len(),
    decreases fuel, *e, 0int, input.len() - pos,
{
    match g.skip() {
        None => Step { out: Outcome::Matched { end: pos, tokens: Vec::new() }, track: Tracker::empty() },
        Some(k) => {
            proof {
                let rules = g.spec_rules();
                assert(rules[k as int].name@ == crate::grammar::skip_name());
                assert(crate::grammar::has_rule(rules, rules[k as int].name@));
            }
            if fuel <= 1 {
                proof {
                    let rules = g.spec_rules();
                    let ws = Expr::RuleRef(rules[k as int].name);
                    if fuel == 1 {
                        assert(eval(rules, input@, ws, pos as int, 0, true).out == OutcomeV::Faulted(EngineFault::DepthExceeded));
                    }
                }
                return Step { out: Outcome::Faulted(EngineFault::DepthExceeded), track: Tracker::empty() };
            }
            let ws = Expr::RuleRef(g.rules()[k].name.clone());
            let r = match_rule(g, input, &ws, k, pos, fuel - 1, true, memo);
            match r.out {
                Outcome::Matched { end, .. } => {
                    if end > pos {
                        match_skip(g, input, e, end, fuel, memo)
                    } else {
                        Step { out: Outcome::Matched { end: pos, tokens: Vec::new() }, track: Tracker::empty() }
                    }
                },
                Outcome::Failed => Step { out: Outcome::Matched { end: pos, tokens: Vec::new() }, track: Tracker::empty() },
                Outcome::Faulted(f) => Step { out: Outcome::Faulted(f), track: Tracker::empty() },
            }
        },
    }
}

/// Matches rule `k`, which `e` refers to, through the cache.
fn match_rule(g: &Grammar, input: &Vec<char>, e: &Expr, k: usize, pos: usize, fuel: usize, at: bool, memo: &mut Memo) -> (r: Step)
    requires
        g.wf(),
        pos <= input.len(),
        old(memo).valid(g.spec_rules(), input@),
        fuel > 0,
        k < g.spec_rules().len(),
        e matches Expr::RuleRef(n) && n@ == g.spec_rules()[k as int].name@
            && k == crate::grammar::rule_index(g.spec_rules(), n@),
    ensures
        final(memo).valid(g.spec_rules(), input@),
        r@ == eval(g.spec_rules(), input@, *e, pos as int, fuel as nat, at),
        r.out matches Outcome::Matched { end, .. } ==> pos <= end <= input.len(),
        r@.track.pos <= input.len(),
    decreases fuel, *e, 0int, 0int,
{
    let ghost rules = g.spec_rules();
    let ghost named = Expr::RuleRef(rules[k as int].name);
    proof {
        assert(crate::grammar::has_rule(rules, rules[k as int].name@));
        assert(eval(rules, input@, named, pos as int, fuel as nat, at) == eval(rules, input@, *e, pos as int, fuel as nat, at));
    }
    let key = memo.key(k, pos, at);
    match key {
        Some(key) => {
            match memo.map.get(&key) {
                Some(en) => {
                    let limited = match &en.step.out {
                        Outcome::Faulted(EngineFault::DepthExceeded) => true,
                        _ => false,
                    };
                    if en.rule == k && en.pos == pos && en.atomic == at && (en.fuel == fuel || (
                    en.fuel < fuel && !limited)) {
                        assert(memo.map@.contains_key(key));
                        let r = en.step.copy();
                        proof {
                            if en.fuel < fuel {
                                crate::depth::eval_depth_irrelevant(
                                    rules,
                                    input@,
                                    named,
                                    pos as int,
                                    en.fuel as nat,
                                    fuel as nat,
                                    at,
                                );
                            }
                        }
                        return r;
                    }
                },
                None => {},
            }
        },
        None => {},
    }
    let rule = &g.rules()[k];
    let r = match_expr(g, input, &rule.expr, pos, fuel - 1, at || rule.atomic, memo);
    let step = match r.out {
        Outcome::Matched { end, tokens } => Step {
            out: Outcome::Matched { end, tokens: wrap_exec(k, rule, pos, end, tokens, at) },
            track: r.track,
        },
        Outcome::Failed => {
            let farther = match r.track.farthest() {
                Some(p) => p > pos,
                None => false,
            };
            let track = if farther { r.track } else { Tracker::single(pos, rule.name.clone()) };
            Step { out: Outcome::Failed, track }
        },
        Outcome::Faulted(f) => Step { out: Outcome::Faulted(f), track: r.track },
    };
    match key {
        Some(key) => {
            let entry = MemoEntry { rule: k, pos, fuel, atomic: at, step: step.copy() };
            memo.map.insert(key, entry);
        },
        None => {},
    }
    step
}

} // verus!
