use vstd::prelude::*;

verus! {

broadcast use vstd::string::to_string_from_display_ensures_for_str;

/// A parsing expression.
#[derive(Debug)]
pub enum Expr {
    /// Matches exactly this text.
    Literal(Vec<char>),
    /// Matches one character that lies in one of the inclusive ranges.
    CharClass(Vec<(char, char)>),
    /// Matches the rule of this name.
    RuleRef(String),
    /// Matches the first expression, then the second; all or nothing.
    Sequence(Box<Expr>, Box<Expr>),
    /// Takes the first alternative if it matches, else the second.
    Choice(Box<Expr>, Box<Expr>),
    ZeroOrMore(Box<Expr>),
    OneOrMore(Box<Expr>),
    Optional(Box<Expr>),
    /// Succeeds, consuming nothing, where the expression matches.
    PositiveLookahead(Box<Expr>),
    /// Succeeds, consuming nothing, where the expression does not match.
    NegativeLookahead(Box<Expr>),
    /// Succeeds, consuming nothing, at the end of the input only.
    EndOfInput,
}

/// The sequence of `items`, nested to the right.
pub open spec fn sequence_of(items: Seq<Expr>) -> Expr
    decreases items.len(),
{
    if items.len() <= 1 {
        items[0]
    } else {
        Expr::Sequence(Box::new(items[0]), Box::new(sequence_of(items.drop_first())))
    }
}

/// The ordered choice among `items`, nested to the right.
pub open spec fn choice_of(items: Seq<Expr>) -> Expr
    decreases items.len(),
{
    if items.len() <= 1 {
        items[0]
    } else {
        Expr::Choice(Box::new(items[0]), Box::new(choice_of(items.drop_first())))
    }
}

impl Expr {
    /// The sequence of a list of expressions; of none, the empty literal, which
    /// matches without consuming anything.
    pub fn sequence(items: Vec<Expr>) -> (r: Expr)
        ensures
            items.len() > 0 ==> r == sequence_of(items@),
            items.len() == 0 ==> (r matches Expr::Literal(l) && l@.len() == 0),
    {
        if items.len() == 0 {
            return Expr::Literal(Vec::new());
        }
        Expr::nest(items, true)
    }

    /// The ordered choice among a list of alternatives; among none, `!""`, which
    /// always fails and expects nothing.
    pub fn choice(items: Vec<Expr>) -> (r: Expr)
        ensures
            items.len() > 0 ==> r == choice_of(items@),
            items.len() == 0 ==> (r matches Expr::NegativeLookahead(b) && (*b matches Expr::Literal(l)
                && l@.len() == 0)),
    {
        if items.len() == 0 {
            return Expr::NegativeLookahead(Box::new(Expr::Literal(Vec::new())));
        }
        Expr::nest(items, false)
    }

    fn nest(items: Vec<Expr>, as_sequence: bool) -> (r: Expr)
        requires
            items.len() > 0,
        ensures
            as_sequence ==> r == sequence_of(items@),
            !as_sequence ==> r == choice_of(items@),
    {
        let ghost all = items@;
        let n = items.len();
        let mut rest = items;
        let mut acc = rest.pop().unwrap();
        proof {
            assert(all.subrange(n - 1, n as int) =~= seq![acc]);
        }
        while rest.len() > 0
            invariant
                rest@ == all.subrange(0, rest.len() as int),
                0 < n == all.len(),
                rest.len() < n,
                as_sequence ==> acc == sequence_of(all.subrange(rest.len() as int, n as int)),
                !as_sequence ==> acc == choice_of(all.subrange(rest.len() as int, n as int)),
            decreases rest.len(),
        {
            let ghost i = rest.len() as int;
            let item = rest.pop().unwrap();
            proof {
                assert(item == all[i - 1]);
                assert(all.subrange(i - 1, n as int).drop_first() =~= all.subrange(i, n as int));
                assert(rest@ =~= all.subrange(0, i - 1));
            }
            if as_sequence {
                acc = Expr::Sequence(Box::new(item), Box::new(acc));
            } else {
                acc = Expr::Choice(Box::new(item), Box::new(acc));
            }
        }
        proof {
            assert(all.subrange(0, n as int) =~= all);
        }
        acc
    }
}

/// A named rule with its tree-building flags.
#[derive(Debug)]
pub struct Rule {
    pub name: String,
    pub expr: Expr,
    /// Matched, but yields nothing for the tree: neither its own node nor any node
    /// of the rules it refers to.
    pub silent: bool,
    /// Nothing inside it yields a node.
    pub atomic: bool,
    /// Its children are spliced into the parent in place of its own node.
    pub transparent: bool,
}

/// Why a set of rules is not a grammar.
#[derive(Debug)]
pub enum GrammarError {
    DuplicateRuleName,
    UndefinedRuleReference(String),
    NoSuchStartRule,
}

/// A validated set of rules with a designated start rule; immutable once built.
#[derive(Debug)]
pub struct Grammar {
    rules: Vec<Rule>,
    start: usize,
    skip: Option<usize>,
}

/// The name of the rule that is skipped implicitly between the parts of sequences and
/// repetitions outside atomic rules.
pub open spec fn skip_name() -> Seq<char> {
    "WHITESPACE"@
}

pub open spec fn names_unique(rules: Seq<Rule>) -> bool {
    forall|i: int, j: int|
        0 <= i < j < rules.len() ==> #[trigger] rules[i].name@ != #[trigger] rules[j].name@
}

pub open spec fn has_rule(rules: Seq<Rule>, n: Seq<char>) -> bool {
    exists|i: int| 0 <= i < rules.len() && #[trigger] rules[i].name@ == n
}

/// The position of the rule named `n` (meaningful where `has_rule` holds).
pub open spec fn rule_index(rules: Seq<Rule>, n: Seq<char>) -> int {
    choose|i: int| 0 <= i < rules.len() && #[trigger] rules[i].name@ == n
}

/// Every rule reference in `e` names a rule of `rules`.
pub open spec fn refs_ok(rules: Seq<Rule>, e: Expr) -> bool
    decreases e,
{
    match e {
        Expr::RuleRef(n) => has_rule(rules, n@),
        Expr::Sequence(a, b) => refs_ok(rules, *a) && refs_ok(rules, *b),
        Expr::Choice(a, b) => refs_ok(rules, *a) && refs_ok(rules, *b),
        Expr::ZeroOrMore(b) => refs_ok(rules, *b),
        Expr::OneOrMore(b) => refs_ok(rules, *b),
        Expr::Optional(b) => refs_ok(rules, *b),
        Expr::PositiveLookahead(b) => refs_ok(rules, *b),
        Expr::NegativeLookahead(b) => refs_ok(rules, *b),
        _ => true,
    }
}

/// `e` holds a reference to the rule named `n`.
pub open spec fn mentions(e: Expr, n: Seq<char>) -> bool
    decreases e,
{
    match e {
        Expr::RuleRef(m) => m@ == n,
        Expr::Sequence(a, b) => mentions(*a, n) || mentions(*b, n),
        Expr::Choice(a, b) => mentions(*a, n) || mentions(*b, n),
        Expr::ZeroOrMore(b) => mentions(*b, n),
        Expr::OneOrMore(b) => mentions(*b, n),
        Expr::Optional(b) => mentions(*b, n),
        Expr::PositiveLookahead(b) => mentions(*b, n),
        Expr::NegativeLookahead(b) => mentions(*b, n),
        _ => false,
    }
}

pub open spec fn all_refs_ok(rules: Seq<Rule>) -> bool {
    forall|i: int| 0 <= i < rules.len() ==> refs_ok(rules, #[trigger] rules[i].expr)
}

/// Some rule refers to `n`, and no rule is named `n`.
pub open spec fn undefined_ref(rules: Seq<Rule>, n: Seq<char>) -> bool {
    &&& !has_rule(rules, n)
    &&& exists|i: int| 0 <= i < rules.len() && mentions(#[trigger] rules[i].expr, n)
}

impl Grammar {
    pub closed spec fn spec_rules(&self) -> Seq<Rule> {
        self.rules@
    }

    pub closed spec fn spec_start(&self) -> int {
        self.start as int
    }

    pub closed spec fn spec_skip(&self) -> Option<usize> {
        self.skip
    }

    /// Rule names are unique, every reference resolves, and the start rule exists.
    pub open spec fn wf(&self) -> bool {
        &&& names_unique(self.spec_rules())
        &&& all_refs_ok(self.spec_rules())
        &&& 0 <= self.spec_start() < self.spec_rules().len()
        &&& self.spec_skip() is Some <==> has_rule(self.spec_rules(), skip_name())
        &&& self.spec_skip() matches Some(k) ==> k == rule_index(self.spec_rules(), skip_name())
    }

    /// Validates `rules` and designates the rule named `start` as the start rule.
    pub fn build(rules: Vec<Rule>, start: &String) -> (r: Result<Grammar, GrammarError>)
        ensures
            r is Ok <==> names_unique(rules@) && all_refs_ok(rules@) && has_rule(rules@, start@),
            r matches Err(GrammarError::DuplicateRuleName) <==> !names_unique(rules@),
            (r matches Err(GrammarError::UndefinedRuleReference(_))) <==> names_unique(rules@)
                && !all_refs_ok(rules@),
            r matches Err(GrammarError::UndefinedRuleReference(n)) ==> undefined_ref(rules@, n@),
            r matches Err(GrammarError::NoSuchStartRule) <==> names_unique(rules@) && all_refs_ok(
                rules@,
            ) && !has_rule(rules@, start@),
            r matches Ok(g) ==> g.wf() && g.spec_rules() == rules@ && g.spec_rules()[g.spec_start()].name@
                == start@,
    {
        let n = rules.len();
        let mut i: usize = 0;
        while i < n
            invariant
                n == rules.len(),
                i <= n,
                forall|a: int, b: int|
                    0 <= a < b < i ==> #[trigger] rules@[a].name@ != #[trigger] rules@[b].name@,
            decreases n - i,
        {
            match find_rule(&rules, &rules[i].name) {
                Some(k) => {
                    if k < i {
                        assert(rules@[k as int].name@ == rules@[i as int].name@);
                        return Err(GrammarError::DuplicateRuleName);
                    }
                },
                None => {},
            }
            assert forall|a: int, b: int|
                0 <= a < b < i + 1 implies #[trigger] rules@[a].name@ != #[trigger] rules@[b].name@ by {
                if b == i {
                    assert(rules@[a].name@ != rules@[b].name@);
                }
            }
            i = i + 1;
        }
        let mut j: usize = 0;
        while j < n
            invariant
                n == rules.len(),
                j <= n,
                names_unique(rules@),
                forall|a: int| 0 <= a < j ==> refs_ok(rules@, #[trigger] rules@[a].expr),
            decreases n - j,
        {
            match undefined_in(&rules, &rules[j].expr) {
                Some(name) => {
                    assert(!refs_ok(rules@, rules@[j as int].expr));
                    return Err(GrammarError::UndefinedRuleReference(name));
                },
                None => {},
            }
            j = j + 1;
        }
        let skip = lookup(&rules, &"WHITESPACE".to_string());
        match find_rule(&rules, start) {
            Some(k) => Ok(Grammar { rules, start: k, skip }),
            None => Err(GrammarError::NoSuchStartRule),
        }
    }

    pub fn rules(&self) -> (r: &Vec<Rule>)
        ensures
            r@ == self.spec_rules(),
    {
        &self.rules
    }

    /// The index of the start rule.
    pub fn start(&self) -> (r: usize)
        ensures
            r == self.spec_start(),
    {
        self.start
    }

    /// The index of the rule skipped implicitly, if the grammar has one.
    pub fn skip(&self) -> (r: Option<usize>)
        ensures
            r == self.spec_skip(),
    {
        self.skip
    }

    /// The index of the rule named `name`, if there is one.
    pub fn rule_index(&self, name: &String) -> (r: Option<usize>)
        requires
            self.wf(),
        ensures
            r is Some <==> has_rule(self.spec_rules(), name@),
            r matches Some(k) ==> k == rule_index(self.spec_rules(), name@)
                && self.spec_rules()[k as int].name@ == name@,
    {
        lookup(&self.rules, name)
    }
}

/// The index of the rule named `name` among rules of unique names.
fn lookup(rules: &Vec<Rule>, name: &String) -> (r: Option<usize>)
    requires
        names_unique(rules@),
    ensures
        r is Some <==> has_rule(rules@, name@),
        r matches Some(k) ==> k == rule_index(rules@, name@) && rules@[k as int].name@ == name@,
{
    let r = find_rule(rules, name);
    proof {
        if r is Some {
            let k = r->0 as int;
            let c = rule_index(rules@, name@);
            assert(rules@[c].name@ == name@);
            assert(c == k) by {
                if c < k {
                    assert(rules@[c].name@ != rules@[k].name@);
                } else if k < c {
                    assert(rules@[k].name@ != rules@[c].name@);
                }
            }
        }
    }
    r
}

/// The first index of a rule named `name`.
pub(crate) fn find_rule(rules: &Vec<Rule>, name: &String) -> (r: Option<usize>)
    ensures
        r is Some <==> has_rule(rules@, name@),
        r matches Some(k) ==> k < rules.len() && rules@[k as int].name@ == name@ && forall|a: int|
            0 <= a < k ==> #[trigger] rules@[a].name@ != name@,
{
    let mut i: usize = 0;
    while i < rules.len()
        invariant
            i <= rules.len(),
            forall|a: int| 0 <= a < i ==> #[trigger] rules@[a].name@ != name@,
        decreases rules.len() - i,
    {
        if rules[i].name == *name {
            return Some(i);
        }
        i = i + 1;
    }
    None
}

/// Some name referred to in `e` that no rule has.
fn undefined_in(rules: &Vec<Rule>, e: &Expr) -> (r: Option<String>)
    ensures
        r is None <==> refs_ok(rules@, *e),
        r matches Some(n) ==> !has_rule(rules@, n@) && mentions(*e, n@),
    decreases e,
{
    match e {
        Expr::RuleRef(n) => {
            match find_rule(rules, n) {
                Some(_) => None,
                None => Some(n.clone()),
            }
        },
        Expr::Sequence(a, b) | Expr::Choice(a, b) => {
            match undefined_in(rules, a) {
                Some(n) => Some(n),
                None => undefined_in(rules, b),
            }
        },
        Expr::ZeroOrMore(b) | Expr::OneOrMore(b) | Expr::Optional(b) | Expr::PositiveLookahead(b)
        | Expr::NegativeLookahead(b) => undefined_in(rules, b),
        _ => None,
    }
}

} // verus!
