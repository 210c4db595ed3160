use pegparse::{
    byte_offset, line_col, parse, parse_full, parse_with, chars_of, Cursor, DiagnosticKind, EngineFault, Expr, Grammar, GrammarError,
    ParseError, ParseTree, Rule, Token,
};

fn lit(s: &str) -> Expr {
    Expr::Literal(s.chars().collect())
}

fn class(lo: char, hi: char) -> Expr {
    Expr::CharClass(vec![(lo, hi)])
}

fn rr(name: &str) -> Expr {
    Expr::RuleRef(name.to_string())
}

fn seq(a: Expr, b: Expr) -> Expr {
    Expr::Sequence(Box::new(a), Box::new(b))
}

fn alt(a: Expr, b: Expr) -> Expr {
    Expr::Choice(Box::new(a), Box::new(b))
}

fn rule(name: &str, expr: Expr) -> Rule {
    Rule { name: name.to_string(), expr, silent: false, atomic: false, transparent: false }
}

fn grammar(rules: Vec<Rule>, start: &str) -> Grammar {
    Grammar::build(rules, &start.to_string()).unwrap()
}

fn tree(r: Result<ParseTree, ParseError>) -> Vec<Token> {
    match r {
        Ok(t) => t.tokens,
        Err(e) => panic!("parse failed: {:?}", e),
    }
}

fn syntax(r: Result<ParseTree, ParseError>) -> (DiagnosticKind, usize, Vec<String>) {
    match r {
        Err(ParseError::Syntax(d)) => (d.kind, d.pos, d.expected),
        other => panic!("expected a syntax error, got {:?}", other),
    }
}

fn st(rule: usize, pos: usize) -> Token {
    Token::Start { rule, pos }
}

fn en(rule: usize, pos: usize) -> Token {
    Token::End { rule, pos }
}

fn number_grammar(silent_digit: bool) -> Grammar {
    let mut digit = rule("digit", class('0', '9'));
    digit.silent = silent_digit;
    let mut main = rule("main", seq(rr("number"), Expr::EndOfInput));
    main.transparent = true;
    grammar(vec![rule("number", Expr::OneOrMore(Box::new(rr("digit")))), digit, main], "main")
}

#[test]
fn number_with_two_digits_gives_tree() {
    let g = number_grammar(false);
    assert_eq!(tree(parse(&g, "42")), vec![st(0, 0), st(1, 0), en(1, 1), st(1, 1), en(1, 2), en(0, 2)]);
}

#[test]
fn silent_digit_gives_no_children() {
    let g = number_grammar(true);
    assert_eq!(tree(parse(&g, "42")), vec![st(0, 0), en(0, 2)]);
}

#[test]
fn number_followed_by_letter_fails_at_one() {
    let g = number_grammar(false);
    let (kind, pos, expected) = syntax(parse(&g, "4a"));
    assert_eq!(kind, DiagnosticKind::IncompleteParse);
    assert_eq!(pos, 1);
    assert_eq!(expected, vec!["digit".to_string(), "end of input".to_string()]);
}

#[test]
fn number_required_to_reach_the_end_fails_at_one() {
    let g = grammar(vec![rule("number", Expr::OneOrMore(Box::new(rr("digit")))), rule("digit", class('0', '9'))], "number");
    let (kind, pos, expected) = syntax(parse_full(&g, "4a"));
    assert_eq!(kind, DiagnosticKind::IncompleteParse);
    assert_eq!(pos, 1);
    assert_eq!(expected, vec!["digit".to_string(), "end of input".to_string()]);
    assert_eq!(tree(parse(&g, "4a")), vec![st(0, 0), st(1, 0), en(1, 1), en(0, 1)]);
}

#[test]
fn sequence_reports_farthest_failure() {
    let g = grammar(vec![rule("source", seq(lit("a"), seq(lit("b"), lit("c"))))], "source");
    let (kind, pos, expected) = syntax(parse(&g, "abx"));
    assert_eq!(kind, DiagnosticKind::UnexpectedInput);
    assert_eq!(pos, 2);
    assert_eq!(expected, vec!["c".to_string()]);
}

#[test]
fn trailing_input_is_incomplete_parse() {
    let g = grammar(vec![rule("source", lit("abc"))], "source");
    let (kind, pos, expected) = syntax(parse_full(&g, "abcZZZ"));
    assert_eq!(kind, DiagnosticKind::IncompleteParse);
    assert_eq!(pos, 3);
    assert!(expected.contains(&"end of input".to_string()));
    assert_eq!(tree(parse(&g, "abcZZZ")), vec![st(0, 0), en(0, 3)]);
}

#[test]
fn end_of_input_in_the_grammar_makes_incomplete_parse() {
    let g = grammar(vec![rule("source", seq(lit("abc"), Expr::EndOfInput))], "source");
    let (kind, pos, expected) = syntax(parse(&g, "abcZZZ"));
    assert_eq!(kind, DiagnosticKind::IncompleteParse);
    assert_eq!(pos, 3);
    assert_eq!(expected, vec!["end of input".to_string()]);
    assert_eq!(tree(parse(&g, "abc")), vec![st(0, 0), en(0, 3)]);
}

#[test]
fn ordered_choice_takes_first_alternative() {
    let g = grammar(vec![rule("r", alt(rr("a"), rr("b"))), rule("a", lit("x")), rule("b", lit("x"))], "r");
    assert_eq!(tree(parse(&g, "x")), vec![st(0, 0), st(1, 0), en(1, 1), en(0, 1)]);
}

#[test]
fn choice_falls_back_to_second_alternative() {
    let g = grammar(vec![rule("r", alt(rr("a"), rr("b"))), rule("a", lit("x")), rule("b", lit("y"))], "r");
    assert_eq!(tree(parse(&g, "y")), vec![st(0, 0), st(2, 0), en(2, 1), en(0, 1)]);
}

#[test]
fn repetition_consumes_all_digits() {
    let g = grammar(vec![rule("s", Expr::ZeroOrMore(Box::new(rr("digit")))), rule("digit", class('0', '9'))], "s");
    assert_eq!(
        tree(parse(&g, "123abc")),
        vec![st(0, 0), st(1, 0), en(1, 1), st(1, 1), en(1, 2), st(1, 2), en(1, 3), en(0, 3)]
    );
    let (kind, pos, _) = syntax(parse_full(&g, "123abc"));
    assert_eq!(kind, DiagnosticKind::IncompleteParse);
    assert_eq!(pos, 3);
    let digits = Expr::ZeroOrMore(Box::new(class('0', '9')));
    let g = grammar(vec![rule("s", seq(digits, rr("rest"))), rule("rest", lit("abc"))], "s");
    assert_eq!(tree(parse(&g, "123abc")), vec![st(0, 0), st(1, 3), en(1, 6), en(0, 6)]);
}

#[test]
fn repetition_of_nothing_matches_empty() {
    let g = grammar(vec![rule("s", Expr::ZeroOrMore(Box::new(lit("a"))))], "s");
    assert_eq!(tree(parse(&g, "")), vec![st(0, 0), en(0, 0)]);
}

#[test]
fn one_or_more_needs_one() {
    let g = grammar(vec![rule("s", Expr::OneOrMore(Box::new(lit("a"))))], "s");
    let (kind, pos, expected) = syntax(parse(&g, "b"));
    assert_eq!(kind, DiagnosticKind::UnexpectedInput);
    assert_eq!(pos, 0);
    assert_eq!(expected, vec!["s".to_string()]);
}

#[test]
fn lookaheads_consume_nothing_and_leave_no_nodes() {
    let g = grammar(
        vec![
            rule("s", seq(Expr::PositiveLookahead(Box::new(rr("a"))), seq(Expr::NegativeLookahead(Box::new(rr("b"))), rr("a")))),
            rule("a", lit("a")),
            rule("b", lit("b")),
        ],
        "s",
    );
    assert_eq!(tree(parse(&g, "a")), vec![st(0, 0), st(1, 0), en(1, 1), en(0, 1)]);
    let g = grammar(vec![rule("s", seq(Expr::NegativeLookahead(Box::new(lit("b"))), lit("b")))], "s");
    let (kind, pos, _) = syntax(parse(&g, "b"));
    assert_eq!(kind, DiagnosticKind::UnexpectedInput);
    assert_eq!(pos, 0);
}

#[test]
fn optional_matches_empty() {
    let g = grammar(vec![rule("s", seq(Expr::Optional(Box::new(lit("-"))), lit("1")))], "s");
    assert_eq!(tree(parse(&g, "1")), vec![st(0, 0), en(0, 1)]);
    assert_eq!(tree(parse(&g, "-1")), vec![st(0, 0), en(0, 2)]);
}

#[test]
fn transparent_rule_splices_children() {
    let mut inner = rule("inner", rr("digit"));
    inner.transparent = true;
    let g = grammar(vec![rule("s", rr("inner")), inner, rule("digit", class('0', '9'))], "s");
    assert_eq!(tree(parse(&g, "7")), vec![st(0, 0), st(2, 0), en(2, 1), en(0, 1)]);
}

#[test]
fn atomic_rule_hides_inner_nodes() {
    let mut word = rule("word", Expr::OneOrMore(Box::new(rr("letter"))));
    word.atomic = true;
    let g = grammar(vec![rule("s", rr("word")), word, rule("letter", class('a', 'z'))], "s");
    assert_eq!(tree(parse(&g, "ab")), vec![st(0, 0), st(1, 0), en(1, 2), en(0, 2)]);
}

#[test]
fn class_failure_is_labelled_by_its_ranges() {
    let g = grammar(vec![rule("s", seq(lit("a"), Expr::CharClass(vec![('0', '9'), ('x', 'x')])))], "s");
    let (_, pos, expected) = syntax(parse(&g, "az"));
    assert_eq!(pos, 1);
    assert_eq!(expected, vec!["'0'..'9' | 'x'..'x'".to_string()]);
}

#[test]
fn labels_at_equal_position_are_united() {
    let g = grammar(vec![rule("s", seq(lit("a"), alt(lit("b"), alt(lit("c"), lit("b")))))], "s");
    let (_, pos, expected) = syntax(parse(&g, "ax"));
    assert_eq!(pos, 1);
    assert_eq!(expected, vec!["b".to_string(), "c".to_string()]);
}

#[test]
fn left_recursion_is_an_engine_fault() {
    let g = grammar(vec![rule("a", seq(rr("a"), lit("x")))], "a");
    match parse(&g, "xx") {
        Err(ParseError::Fault(f)) => assert_eq!(f, EngineFault::DepthExceeded),
        other => panic!("unexpected {:?}", other),
    }
}

#[test]
fn empty_repetition_is_an_engine_fault() {
    let g = grammar(vec![rule("s", Expr::ZeroOrMore(Box::new(lit(""))))], "s");
    match parse(&g, "a") {
        Err(ParseError::Fault(f)) => assert_eq!(f, EngineFault::EmptyRepetition),
        other => panic!("unexpected {:?}", other),
    }
}

#[test]
fn repeated_parses_are_identical() {
    let g = number_grammar(false);
    for input in ["42", "4a", "", "007"] {
        let a = format!("{:?}", parse(&g, input));
        let b = format!("{:?}", parse(&g, input));
        assert_eq!(a, b);
    }
}

#[test]
fn cache_changes_no_result() {
    let g = grammar(
        vec![
            rule("s", alt(seq(rr("n"), lit("+")), seq(rr("n"), lit("-")))),
            rule("n", Expr::OneOrMore(Box::new(class('0', '9')))),
        ],
        "s",
    );
    for input in ["12+", "12-", "12*", "", "x"] {
        let chars = chars_of(input);
        for full in [false, true] {
            let a = format!("{:?}", parse_with(&g, &chars, true, full));
            let b = format!("{:?}", parse_with(&g, &chars, false, full));
            assert_eq!(a, b);
        }
    }
    assert_eq!(tree(parse(&g, "12-")), vec![st(0, 0), st(1, 0), en(1, 2), en(0, 3)]);
}

#[test]
fn build_rejects_duplicate_names() {
    let r = Grammar::build(vec![rule("a", lit("x")), rule("a", lit("y"))], &"a".to_string());
    assert!(matches!(r, Err(GrammarError::DuplicateRuleName)));
}

#[test]
fn build_rejects_undefined_reference() {
    let r = Grammar::build(vec![rule("a", seq(lit("x"), rr("missing")))], &"a".to_string());
    match r {
        Err(GrammarError::UndefinedRuleReference(n)) => assert_eq!(n, "missing"),
        other => panic!("unexpected {:?}", other),
    }
}

#[test]
fn build_rejects_missing_start_rule() {
    let r = Grammar::build(vec![rule("a", lit("x"))], &"b".to_string());
    assert!(matches!(r, Err(GrammarError::NoSuchStartRule)));
}

#[test]
fn line_and_column_of_offsets() {
    let text = chars_of("ab\ncd\n\nx");
    assert_eq!(line_col(&text, 0), (1, 1));
    assert_eq!(line_col(&text, 4), (2, 2));
    assert_eq!(line_col(&text, 7), (4, 1));
    assert_eq!(chars_of("héllo").len(), 5);
}

fn with_whitespace(mut rules: Vec<Rule>) -> Vec<Rule> {
    let mut ws = rule("WHITESPACE", lit(" "));
    ws.silent = true;
    rules.push(ws);
    rules
}

#[test]
fn whitespace_is_skipped_between_sequence_parts() {
    let g = grammar(with_whitespace(vec![rule("s", seq(lit("a"), lit("b")))]), "s");
    assert_eq!(g.skip(), Some(1));
    assert_eq!(tree(parse(&g, "a  b")), vec![st(0, 0), en(0, 4)]);
    assert_eq!(tree(parse(&g, "ab")), vec![st(0, 0), en(0, 2)]);
}

#[test]
fn atomic_rule_does_not_skip() {
    let mut word = rule("word", seq(lit("a"), lit("b")));
    word.atomic = true;
    let g = grammar(with_whitespace(vec![rule("s", rr("word")), word]), "s");
    assert_eq!(tree(parse(&g, "ab")), vec![st(0, 0), st(1, 0), en(1, 2), en(0, 2)]);
    let (kind, pos, expected) = syntax(parse(&g, "a b"));
    assert_eq!(kind, DiagnosticKind::UnexpectedInput);
    assert_eq!(pos, 1);
    assert_eq!(expected, vec!["b".to_string()]);
}

#[test]
fn whitespace_is_skipped_between_repetitions() {
    let g = grammar(
        with_whitespace(vec![rule("number", Expr::OneOrMore(Box::new(rr("digit")))), rule("digit", class('0', '9'))]),
        "number",
    );
    assert_eq!(
        tree(parse(&g, "1 2")),
        vec![st(0, 0), st(1, 0), en(1, 1), st(1, 2), en(1, 3), en(0, 3)]
    );
    assert_eq!(
        tree(parse(&g, "1 2 ")),
        vec![st(0, 0), st(1, 0), en(1, 1), st(1, 2), en(1, 3), en(0, 3)]
    );
    let (kind, pos, expected) = syntax(parse_full(&g, "1 2 "));
    assert_eq!(kind, DiagnosticKind::IncompleteParse);
    assert_eq!(pos, 4);
    assert_eq!(expected, vec!["digit".to_string()]);
}

#[test]
fn skipping_records_no_expectation() {
    let g = grammar(with_whitespace(vec![rule("source", seq(lit("a"), seq(lit("b"), lit("c"))))]), "source");
    let (_, pos, expected) = syntax(parse(&g, "abx"));
    assert_eq!(pos, 2);
    assert_eq!(expected, vec!["c".to_string()]);
}

#[test]
fn list_constructors_nest_to_the_right() {
    let s = Expr::sequence(vec![lit("a"), lit("b"), lit("c")]);
    let g = grammar(vec![rule("source", s)], "source");
    assert_eq!(tree(parse(&g, "abc")), vec![st(0, 0), en(0, 3)]);
    let (_, pos, expected) = syntax(parse(&g, "abx"));
    assert_eq!(pos, 2);
    assert_eq!(expected, vec!["c".to_string()]);
    let c = Expr::choice(vec![lit("a"), lit("b"), lit("c")]);
    let g = grammar(vec![rule("s", c)], "s");
    assert_eq!(tree(parse(&g, "c")), vec![st(0, 0), en(0, 1)]);
    match Expr::sequence(vec![lit("x")]) {
        Expr::Literal(v) => assert_eq!(v, vec!['x']),
        other => panic!("unexpected {:?}", other),
    }
}

#[test]
fn cache_reused_across_depths_changes_nothing() {
    let g = grammar(
        vec![
            rule("s", alt(seq(rr("p"), lit("+")), rr("q"))),
            rule("q", seq(rr("p"), lit("-"))),
            rule("p", Expr::OneOrMore(Box::new(rr("d")))),
            rule("d", class('0', '9')),
        ],
        "s",
    );
    for input in ["1+", "12-", "12", "x", "1-+"] {
        let chars = chars_of(input);
        for full in [false, true] {
            let a = format!("{:?}", parse_with(&g, &chars, true, full));
            let b = format!("{:?}", parse_with(&g, &chars, false, full));
            assert_eq!(a, b);
        }
    }
    assert_eq!(
        tree(parse(&g, "1-")),
        vec![st(0, 0), st(1, 0), st(2, 0), st(3, 0), en(3, 1), en(2, 1), en(1, 2), en(0, 2)]
    );
}

#[test]
fn cursor_peeks_advances_and_slices() {
    let mut c = Cursor::new("ab\ncd");
    assert_eq!(c.pos(), 0);
    assert_eq!(c.peek(), Some('a'));
    assert!(!c.at_end());
    c.advance(4);
    assert_eq!(c.peek(), Some('d'));
    assert_eq!(c.line_col(), (2, 2));
    assert_eq!(c.slice(1, 4), vec!['b', '\n', 'c']);
    c.advance(1);
    assert!(c.at_end());
    assert_eq!(c.peek(), None);
    assert_eq!(c.line_col(), (2, 3));
}

#[test]
fn lookahead_start_rule_gives_empty_node() {
    let g = grammar(vec![rule("s", Expr::PositiveLookahead(Box::new(lit("a"))))], "s");
    assert_eq!(tree(parse(&g, "a")), vec![st(0, 0), en(0, 0)]);
    assert!(matches!(parse(&g, "b"), Err(ParseError::Syntax(_))));
    let g = grammar(vec![rule("s", Expr::NegativeLookahead(Box::new(lit("b"))))], "s");
    assert_eq!(tree(parse(&g, "a")), vec![st(0, 0), en(0, 0)]);
    assert!(matches!(parse(&g, "b"), Err(ParseError::Syntax(_))));
}

#[test]
fn deep_nesting_is_no_fault() {
    let g = grammar(vec![rule("p", alt(seq(lit("("), seq(rr("p"), lit(")"))), lit("x")))], "p");
    let depth = 300;
    let input = format!("{}x{}", "(".repeat(depth), ")".repeat(depth));
    let tokens = tree(parse_full(&g, &input));
    assert_eq!(tokens.len(), 2 * (depth + 1));
    assert_eq!(tokens[0], st(0, 0));
    assert_eq!(tokens[tokens.len() - 1], en(0, 2 * depth + 1));
}

#[test]
fn empty_lists_make_empty_sequence_and_failing_choice() {
    let g = grammar(vec![rule("s", seq(Expr::sequence(vec![]), lit("a")))], "s");
    assert_eq!(tree(parse(&g, "a")), vec![st(0, 0), en(0, 1)]);
    let g = grammar(vec![rule("s", alt(Expr::choice(vec![]), lit("a")))], "s");
    assert_eq!(tree(parse(&g, "a")), vec![st(0, 0), en(0, 1)]);
    let g = grammar(vec![rule("s", Expr::choice(vec![]))], "s");
    let (kind, pos, expected) = syntax(parse(&g, "a"));
    assert_eq!(kind, DiagnosticKind::UnexpectedInput);
    assert_eq!(pos, 0);
    assert_eq!(expected, vec!["s".to_string()]);
}

#[test]
fn diagnostic_gives_line_column_and_byte_offset() {
    let g = grammar(vec![rule("s", seq(lit("é\n"), lit("b")))], "s");
    let text = "é\nx";
    let d = match parse(&g, text) {
        Err(ParseError::Syntax(d)) => d,
        other => panic!("unexpected {:?}", other),
    };
    assert_eq!(d.pos, 2);
    let chars = chars_of(text);
    assert_eq!(d.line_col(&chars), (2, 1));
    assert_eq!(d.byte_offset(&chars), 3);
    assert_eq!(byte_offset(&chars_of("aé€😀b"), 4), 1 + 2 + 3 + 4);
    let mut c = Cursor::new("€x");
    c.advance(1);
    assert_eq!(c.byte_offset(), 3);
}
