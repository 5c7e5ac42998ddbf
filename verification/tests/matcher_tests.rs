use asmcore::Span;
use asmcore::bignum::Big;
use asmcore::eval::{Report, VarMap};
use asmcore::expression::{Expression, ExpressionValue};
use asmcore::matcher::{
    Match, Rule, RulePatternMatcher, RulePatternPart, Token, TokenKind, TokenStream,
};

fn sp(start: usize, end: usize) -> Span {
    Span { start, end }
}

fn tok_ident(text: &str, at: usize) -> Token {
    Token {
        kind: TokenKind::Identifier,
        excerpt: Some(text.to_string()),
        value: 0,
        span: sp(at, at + text.len()),
    }
}

fn tok_number(v: u64, at: usize) -> Token {
    Token { kind: TokenKind::Number, excerpt: None, value: v, span: sp(at, at + 1) }
}

fn tok_punct(kind: TokenKind, at: usize) -> Token {
    Token { kind, excerpt: None, value: 0, span: sp(at, at + 1) }
}

fn part_ident(text: &str) -> RulePatternPart {
    RulePatternPart::Exact(TokenKind::Identifier, Some(text.to_string()))
}

fn part_punct(kind: TokenKind) -> RulePatternPart {
    RulePatternPart::Exact(kind, None)
}

fn part_param(slot: usize) -> RulePatternPart {
    RulePatternPart::Parameter(slot)
}

fn rule(parts: Vec<RulePatternPart>) -> Rule {
    Rule { pattern_parts: parts }
}

fn try_match(matcher: &RulePatternMatcher, tokens: Vec<Token>) -> Option<Match> {
    let mut stream = TokenStream::new(tokens);
    matcher.parse_match(&mut stream)
}

fn expect_literal(e: &Expression, v: u64) {
    match e {
        Expression::Literal(_, ExpressionValue::Integer(b)) => {
            assert_eq!(*b, Big::from_u64(v));
        },
        other => panic!("expected an integer literal, got {:?}", other),
    }
}

#[test]
fn zero_parameter_rule_matches_at_line_end() {
    let matcher = RulePatternMatcher::new(&vec![rule(vec![part_ident("halt")])]);
    let m = try_match(&matcher, vec![tok_ident("halt", 0)]).expect("halt should match");
    assert_eq!(m.rule_indices, vec![0]);
    assert!(m.exprs.is_empty());
}

#[test]
fn trailing_token_defeats_the_match() {
    let matcher = RulePatternMatcher::new(&vec![rule(vec![part_ident("halt")])]);
    assert!(try_match(&matcher, vec![tok_ident("halt", 0), tok_ident("x", 5)]).is_none());
    let two = RulePatternMatcher::new(&vec![rule(vec![part_ident("a"), part_ident("b")])]);
    assert!(try_match(&two, vec![tok_ident("a", 0)]).is_none());
}

#[test]
fn unknown_mnemonic_does_not_match() {
    let matcher = RulePatternMatcher::new(&vec![rule(vec![part_ident("halt")])]);
    assert!(try_match(&matcher, vec![tok_ident("jump", 0)]).is_none());
    assert!(try_match(&matcher, vec![]).is_none());
}

#[test]
fn parameter_captures_expression() {
    let matcher = RulePatternMatcher::new(&vec![rule(vec![part_ident("load"), part_param(0)])]);
    let m = try_match(&matcher, vec![tok_ident("load", 0), tok_number(300, 5)])
        .expect("load 300 should match");
    assert_eq!(m.rule_indices, vec![0]);
    assert_eq!(m.exprs.len(), 1);
    expect_literal(&m.exprs[0], 300);
}

#[test]
fn parameters_come_in_source_order() {
    let matcher = RulePatternMatcher::new(&vec![rule(vec![
        part_ident("load"),
        part_param(0),
        part_punct(TokenKind::Comma),
        part_param(1),
    ])]);
    let m = try_match(
        &matcher,
        vec![
            tok_ident("load", 0),
            tok_number(1, 5),
            tok_punct(TokenKind::Comma, 6),
            tok_number(2, 8),
        ],
    )
    .expect("load 1, 2 should match");
    assert_eq!(m.exprs.len(), 2);
    expect_literal(&m.exprs[0], 1);
    expect_literal(&m.exprs[1], 2);
}

#[test]
fn missing_argument_fails_to_match() {
    let matcher = RulePatternMatcher::new(&vec![rule(vec![part_ident("load"), part_param(0)])]);
    assert!(try_match(&matcher, vec![tok_ident("load", 0)]).is_none());
}

#[test]
fn identical_patterns_share_a_terminal_list() {
    let matcher = RulePatternMatcher::new(&vec![
        rule(vec![part_ident("halt")]),
        rule(vec![part_ident("halt")]),
        rule(vec![part_ident("nop")]),
    ]);
    let m = try_match(&matcher, vec![tok_ident("halt", 0)]).expect("halt should match");
    assert_eq!(m.rule_indices, vec![0, 1]);
}

#[test]
fn construction_is_deterministic() {
    let rules = || {
        vec![
            rule(vec![part_ident("halt")]),
            rule(vec![part_ident("load"), part_param(0)]),
            rule(vec![part_ident("load"), part_param(0), part_punct(TokenKind::Comma), part_param(1)]),
            rule(vec![part_ident("halt")]),
        ]
    };
    let m1 = RulePatternMatcher::new(&rules());
    let m2 = RulePatternMatcher::new(&rules());
    assert_eq!(m1.nodes.len(), m2.nodes.len());
    for (a, b) in m1.nodes.iter().zip(m2.nodes.iter()) {
        assert_eq!(a.rule_indices, b.rule_indices);
        assert_eq!(a.child_param, b.child_param);
        assert_eq!(a.children_exact.len(), b.children_exact.len());
        for (x, y) in a.children_exact.iter().zip(b.children_exact.iter()) {
            assert_eq!(x.0, y.0);
            assert_eq!(x.1, y.1);
        }
    }
}

#[test]
fn exact_branch_is_preferred_over_parameter() {
    let matcher = RulePatternMatcher::new(&vec![
        rule(vec![part_ident("load"), part_param(0)]),
        rule(vec![part_ident("load"), part_ident("pc")]),
    ]);
    let m = try_match(&matcher, vec![tok_ident("load", 0), tok_ident("pc", 5)])
        .expect("load pc should match");
    assert_eq!(m.rule_indices, vec![1]);
    assert!(m.exprs.is_empty());
}

#[test]
fn shared_prefix_backtracks_to_shorter_rule() {
    let matcher = RulePatternMatcher::new(&vec![
        rule(vec![part_ident("load"), part_param(0), part_punct(TokenKind::Comma), part_param(1)]),
        rule(vec![part_ident("load"), part_param(0)]),
    ]);
    let one = try_match(&matcher, vec![tok_ident("load", 0), tok_number(1, 5)])
        .expect("load 1 should match");
    assert_eq!(one.rule_indices, vec![1]);
    assert_eq!(one.exprs.len(), 1);
    let two = try_match(
        &matcher,
        vec![
            tok_ident("load", 0),
            tok_number(1, 5),
            tok_punct(TokenKind::Comma, 6),
            tok_number(2, 8),
        ],
    )
    .expect("load 1, 2 should match");
    assert_eq!(two.rule_indices, vec![0]);
    assert_eq!(two.exprs.len(), 2);
}

#[test]
fn failed_argument_parse_aborts_the_whole_attempt() {
    // The walk first follows the exact edge for `x` and fails to parse `#`
    // as an expression; that is fatal, so the root's parameter branch, which
    // could otherwise still have been tried, is not.
    let matcher = RulePatternMatcher::new(&vec![
        rule(vec![part_ident("x"), part_param(0)]),
        rule(vec![part_param(0), part_punct(TokenKind::Hash)]),
    ]);
    assert!(try_match(
        &matcher,
        vec![tok_ident("x", 0), tok_punct(TokenKind::Hash, 2)],
    )
    .is_none());
}

#[test]
fn matcher_is_reusable_across_lines() {
    let matcher = RulePatternMatcher::new(&vec![rule(vec![part_ident("halt")])]);
    assert!(try_match(&matcher, vec![tok_ident("halt", 0)]).is_some());
    assert!(try_match(&matcher, vec![tok_ident("x", 0)]).is_none());
    assert!(try_match(&matcher, vec![tok_ident("halt", 0)]).is_some());
}

#[test]
fn stream_checkpoints_restore() {
    let mut stream = TokenStream::new(vec![tok_ident("a", 0), tok_ident("b", 2)]);
    assert!(!stream.next_is_linebreak());
    let c = stream.save();
    stream.advance();
    stream.advance();
    assert!(stream.next_is_linebreak());
    stream.restore(c);
    assert!(!stream.next_is_linebreak());
    assert_eq!(stream.peek().excerpt.as_deref(), Some("a"));
}

#[test]
fn captured_expression_evaluates() {
    let matcher = RulePatternMatcher::new(&vec![rule(vec![part_ident("load"), part_param(0)])]);
    let m = try_match(&matcher, vec![tok_ident("load", 0), tok_ident("pc", 5)])
        .expect("load pc should match");
    assert_eq!(m.exprs.len(), 1);
    let mut vars = VarMap::new();
    vars.insert("pc".to_string(), ExpressionValue::Integer(Big::from_u64(0x8000)));
    let mut report = Report::new();
    let v = m.exprs[0].eval(&mut report, &vars).expect("pc should resolve");
    assert_eq!(v, ExpressionValue::Integer(Big::from_u64(0x8000)));
    assert!(report.errors.is_empty());
}

#[test]
fn identical_parameter_patterns_are_reported_together() {
    let matcher = RulePatternMatcher::new(&vec![
        rule(vec![part_ident("load"), part_param(0)]),
        rule(vec![part_ident("load"), part_param(0)]),
    ]);
    let m = try_match(&matcher, vec![tok_ident("load", 0), tok_number(7, 5)])
        .expect("load 7 should match");
    assert_eq!(m.rule_indices, vec![0, 1]);
    assert_eq!(m.exprs.len(), 1);
    expect_literal(&m.exprs[0], 7);
}
