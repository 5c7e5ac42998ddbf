use asmcore::Span;
use asmcore::bignum::Big;
use asmcore::eval::{EvalErrorKind, EvalFailure, Report, VarMap};
use asmcore::expression::{BinaryOp, Expression, ExpressionType, ExpressionValue, UnaryOp};

fn sp(start: usize, end: usize) -> Span {
    Span { start, end }
}

fn pos(v: u64) -> ExpressionValue {
    ExpressionValue::Integer(Big::from_u64(v))
}

fn neg(v: u64) -> ExpressionValue {
    ExpressionValue::Integer(Big::from_u64(v).negated())
}

fn lit(v: ExpressionValue) -> Expression {
    Expression::Literal(sp(0, 1), v)
}

fn lit_at(v: ExpressionValue, start: usize, end: usize) -> Expression {
    Expression::Literal(sp(start, end), v)
}

fn binop(op: BinaryOp, lhs: Expression, rhs: Expression) -> Expression {
    Expression::BinaryOp(sp(0, 9), sp(4, 5), op, Box::new(lhs), Box::new(rhs))
}

fn eval_value(e: &Expression) -> ExpressionValue {
    let mut report = Report::new();
    let vars = VarMap::new();
    let r = e.eval(&mut report, &vars).expect("evaluation should succeed");
    assert!(report.errors.is_empty());
    r
}

fn eval_failure(e: &Expression) -> Vec<EvalFailure> {
    let mut report = Report::new();
    let vars = VarMap::new();
    let r = e.eval(&mut report, &vars);
    assert!(r.is_err());
    report.errors
}

fn assert_int(e: &Expression, expected: ExpressionValue) {
    assert_eq!(eval_value(e), expected);
}

fn assert_bool(e: &Expression, expected: bool) {
    assert_eq!(eval_value(e), ExpressionValue::Bool(expected));
}

#[test]
fn literal_and_variable() {
    assert_int(&lit(pos(42)), pos(42));
    let mut vars = VarMap::new();
    let mut report = Report::new();
    vars.insert("pc".to_string(), pos(0x8000));
    let e = Expression::Variable(sp(0, 2), "pc".to_string());
    assert_eq!(e.eval(&mut report, &vars).unwrap(), pos(0x8000));
}

#[test]
fn variable_shadowing_uses_newest_binding() {
    let mut vars = VarMap::new();
    let mut report = Report::new();
    vars.insert("a".to_string(), pos(1));
    vars.insert("a".to_string(), pos(2));
    let e = Expression::Variable(sp(0, 1), "a".to_string());
    assert_eq!(e.eval(&mut report, &vars).unwrap(), pos(2));
}

#[test]
fn exact_arithmetic() {
    assert_int(&binop(BinaryOp::Add, lit(pos(2)), lit(pos(3))), pos(5));
    assert_int(&binop(BinaryOp::Sub, lit(pos(2)), lit(pos(3))), neg(1));
    assert_int(&binop(BinaryOp::Mul, lit(pos(7)), lit(pos(6))), pos(42));
    assert_int(&binop(BinaryOp::Mul, lit(neg(7)), lit(pos(6))), neg(42));
}

#[test]
fn large_values_stay_exact() {
    let big = binop(
        BinaryOp::Mul,
        lit(pos(0xffff_ffff_ffff_ffff)),
        lit(pos(0xffff_ffff_ffff_ffff)),
    );
    let twice = binop(BinaryOp::Div, big, lit(pos(0xffff_ffff_ffff_ffff)));
    assert_int(&twice, pos(0xffff_ffff_ffff_ffff));
}

#[test]
fn division_truncates_toward_zero() {
    assert_int(&binop(BinaryOp::Div, lit(pos(7)), lit(pos(2))), pos(3));
    assert_int(&binop(BinaryOp::Div, lit(neg(7)), lit(pos(2))), neg(3));
    assert_int(&binop(BinaryOp::Mod, lit(pos(7)), lit(pos(2))), pos(1));
    assert_int(&binop(BinaryOp::Mod, lit(neg(7)), lit(pos(2))), neg(1));
}

#[test]
fn division_by_zero_reports_joined_span() {
    let rhs = lit_at(pos(0), 6, 7);
    let e = Expression::BinaryOp(
        sp(0, 7),
        sp(4, 5),
        BinaryOp::Div,
        Box::new(lit_at(pos(1), 0, 1)),
        Box::new(rhs),
    );
    let errors = eval_failure(&e);
    assert_eq!(
        errors,
        vec![EvalFailure { kind: EvalErrorKind::DivisionByZero, span: sp(4, 7) }]
    );
}

#[test]
fn modulo_by_zero_reports_joined_span() {
    let e = Expression::BinaryOp(
        sp(0, 7),
        sp(4, 5),
        BinaryOp::Mod,
        Box::new(lit_at(pos(9), 0, 1)),
        Box::new(lit_at(pos(0), 6, 7)),
    );
    let errors = eval_failure(&e);
    assert_eq!(
        errors,
        vec![EvalFailure { kind: EvalErrorKind::ModuloByZero, span: sp(4, 7) }]
    );
}

#[test]
fn leftmost_failure_wins() {
    let bad = binop(BinaryOp::Div, lit(pos(1)), lit(pos(0)));
    let also_bad = binop(BinaryOp::Mod, lit(pos(2)), lit(pos(0)));
    let e = binop(BinaryOp::Add, bad, also_bad);
    let errors = eval_failure(&e);
    assert_eq!(errors.len(), 1);
    assert_eq!(errors[0].kind, EvalErrorKind::DivisionByZero);
}

#[test]
fn negative_shift_amount_fails() {
    for op in [BinaryOp::Shl, BinaryOp::Shr, BinaryOp::UShr] {
        let e = binop(op, lit(pos(1)), lit(neg(1)));
        let errors = eval_failure(&e);
        assert_eq!(errors[0].kind, EvalErrorKind::InvalidShiftAmount);
    }
}

#[test]
fn unrepresentable_shift_amount_fails() {
    // 2^64 is not representable as a shift count.
    let huge = binop(BinaryOp::Shl, lit(pos(1)), lit(pos(64)));
    let count = eval_value(&huge);
    for op in [BinaryOp::Shl, BinaryOp::Shr, BinaryOp::UShr] {
        let e = binop(op, lit(pos(1)), lit(count.clone()));
        let errors = eval_failure(&e);
        assert_eq!(errors[0].kind, EvalErrorKind::InvalidShiftAmount);
    }
}

#[test]
fn shifts() {
    assert_int(&binop(BinaryOp::Shl, lit(pos(3)), lit(pos(4))), pos(48));
    assert_int(&binop(BinaryOp::Shr, lit(pos(5)), lit(pos(1))), pos(2));
    // Arithmetic right shift rounds toward negative infinity.
    assert_int(&binop(BinaryOp::Shr, lit(neg(5)), lit(pos(1))), neg(3));
    // The unsigned shift folds the left operand to its absolute value first.
    assert_int(&binop(BinaryOp::UShr, lit(neg(16)), lit(pos(2))), pos(4));
    assert_int(&binop(BinaryOp::Shl, lit(neg(3)), lit(pos(2))), neg(12));
}

#[test]
fn comparisons_discard_sign() {
    assert_bool(&binop(BinaryOp::Eq, lit(neg(5)), lit(pos(5))), true);
    assert_bool(&binop(BinaryOp::Gt, lit(neg(5)), lit(pos(3))), true);
    assert_bool(&binop(BinaryOp::Lt, lit(neg(5)), lit(pos(3))), false);
    assert_bool(&binop(BinaryOp::Ne, lit(neg(5)), lit(pos(5))), false);
    assert_bool(&binop(BinaryOp::Le, lit(pos(5)), lit(neg(5))), true);
    assert_bool(&binop(BinaryOp::Ge, lit(pos(3)), lit(neg(5))), false);
}

#[test]
fn bitwise_over_twos_complement() {
    assert_int(&binop(BinaryOp::And, lit(neg(5)), lit(pos(3))), pos(3));
    assert_int(&binop(BinaryOp::Or, lit(neg(5)), lit(pos(3))), neg(5));
    assert_int(&binop(BinaryOp::Xor, lit(neg(5)), lit(pos(3))), neg(8));
    assert_int(&binop(BinaryOp::And, lit(pos(0xf0)), lit(pos(0x3c))), pos(0x30));
    assert_int(&binop(BinaryOp::Or, lit(pos(0xf0)), lit(pos(0x3c))), pos(0xfc));
    assert_int(&binop(BinaryOp::Xor, lit(pos(0xf0)), lit(pos(0x3c))), pos(0xcc));
}

#[test]
fn unary_operators() {
    let e = Expression::UnaryOp(sp(0, 2), sp(0, 1), UnaryOp::Neg, Box::new(lit(pos(5))));
    assert_int(&e, neg(5));
    let e = Expression::UnaryOp(sp(0, 2), sp(0, 1), UnaryOp::Not, Box::new(lit(pos(5))));
    assert_int(&e, neg(6));
    let e = Expression::UnaryOp(sp(0, 2), sp(0, 1), UnaryOp::Not, Box::new(lit(neg(1))));
    assert_int(&e, pos(0));
    let e = Expression::UnaryOp(
        sp(0, 2),
        sp(0, 1),
        UnaryOp::Not,
        Box::new(lit(ExpressionValue::Bool(true))),
    );
    assert_bool(&e, false);
}

#[test]
fn boolean_operators() {
    let t = || lit(ExpressionValue::Bool(true));
    let f = || lit(ExpressionValue::Bool(false));
    assert_bool(&binop(BinaryOp::And, t(), f()), false);
    assert_bool(&binop(BinaryOp::LazyAnd, t(), f()), false);
    assert_bool(&binop(BinaryOp::Or, t(), f()), true);
    assert_bool(&binop(BinaryOp::LazyOr, f(), f()), false);
    assert_bool(&binop(BinaryOp::Xor, t(), f()), true);
    assert_bool(&binop(BinaryOp::Eq, t(), t()), true);
    assert_bool(&binop(BinaryOp::Ne, t(), t()), false);
}

#[test]
fn bit_slice_extracts_ranges() {
    let slice = |left: usize, right: usize, v: ExpressionValue| {
        Expression::BitSlice(sp(0, 9), sp(6, 9), left, right, Box::new(lit(v)))
    };
    assert_int(&slice(7, 0, pos(0x1234)), pos(0x34));
    assert_int(&slice(15, 8, pos(0x1234)), pos(0x12));
    assert_int(&slice(3, 0, pos(0x1234)), pos(0x4));
    assert_int(&slice(0, 0, pos(5)), pos(1));
    // Over a negative value the conceptual two's-complement form is sliced:
    // -1 is all ones.
    assert_int(&slice(7, 0, neg(1)), pos(0xff));
    assert_int(&slice(7, 0, neg(2)), pos(0xfe));
}

#[test]
fn expression_span_and_join() {
    let e = binop(BinaryOp::Add, lit(pos(1)), lit(pos(2)));
    assert_eq!(e.span(), sp(0, 9));
    assert_eq!(sp(4, 5).join(&sp(6, 9)), sp(4, 9));
    assert_eq!(sp(6, 9).join(&sp(4, 5)), sp(4, 9));
}

#[test]
fn value_types() {
    assert!(pos(1).is_of_type(ExpressionType::Integer));
    assert!(!pos(1).is_of_type(ExpressionType::Bool));
    assert!(ExpressionValue::Bool(false).is_of_type(ExpressionType::Bool));
    assert!(!ExpressionValue::Bool(false).is_of_type(ExpressionType::Integer));
}

#[test]
fn bignum_representation() {
    assert_eq!(Big::from_u64(0).digits.len(), 0);
    assert!(!Big::from_u64(0).neg);
    assert_eq!(Big::from_u64(5).to_shift_amount(), Some(5));
    assert_eq!(Big::from_u64(0xffff_ffff_ffff_ffff).to_shift_amount(), Some(0xffff_ffff_ffff_ffff));
    assert_eq!(Big::from_u64(7).negated().to_shift_amount(), None);
    assert!(Big::from_u64(7).negated().is_negative());
    assert!(!Big::from_u64(7).is_negative());
    assert!(Big::from_u64(0).is_zero());
    assert_eq!(Big::from_u64(9).negated().magnitude(), Big::from_u64(9));
    assert_eq!(Big::from_u64(9).duplicate(), Big::from_u64(9));
}

#[test]
fn report_records_in_order() {
    let mut report = Report::new();
    report.error_span(EvalErrorKind::DivisionByZero, sp(1, 2));
    report.error_span(EvalErrorKind::InvalidShiftAmount, sp(3, 4));
    assert_eq!(
        report.errors,
        vec![
            EvalFailure { kind: EvalErrorKind::DivisionByZero, span: sp(1, 2) },
            EvalFailure { kind: EvalErrorKind::InvalidShiftAmount, span: sp(3, 4) },
        ]
    );
}
