use vstd::prelude::*;

verus! {

use vstd::arithmetic::power2::pow2;
use vstd::arithmetic::power2::lemma_pow2_pos;
use vstd::arithmetic::div_mod::lemma_fundamental_div_mod;
use vstd::arithmetic::div_mod::lemma_fundamental_div_mod_converse;
use vstd::math::abs;
use crate::Span;
use crate::spec_join;
use crate::bignum::Big;
use crate::bignum::trunc_div;
use crate::bignum::trunc_rem;
use crate::bignum::bit_and_int;
use crate::bignum::bit_or_int;
use crate::bignum::bit_xor_int;
use crate::bignum::big_add;
use crate::bignum::big_mul;
use crate::bignum::big_div;
use crate::bignum::big_rem;
use crate::bignum::big_sub;
use crate::bignum::big_shl;
use crate::bignum::big_shr;
use crate::bignum::big_and;
use crate::bignum::big_or;
use crate::bignum::big_xor;
use crate::bignum::big_cmp;
use crate::expression::Expression;
use crate::expression::ExpressionValue;
use crate::expression::ExpressionType;
use crate::expression::UnaryOp;
use crate::expression::BinaryOp;
use crate::expression::SpecValue;
use crate::expression::sv_type;

/// The recoverable ways in which evaluation can fail.
#[derive(Copy, Clone, Debug, PartialEq, Eq, Structural)]
pub enum EvalErrorKind {
    DivisionByZero,
    ModuloByZero,
    InvalidShiftAmount,
}

/// One recorded evaluation failure: what went wrong, and where.
#[derive(Copy, Clone, Debug, PartialEq, Eq, Structural)]
pub struct EvalFailure {
    pub kind: EvalErrorKind,
    pub span: Span,
}

/// The diagnostic sink: evaluation failures are recorded here, in order,
/// before the sentinel failure is surfaced to the caller.
#[derive(Debug)]
pub struct Report {
    pub errors: Vec<EvalFailure>,
}

impl View for Report {
    type V = Seq<EvalFailure>;

    open spec fn view(&self) -> Seq<EvalFailure> {
        self.errors@
    }
}

impl Report {
    pub fn new() -> (r: Report)
        ensures
            r@ == Seq::<EvalFailure>::empty(),
    {
        Report { errors: Vec::new() }
    }

    /// Records one failure.
    pub fn error_span(&mut self, kind: EvalErrorKind, span: Span)
        ensures
            final(self)@ == old(self)@.push((EvalFailure { kind, span })),
    {
        self.errors.push(EvalFailure { kind, span });
    }
}

/// The map denoted by an ordered list of bindings; an earlier binding for a
/// name shadows a later one.
pub open spec fn entries_map(s: Seq<(String, ExpressionValue)>) -> Map<Seq<char>, SpecValue>
    decreases s.len(),
{
    if s.len() == 0 {
        Map::empty()
    } else {
        entries_map(s.drop_first()).insert(s.first().0@, s.first().1@)
    }
}

/// The caller-supplied variable resolver: a finite list of name-to-value
/// bindings, viewed as a map from names to mathematical values.
pub struct VarMap {
    pub entries: Vec<(String, ExpressionValue)>,
}

impl View for VarMap {
    type V = Map<Seq<char>, SpecValue>;

    open spec fn view(&self) -> Map<Seq<char>, SpecValue> {
        entries_map(self.entries@)
    }
}

impl VarMap {
    /// Every bound value is in canonical form.
    pub open spec fn wf(&self) -> bool {
        forall|i: int| 0 <= i < self.entries@.len() ==> (#[trigger] self.entries@[i]).1.wf()
    }

    pub fn new() -> (r: VarMap)
        ensures
            r.wf(),
            r@ == Map::<Seq<char>, SpecValue>::empty(),
    {
        VarMap { entries: Vec::new() }
    }

    /// Binds a name; a new binding shadows any older one for the same name.
    pub fn insert(&mut self, name: String, value: ExpressionValue)
        requires
            old(self).wf(),
            value.wf(),
        ensures
            final(self).wf(),
            final(self)@ == old(self)@.insert(name@, value@),
    {
        proof {
            let n = name@;
            let v = value@;
            let olds = self.entries@;
            assert(olds.insert(0, (name, value)).drop_first() =~= olds);
            assert(olds.insert(0, (name, value)).first() == (name, value));
        }
        self.entries.insert(0, (name, value));
    }

    fn lookup_from(&self, i: usize, name: &String) -> (r: Option<&ExpressionValue>)
        requires
            self.wf(),
            i <= self.entries@.len(),
        ensures
            match r {
                Some(v) => entries_map(self.entries@.skip(i as int)).contains_key(name@)
                    && v@ == entries_map(self.entries@.skip(i as int))[name@] && v.wf(),
                None => !entries_map(self.entries@.skip(i as int)).contains_key(name@),
            },
        decreases self.entries@.len() - i,
    {
        if i == self.entries.len() {
            proof {
                assert(self.entries@.skip(i as int) =~= Seq::<(String, ExpressionValue)>::empty());
            }
            None
        } else {
            proof {
                assert(self.entries@.skip(i as int).drop_first() =~= self.entries@.skip(
                    i as int + 1,
                ));
                assert(self.entries@.skip(i as int).first() == self.entries@[i as int]);
            }
            let e = &self.entries[i];
            if e.0 == *name {
                Some(&e.1)
            } else {
                self.lookup_from(i + 1, name)
            }
        }
    }

    /// Resolves a name to its bound value, if any.
    pub fn get(&self, name: &String) -> (r: Option<&ExpressionValue>)
        requires
            self.wf(),
        ensures
            match r {
                Some(v) => self@.contains_key(name@) && v@ == self@[name@] && v.wf(),
                None => !self@.contains_key(name@),
            },
    {
        proof {
            assert(self.entries@.skip(0) =~= self.entries@);
        }
        self.lookup_from(0, name)
    }
}

/// The typing environment induced by a variable resolver: each bound name has
/// the type of its value.
pub open spec fn type_env(m: Map<Seq<char>, SpecValue>) -> Map<Seq<char>, ExpressionType> {
    Map::new(|k: Seq<char>| m.contains_key(k), |k: Seq<char>| sv_type(m[k]))
}

/// The result type of a binary operator on two integers, or `None` where the
/// combination indicates an upstream typing defect.
pub open spec fn int_binary_type(op: BinaryOp) -> Option<ExpressionType> {
    match op {
        BinaryOp::Add | BinaryOp::Sub | BinaryOp::Mul | BinaryOp::Div | BinaryOp::Mod
        | BinaryOp::Shl | BinaryOp::Shr | BinaryOp::UShr | BinaryOp::And | BinaryOp::Or
        | BinaryOp::Xor => Some(ExpressionType::Integer),
        BinaryOp::Eq | BinaryOp::Ne | BinaryOp::Lt | BinaryOp::Le | BinaryOp::Gt
        | BinaryOp::Ge => Some(ExpressionType::Bool),
        BinaryOp::LazyAnd | BinaryOp::LazyOr | BinaryOp::Concat => None,
    }
}

/// The result type of a binary operator on two booleans.
pub open spec fn bool_binary_type(op: BinaryOp) -> Option<ExpressionType> {
    match op {
        BinaryOp::And | BinaryOp::Or | BinaryOp::Xor | BinaryOp::LazyAnd | BinaryOp::LazyOr
        | BinaryOp::Eq | BinaryOp::Ne => Some(ExpressionType::Bool),
        _ => None,
    }
}

/// Static type of an expression under a typing environment. `None` marks the
/// upstream typing defects that evaluation treats as unreachable.
pub open spec fn spec_type(e: &Expression, tenv: Map<Seq<char>, ExpressionType>) -> Option<
    ExpressionType,
>
    decreases e,
{
    match e {
        Expression::Literal(_, v) => Some(sv_type(v@)),
        Expression::Variable(_, name) => if tenv.contains_key(name@) {
            Some(tenv[name@])
        } else {
            None
        },
        Expression::UnaryOp(_, _, op, inner) => match (*op, spec_type(inner, tenv)) {
            (UnaryOp::Neg, Some(ExpressionType::Integer)) => Some(ExpressionType::Integer),
            (UnaryOp::Not, Some(ExpressionType::Integer)) => Some(ExpressionType::Integer),
            (UnaryOp::Not, Some(ExpressionType::Bool)) => Some(ExpressionType::Bool),
            _ => None,
        },
        Expression::BinaryOp(_, _, op, lhs, rhs) => match (
            spec_type(lhs, tenv),
            spec_type(rhs, tenv),
        ) {
            (Some(ExpressionType::Integer), Some(ExpressionType::Integer)) => int_binary_type(*op),
            (Some(ExpressionType::Bool), Some(ExpressionType::Bool)) => bool_binary_type(*op),
            _ => None,
        },
        Expression::BitSlice(_, _, left, right, inner) => if spec_type(inner, tenv) == Some(
            ExpressionType::Integer,
        ) && *right <= *left && *left - *right < usize::MAX {
            Some(ExpressionType::Integer)
        } else {
            None
        },
    }
}

/// The outcome of evaluating an expression: a value, or a span-carrying
/// failure.
pub enum EvalOutcome {
    Value(SpecValue),
    Failure(EvalErrorKind, Span),
}

/// The value or failure of one binary operator applied to two already
/// evaluated operands. Comparisons fold both operands to their absolute value
/// before comparing; the failure span joins the operator to the right
/// operand.
pub open spec fn spec_apply_binary(
    op: BinaryOp,
    lv: SpecValue,
    rv: SpecValue,
    op_span: Span,
    rhs_span: Span,
) -> EvalOutcome {
    match (lv, rv) {
        (SpecValue::Int(a), SpecValue::Int(b)) => match op {
            BinaryOp::Add => EvalOutcome::Value(SpecValue::Int(a + b)),
            BinaryOp::Sub => EvalOutcome::Value(SpecValue::Int(a - b)),
            BinaryOp::Mul => EvalOutcome::Value(SpecValue::Int(a * b)),
            BinaryOp::Div => if b == 0 {
                EvalOutcome::Failure(EvalErrorKind::DivisionByZero, spec_join(op_span, rhs_span))
            } else {
                EvalOutcome::Value(SpecValue::Int(trunc_div(a, b)))
            },
            BinaryOp::Mod => if b == 0 {
                EvalOutcome::Failure(EvalErrorKind::ModuloByZero, spec_join(op_span, rhs_span))
            } else {
                EvalOutcome::Value(SpecValue::Int(trunc_rem(a, b)))
            },
            BinaryOp::Shl => if 0 <= b && b < 0x1_0000_0000_0000_0000 {
                EvalOutcome::Value(SpecValue::Int(a * pow2(b as nat)))
            } else {
                EvalOutcome::Failure(
                    EvalErrorKind::InvalidShiftAmount,
                    spec_join(op_span, rhs_span),
                )
            },
            BinaryOp::Shr => if 0 <= b && b < 0x1_0000_0000_0000_0000 {
                EvalOutcome::Value(SpecValue::Int(a / pow2(b as nat) as int))
            } else {
                EvalOutcome::Failure(
                    EvalErrorKind::InvalidShiftAmount,
                    spec_join(op_span, rhs_span),
                )
            },
            BinaryOp::UShr => if 0 <= b && b < 0x1_0000_0000_0000_0000 {
                EvalOutcome::Value(SpecValue::Int(abs(a) as int / pow2(b as nat) as int))
            } else {
                EvalOutcome::Failure(
                    EvalErrorKind::InvalidShiftAmount,
                    spec_join(op_span, rhs_span),
                )
            },
            BinaryOp::And => EvalOutcome::Value(SpecValue::Int(bit_and_int(a, b))),
            BinaryOp::Or => EvalOutcome::Value(SpecValue::Int(bit_or_int(a, b))),
            BinaryOp::Xor => EvalOutcome::Value(SpecValue::Int(bit_xor_int(a, b))),
            BinaryOp::Eq => EvalOutcome::Value(SpecValue::Bool(abs(a) == abs(b))),
            BinaryOp::Ne => EvalOutcome::Value(SpecValue::Bool(abs(a) != abs(b))),
            BinaryOp::Lt => EvalOutcome::Value(SpecValue::Bool(abs(a) < abs(b))),
            BinaryOp::Le => EvalOutcome::Value(SpecValue::Bool(abs(a) <= abs(b))),
            BinaryOp::Gt => EvalOutcome::Value(SpecValue::Bool(abs(a) > abs(b))),
            BinaryOp::Ge => EvalOutcome::Value(SpecValue::Bool(abs(a) >= abs(b))),
            _ => arbitrary(),
        },
        (SpecValue::Bool(a), SpecValue::Bool(b)) => match op {
            BinaryOp::And | BinaryOp::LazyAnd => EvalOutcome::Value(SpecValue::Bool(a && b)),
            BinaryOp::Or | BinaryOp::LazyOr => EvalOutcome::Value(SpecValue::Bool(a || b)),
            BinaryOp::Xor => EvalOutcome::Value(SpecValue::Bool(a != b)),
            BinaryOp::Eq => EvalOutcome::Value(SpecValue::Bool(a == b)),
            BinaryOp::Ne => EvalOutcome::Value(SpecValue::Bool(a != b)),
            _ => arbitrary(),
        },
        _ => arbitrary(),
    }
}

/// Depth-first evaluation of a well-typed expression: left operand before
/// right operand, short-circuiting on the first failure.
pub open spec fn spec_eval(e: &Expression, m: Map<Seq<char>, SpecValue>) -> EvalOutcome
    decreases e,
{
    match e {
        Expression::Literal(_, v) => EvalOutcome::Value(v@),
        Expression::Variable(_, name) => if m.contains_key(name@) {
            EvalOutcome::Value(m[name@])
        } else {
            arbitrary()
        },
        Expression::UnaryOp(_, _, op, inner) => match spec_eval(inner, m) {
            EvalOutcome::Failure(k, s) => EvalOutcome::Failure(k, s),
            EvalOutcome::Value(v) => match (*op, v) {
                (UnaryOp::Neg, SpecValue::Int(x)) => EvalOutcome::Value(SpecValue::Int(-x)),
                (UnaryOp::Not, SpecValue::Int(x)) => EvalOutcome::Value(SpecValue::Int(-x - 1)),
                (UnaryOp::Not, SpecValue::Bool(b)) => EvalOutcome::Value(SpecValue::Bool(!b)),
                _ => arbitrary(),
            },
        },
        Expression::BinaryOp(_, op_span, op, lhs, rhs) => match spec_eval(lhs, m) {
            EvalOutcome::Failure(k, s) => EvalOutcome::Failure(k, s),
            EvalOutcome::Value(lv) => match spec_eval(rhs, m) {
                EvalOutcome::Failure(k, s) => EvalOutcome::Failure(k, s),
                EvalOutcome::Value(rv) => spec_apply_binary(*op, lv, rv, *op_span, rhs.spec_span()),
            },
        },
        Expression::BitSlice(_, _, left, right, inner) => match spec_eval(inner, m) {
            EvalOutcome::Failure(k, s) => EvalOutcome::Failure(k, s),
            EvalOutcome::Value(SpecValue::Int(x)) => EvalOutcome::Value(
                SpecValue::Int(
                    (x / pow2(*right as nat) as int) % pow2((*left - *right + 1) as nat) as int,
                ),
            ),
            _ => arbitrary(),
        },
    }
}

/// The truncating remainder by a positive modulus differs from the Euclidean
/// remainder only when it is negative, and then exactly by the modulus.
proof fn lemma_trunc_rem_to_euclid(s: int, m: int)
    requires
        m > 0,
    ensures
        trunc_rem(s, m) >= 0 ==> trunc_rem(s, m) == s % m,
        trunc_rem(s, m) < 0 ==> s % m == trunc_rem(s, m) + m,
{
    let q = trunc_div(s, m);
    let r = trunc_rem(s, m);
    if s >= 0 {
        lemma_fundamental_div_mod(s, m);
        assert(q == s / m);
        assert(r == s % m);
    } else {
        let a = abs(s) as int;
        lemma_fundamental_div_mod(a, m);
        let k = a / m;
        let rr = a % m;
        assert(q == -k);
        assert(r == s - m * q);
        assert(m * (-k) == -(m * k)) by (nonlinear_arith);
        assert(a == m * k + rr);
        assert(r == -rr);
        if rr == 0 {
            assert(s == (-k) * m + 0) by (nonlinear_arith)
                requires
                    a == m * k + rr,
                    rr == 0,
                    s == -a,
            ;
            lemma_fundamental_div_mod_converse(s, m, -k, 0);
        } else {
            assert(s == (-k - 1) * m + (m - rr)) by (nonlinear_arith)
                requires
                    a == m * k + rr,
                    s == -a,
            ;
            lemma_fundamental_div_mod_converse(s, m, -k - 1, m - rr);
        }
    }
}

/// Law: for any integer operands, division by zero fails with
/// `DivisionByZero`, and modulo by zero with `ModuloByZero`, each at the span
/// joining the operator to the right operand.
pub proof fn lemma_division_by_zero(
    whole: Span,
    op_span: Span,
    lhs: Box<Expression>,
    rhs: Box<Expression>,
    m: Map<Seq<char>, SpecValue>,
    a: int,
    b: int,
)
    requires
        spec_eval(&lhs, m) == EvalOutcome::Value(SpecValue::Int(a)),
        spec_eval(&rhs, m) == EvalOutcome::Value(SpecValue::Int(b)),
        b == 0,
    ensures
        spec_eval(&Expression::BinaryOp(whole, op_span, BinaryOp::Div, lhs, rhs), m)
            == EvalOutcome::Failure(
            EvalErrorKind::DivisionByZero,
            spec_join(op_span, rhs.spec_span()),
        ),
        spec_eval(&Expression::BinaryOp(whole, op_span, BinaryOp::Mod, lhs, rhs), m)
            == EvalOutcome::Failure(
            EvalErrorKind::ModuloByZero,
            spec_join(op_span, rhs.spec_span()),
        ),
{
}

/// Law: a shift whose right operand is negative or not representable as a
/// 64-bit count fails with `InvalidShiftAmount`, at the span joining the
/// operator to the right operand, for all three shift operators.
pub proof fn lemma_invalid_shift_amount(
    whole: Span,
    op_span: Span,
    op: BinaryOp,
    lhs: Box<Expression>,
    rhs: Box<Expression>,
    m: Map<Seq<char>, SpecValue>,
    a: int,
    b: int,
)
    requires
        spec_eval(&lhs, m) == EvalOutcome::Value(SpecValue::Int(a)),
        spec_eval(&rhs, m) == EvalOutcome::Value(SpecValue::Int(b)),
        b < 0 || b >= 0x1_0000_0000_0000_0000,
        op == BinaryOp::Shl || op == BinaryOp::Shr || op == BinaryOp::UShr,
    ensures
        spec_eval(&Expression::BinaryOp(whole, op_span, op, lhs, rhs), m) == EvalOutcome::Failure(
            EvalErrorKind::InvalidShiftAmount,
            spec_join(op_span, rhs.spec_span()),
        ),
{
}

/// Law: integer comparisons discard sign. Comparing any two integers gives
/// the same outcome as comparing their absolute values.
pub proof fn lemma_comparison_discards_sign(
    op: BinaryOp,
    a: int,
    b: int,
    op_span: Span,
    rhs_span: Span,
)
    requires
        op == BinaryOp::Eq || op == BinaryOp::Ne || op == BinaryOp::Lt || op == BinaryOp::Le || op
            == BinaryOp::Gt || op == BinaryOp::Ge,
    ensures
        spec_apply_binary(op, SpecValue::Int(a), SpecValue::Int(b), op_span, rhs_span)
            == spec_apply_binary(
            op,
            SpecValue::Int(abs(a) as int),
            SpecValue::Int(abs(b) as int),
            op_span,
            rhs_span,
        ),
{
}

impl Expression {
    /// Evaluates the expression depth first, resolving variables through
    /// `vars` and recording any failure in `report`. The outcome, the
    /// recorded diagnostic and its span are exactly those of `spec_eval`.
    pub fn eval(&self, report: &mut Report, vars: &VarMap) -> (r: Result<ExpressionValue, ()>)
        requires
            self.wf(),
            vars.wf(),
            spec_type(self, type_env(vars@)) is Some,
        ensures
            match spec_eval(self, vars@) {
                EvalOutcome::Value(v) => match r {
                    Ok(val) => val@ == v && val.wf() && spec_type(self, type_env(vars@)) == Some(
                        sv_type(v),
                    ) && final(report)@ == old(report)@,
                    Err(_) => false,
                },
                EvalOutcome::Failure(k, s) => r is Err && final(report)@ == old(report)@.push(
                    (EvalFailure { kind: k, span: s }),
                ),
            },
        decreases self,
    {
        match self {
            Expression::Literal(_, v) => Ok(v.duplicate()),
            Expression::Variable(_, name) => match vars.get(name) {
                Some(v) => Ok(v.duplicate()),
                None => {
                    proof {
                        assert(false);
                    }
                    Err(())
                },
            },
            Expression::UnaryOp(_, _, op, inner) => {
                let iv = inner.eval(report, vars)?;
                match (*op, &iv) {
                    (UnaryOp::Neg, ExpressionValue::Integer(b)) => Ok(
                        ExpressionValue::Integer(b.negated()),
                    ),
                    (UnaryOp::Not, ExpressionValue::Integer(b)) => {
                        let neg_one = Big::from_u64(1).negated();
                        Ok(ExpressionValue::Integer(big_sub(&neg_one, b)))
                    },
                    (UnaryOp::Not, ExpressionValue::Bool(b)) => Ok(ExpressionValue::Bool(!*b)),
                    _ => {
                        proof {
                            assert(false);
                        }
                        Err(())
                    },
                }
            },
            Expression::BinaryOp(_, op_span, op, lhs, rhs) => {
                let lv = lhs.eval(report, vars)?;
                let rv = rhs.eval(report, vars)?;
                match (&lv, &rv) {
                    (ExpressionValue::Integer(a), ExpressionValue::Integer(b)) => self
                        .eval_binary_int(op_span, *op, a, b, rhs, report),
                    (ExpressionValue::Bool(a), ExpressionValue::Bool(b)) => match op {
                        BinaryOp::And | BinaryOp::LazyAnd => Ok(ExpressionValue::Bool(*a && *b)),
                        BinaryOp::Or | BinaryOp::LazyOr => Ok(ExpressionValue::Bool(*a || *b)),
                        BinaryOp::Xor => Ok(ExpressionValue::Bool(*a != *b)),
                        BinaryOp::Eq => Ok(ExpressionValue::Bool(*a == *b)),
                        BinaryOp::Ne => Ok(ExpressionValue::Bool(*a != *b)),
                        _ => {
                            proof {
                                assert(false);
                            }
                            Err(())
                        },
                    },
                    _ => {
                        proof {
                            assert(false);
                        }
                        Err(())
                    },
                }
            },
            Expression::BitSlice(_, _, left, right, inner) => {
                let iv = inner.eval(report, vars)?;
                match &iv {
                    ExpressionValue::Integer(x) => {
                        let width: usize = *left - *right + 1;
                        let shifted = big_shr(x, *right as u64);
                        let one = Big::from_u64(1);
                        let modulus = big_shl(&one, width as u64);
                        proof {
                            lemma_pow2_pos(width as nat);
                        }
                        let r0 = big_rem(&shifted, &modulus);
                        proof {
                            lemma_trunc_rem_to_euclid(shifted@, modulus@);
                        }
                        if r0.is_negative() {
                            Ok(ExpressionValue::Integer(big_add(&r0, &modulus)))
                        } else {
                            Ok(ExpressionValue::Integer(r0))
                        }
                    },
                    _ => {
                        proof {
                            assert(false);
                        }
                        Err(())
                    },
                }
            },
        }
    }

    /// One binary operator applied to two integer operands, recording the
    /// failure and its span where the operator demands it.
    fn eval_binary_int(
        &self,
        op_span: &Span,
        op: BinaryOp,
        a: &Big,
        b: &Big,
        rhs: &Expression,
        report: &mut Report,
    ) -> (r: Result<ExpressionValue, ()>)
        requires
            a.wf(),
            b.wf(),
            int_binary_type(op) is Some,
        ensures
            match spec_apply_binary(
                op,
                SpecValue::Int(a@),
                SpecValue::Int(b@),
                *op_span,
                rhs.spec_span(),
            ) {
                EvalOutcome::Value(v) => match r {
                    Ok(val) => val@ == v && val.wf() && sv_type(v) == int_binary_type(op).unwrap()
                        && final(report)@ == old(report)@,
                    Err(_) => false,
                },
                EvalOutcome::Failure(k, s) => r is Err && final(report)@ == old(report)@.push(
                    (EvalFailure { kind: k, span: s }),
                ),
            },
    {
        match op {
            BinaryOp::Add => Ok(ExpressionValue::Integer(big_add(a, b))),
            BinaryOp::Sub => Ok(ExpressionValue::Integer(big_sub(a, b))),
            BinaryOp::Mul => Ok(ExpressionValue::Integer(big_mul(a, b))),
            BinaryOp::Div => {
                if b.is_zero() {
                    report.error_span(EvalErrorKind::DivisionByZero, op_span.join(&rhs.span()));
                    Err(())
                } else {
                    Ok(ExpressionValue::Integer(big_div(a, b)))
                }
            },
            BinaryOp::Mod => {
                if b.is_zero() {
                    report.error_span(EvalErrorKind::ModuloByZero, op_span.join(&rhs.span()));
                    Err(())
                } else {
                    Ok(ExpressionValue::Integer(big_rem(a, b)))
                }
            },
            BinaryOp::Shl => match b.to_shift_amount() {
                Some(n) => Ok(ExpressionValue::Integer(big_shl(a, n))),
                None => {
                    report.error_span(
                        EvalErrorKind::InvalidShiftAmount,
                        op_span.join(&rhs.span()),
                    );
                    Err(())
                },
            },
            BinaryOp::Shr => match b.to_shift_amount() {
                Some(n) => Ok(ExpressionValue::Integer(big_shr(a, n))),
                None => {
                    report.error_span(
                        EvalErrorKind::InvalidShiftAmount,
                        op_span.join(&rhs.span()),
                    );
                    Err(())
                },
            },
            BinaryOp::UShr => match b.to_shift_amount() {
                Some(n) => Ok(ExpressionValue::Integer(big_shr(&a.magnitude(), n))),
                None => {
                    report.error_span(
                        EvalErrorKind::InvalidShiftAmount,
                        op_span.join(&rhs.span()),
                    );
                    Err(())
                },
            },
            BinaryOp::And => Ok(ExpressionValue::Integer(big_and(a, b))),
            BinaryOp::Or => Ok(ExpressionValue::Integer(big_or(a, b))),
            BinaryOp::Xor => Ok(ExpressionValue::Integer(big_xor(a, b))),
            BinaryOp::Eq => {
                let c = big_cmp(&a.magnitude(), &b.magnitude());
                Ok(ExpressionValue::Bool(c == 0))
            },
            BinaryOp::Ne => {
                let c = big_cmp(&a.magnitude(), &b.magnitude());
                Ok(ExpressionValue::Bool(c != 0))
            },
            BinaryOp::Lt => {
                let c = big_cmp(&a.magnitude(), &b.magnitude());
                Ok(ExpressionValue::Bool(c == -1))
            },
            BinaryOp::Le => {
                let c = big_cmp(&a.magnitude(), &b.magnitude());
                Ok(ExpressionValue::Bool(c != 1))
            },
            BinaryOp::Gt => {
                let c = big_cmp(&a.magnitude(), &b.magnitude());
                Ok(ExpressionValue::Bool(c == 1))
            },
            BinaryOp::Ge => {
                let c = big_cmp(&a.magnitude(), &b.magnitude());
                Ok(ExpressionValue::Bool(c != -1))
            },
            _ => {
                proof {
                    assert(false);
                }
                Err(())
            },
        }
    }
}

} // verus!
