use vstd::prelude::*;

verus! {

use crate::Span;
use crate::bignum::Big;

/// An immutable expression tree. Every node carries the span of the whole
/// expression; operator nodes carry the operator's own span separately, for
/// precise diagnostics.
#[derive(Debug)]
pub enum Expression {
    Literal(Span, ExpressionValue),
    Variable(Span, String),
    UnaryOp(Span, Span, UnaryOp, Box<Expression>),
    BinaryOp(Span, Span, BinaryOp, Box<Expression>, Box<Expression>),
    BitSlice(Span, Span, usize, usize, Box<Expression>),
}

/// The result of evaluating an expression: an arbitrary-precision integer or
/// a boolean.
#[derive(Clone, Debug, Eq, PartialEq)]
pub enum ExpressionValue {
    Integer(Big),
    Bool(bool),
}

/// The type of an expression value.
#[derive(Copy, Clone, Debug, Eq, PartialEq, Structural)]
pub enum ExpressionType {
    Integer,
    Bool,
}

#[derive(Copy, Clone, Debug)]
pub enum UnaryOp {
    Neg,
    Not,
}

#[derive(Copy, Clone, Debug)]
pub enum BinaryOp {
    Add,
    Sub,
    Mul,
    Div,
    Mod,
    Shl,
    Shr,
    UShr,
    And,
    Or,
    Xor,
    Eq,
    Ne,
    Lt,
    Le,
    Gt,
    Ge,
    LazyAnd,
    LazyOr,
    Concat,
}

/// The mathematical value of an `ExpressionValue`: an unbounded integer or a
/// boolean.
pub enum SpecValue {
    Int(int),
    Bool(bool),
}

impl View for ExpressionValue {
    type V = SpecValue;

    open spec fn view(&self) -> SpecValue {
        match self {
            ExpressionValue::Integer(b) => SpecValue::Int(b@),
            ExpressionValue::Bool(b) => SpecValue::Bool(*b),
        }
    }
}

/// The type of a mathematical value.
pub open spec fn sv_type(v: SpecValue) -> ExpressionType {
    match v {
        SpecValue::Int(_) => ExpressionType::Integer,
        SpecValue::Bool(_) => ExpressionType::Bool,
    }
}

impl ExpressionValue {
    /// Canonical representation of any integer carried by the value.
    pub open spec fn wf(&self) -> bool {
        match self {
            ExpressionValue::Integer(b) => b.wf(),
            ExpressionValue::Bool(_) => true,
        }
    }

    /// An exact copy.
    pub fn duplicate(&self) -> (r: ExpressionValue)
        ensures
            r@ == self@,
            r.wf() == self.wf(),
    {
        match self {
            ExpressionValue::Integer(b) => ExpressionValue::Integer(b.duplicate()),
            ExpressionValue::Bool(b) => ExpressionValue::Bool(*b),
        }
    }

    /// Whether the value is of the given type.
    pub fn is_of_type(&self, typ: ExpressionType) -> (r: bool)
        ensures
            r == (sv_type(self@) == typ),
    {
        match (self, typ) {
            (ExpressionValue::Integer(_), ExpressionType::Integer) => true,
            (ExpressionValue::Bool(_), ExpressionType::Bool) => true,
            _ => false,
        }
    }
}

impl Expression {
    /// The span of the whole expression.
    pub open spec fn spec_span(&self) -> Span {
        match self {
            Expression::Literal(span, ..) => *span,
            Expression::Variable(span, ..) => *span,
            Expression::UnaryOp(span, ..) => *span,
            Expression::BinaryOp(span, ..) => *span,
            Expression::BitSlice(span, ..) => *span,
        }
    }

    /// Every integer literal in the tree is in canonical form.
    pub open spec fn wf(&self) -> bool
        decreases self,
    {
        match self {
            Expression::Literal(_, v) => v.wf(),
            Expression::Variable(..) => true,
            Expression::UnaryOp(_, _, _, inner) => inner.wf(),
            Expression::BinaryOp(_, _, _, lhs, rhs) => lhs.wf() && rhs.wf(),
            Expression::BitSlice(_, _, _, _, inner) => inner.wf(),
        }
    }

    pub fn span(&self) -> (r: Span)
        ensures
            r == self.spec_span(),
    {
        match self {
            Expression::Literal(span, ..) => *span,
            Expression::Variable(span, ..) => *span,
            Expression::UnaryOp(span, ..) => *span,
            Expression::BinaryOp(span, ..) => *span,
            Expression::BitSlice(span, ..) => *span,
        }
    }
}

} // verus!
