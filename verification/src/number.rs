//! The values of the language and their arithmetic.
//!
//! Integers are computed: 32 bits, two's complement, wrapping on overflow.
//! Reals are not computed here. A real value is kept as the term of the
//! arithmetic that yields it, over decimal literals and integers; what the
//! evaluator decides never depends on the number a term stands for. The
//! number is the term's value in IEEE 754 single precision.
use std::rc::Rc;
use vstd::prelude::*;
use vstd::std_specs::convert::FromSpecImpl;
use crate::error::{RuntimeError, RuntimeErrorView};

verus! {

/// The arithmetic that yields a real number.
#[derive(Debug, PartialEq)]
pub enum RealTerm {
    /// A decimal literal, as written.
    Literal(String),
    /// An integer taken as a real.
    FromInt(i32),
    Neg(Rc<RealTerm>),
    Add(Rc<RealTerm>, Rc<RealTerm>),
    Sub(Rc<RealTerm>, Rc<RealTerm>),
    Mul(Rc<RealTerm>, Rc<RealTerm>),
    Div(Rc<RealTerm>, Rc<RealTerm>),
}

/// The mathematical value of a [`RealTerm`].
pub ghost enum RealTermView {
    Literal(Seq<char>),
    FromInt(i32),
    Neg(Box<RealTermView>),
    Add(Box<RealTermView>, Box<RealTermView>),
    Sub(Box<RealTermView>, Box<RealTermView>),
    Mul(Box<RealTermView>, Box<RealTermView>),
    Div(Box<RealTermView>, Box<RealTermView>),
}

impl RealTerm {
    /// The value of the term.
    pub open spec fn view(&self) -> RealTermView
        decreases self,
    {
        match self {
            RealTerm::Literal(text) => RealTermView::Literal(text@),
            RealTerm::FromInt(value) => RealTermView::FromInt(*value),
            RealTerm::Neg(a) => RealTermView::Neg(Box::new(a.view())),
            RealTerm::Add(a, b) => RealTermView::Add(Box::new(a.view()), Box::new(b.view())),
            RealTerm::Sub(a, b) => RealTermView::Sub(Box::new(a.view()), Box::new(b.view())),
            RealTerm::Mul(a, b) => RealTermView::Mul(Box::new(a.view()), Box::new(b.view())),
            RealTerm::Div(a, b) => RealTermView::Div(Box::new(a.view()), Box::new(b.view())),
        }
    }
}

/// Another handle on a shared term, as `Rc::clone` gives it: the same
/// term, not a copy of it.
#[verifier::external_body]
fn share(term: &Rc<RealTerm>) -> (shared: Rc<RealTerm>)
    ensures
        shared == *term,
{
    Rc::clone(term)
}

/// A value: none, an integer or a real.
#[derive(Debug, PartialEq)]
pub enum Number {
    Nil,
    Int(i32),
    Real(Rc<RealTerm>),
}

/// The mathematical value of a [`Number`].
pub ghost enum NumberView {
    Nil,
    Int(i32),
    Real(RealTermView),
}

/// What an operation on values gives: a value, or the reason there is none.
pub type NumberResult = Result<Number, RuntimeError>;

/// The quotient of `x` by `d`, rounded toward zero and wrapped to 32 bits.
pub open spec fn truncated_quotient(x: i32, d: i32) -> i32
    recommends
        d != 0,
{
    let n = x as int;
    let m = d as int;
    let q = if n >= 0 && m > 0 {
        n / m
    } else if n < 0 && m < 0 {
        (-n) / (-m)
    } else if n < 0 {
        -((-n) / m)
    } else {
        -(n / (-m))
    };
    if q > i32::MAX {
        i32::MIN
    } else {
        q as i32
    }
}

impl NumberView {
    /// The value as a real: an integer is converted, `Nil` is no number.
    pub open spec fn as_real(self) -> Option<RealTermView> {
        match self {
            NumberView::Nil => None,
            NumberView::Int(value) => Some(RealTermView::FromInt(value)),
            NumberView::Real(term) => Some(term),
        }
    }

    /// `-self`. `Nil` stays `Nil`.
    pub open spec fn negation(self) -> NumberView {
        match self {
            NumberView::Nil => NumberView::Nil,
            NumberView::Int(value) => NumberView::Int(0i32.wrapping_sub(value)),
            NumberView::Real(term) => NumberView::Real(RealTermView::Neg(Box::new(term))),
        }
    }

    /// `self + rhs`. `Nil` on either side leaves the other operand; operands
    /// of different kinds are a mismatch.
    pub open spec fn sum(self, rhs: NumberView) -> Result<NumberView, RuntimeErrorView> {
        match (self, rhs) {
            (NumberView::Nil, _) => Ok(rhs),
            (_, NumberView::Nil) => Ok(self),
            (NumberView::Int(a), NumberView::Int(b)) => Ok(NumberView::Int(a.wrapping_add(b))),
            (NumberView::Real(a), NumberView::Real(b)) => Ok(
                NumberView::Real(RealTermView::Add(Box::new(a), Box::new(b))),
            ),
            _ => Err(RuntimeErrorView::TypeMismatch),
        }
    }

    /// `self - rhs`, with the rules of [`Self::sum`].
    pub open spec fn difference(self, rhs: NumberView) -> Result<NumberView, RuntimeErrorView> {
        match (self, rhs) {
            (NumberView::Nil, _) => Ok(rhs),
            (_, NumberView::Nil) => Ok(self),
            (NumberView::Int(a), NumberView::Int(b)) => Ok(NumberView::Int(a.wrapping_sub(b))),
            (NumberView::Real(a), NumberView::Real(b)) => Ok(
                NumberView::Real(RealTermView::Sub(Box::new(a), Box::new(b))),
            ),
            _ => Err(RuntimeErrorView::TypeMismatch),
        }
    }

    /// `self * rhs`, with the rules of [`Self::sum`].
    pub open spec fn product(self, rhs: NumberView) -> Result<NumberView, RuntimeErrorView> {
        match (self, rhs) {
            (NumberView::Nil, _) => Ok(rhs),
            (_, NumberView::Nil) => Ok(self),
            (NumberView::Int(a), NumberView::Int(b)) => Ok(NumberView::Int(a.wrapping_mul(b))),
            (NumberView::Real(a), NumberView::Real(b)) => Ok(
                NumberView::Real(RealTermView::Mul(Box::new(a), Box::new(b))),
            ),
            _ => Err(RuntimeErrorView::TypeMismatch),
        }
    }

    /// `self DIV rhs`: the quotient of two integers, rounded toward zero.
    /// `Nil` on either side leaves the other operand. A divisor of zero is
    /// an error, and so is a real operand.
    pub open spec fn quotient(self, rhs: NumberView) -> Result<NumberView, RuntimeErrorView> {
        match (self, rhs) {
            (NumberView::Nil, _) => Ok(rhs),
            (_, NumberView::Nil) => Ok(self),
            (NumberView::Int(a), NumberView::Int(b)) => if b == 0 {
                Err(RuntimeErrorView::DivisionByZero)
            } else {
                Ok(NumberView::Int(truncated_quotient(a, b)))
            },
            _ => Err(RuntimeErrorView::TypeMismatch),
        }
    }

    /// `self / rhs`: the quotient of the operands taken as reals, always a
    /// real. With `Nil` on one side it is the other operand taken as a
    /// real; of two `Nil` it is `Nil`.
    pub open spec fn ratio(self, rhs: NumberView) -> NumberView {
        match (self.as_real(), rhs.as_real()) {
            (None, None) => NumberView::Nil,
            (None, Some(b)) => NumberView::Real(b),
            (Some(a), None) => NumberView::Real(a),
            (Some(a), Some(b)) => NumberView::Real(RealTermView::Div(Box::new(a), Box::new(b))),
        }
    }
}

impl View for Number {
    type V = NumberView;

    open spec fn view(&self) -> NumberView {
        match self {
            Number::Nil => NumberView::Nil,
            Number::Int(value) => NumberView::Int(*value),
            Number::Real(term) => NumberView::Real(term.view()),
        }
    }
}

/// The view of the result of an operation.
pub open spec fn number_result(result: NumberResult) -> Result<NumberView, RuntimeErrorView> {
    match result {
        Ok(number) => Ok(number@),
        Err(error) => Err(error@),
    }
}

impl Clone for Number {
    fn clone(&self) -> (copy: Self)
        ensures
            copy@ == self@,
    {
        match self {
            Number::Nil => Number::Nil,
            Number::Int(value) => Number::Int(*value),
            Number::Real(term) => Number::Real(share(term)),
        }
    }
}

impl From<i32> for Number {
    fn from(num: i32) -> (number: Number) {
        Number::Int(num)
    }
}

impl FromSpecImpl<i32> for Number {
    open spec fn obeys_from_spec() -> bool {
        true
    }

    open spec fn from_spec(num: i32) -> Number {
        Number::Int(num)
    }
}

impl Number {
    /// The real that a decimal literal denotes.
    pub fn from_literal(literal: String) -> (number: Number)
        ensures
            number@ == NumberView::Real(RealTermView::Literal(literal@)),
    {
        Number::Real(Rc::new(RealTerm::Literal(literal)))
    }

    /// The value as a real term, if it is a number.
    fn as_real(self) -> (term: Option<Rc<RealTerm>>)
        ensures
            match self@.as_real() {
                Some(t) => term matches Some(x) && x.view() == t,
                None => term is None,
            },
    {
        match self {
            Number::Nil => None,
            Number::Int(value) => Some(Rc::new(RealTerm::FromInt(value))),
            Number::Real(term) => Some(term),
        }
    }

    /// `-self`.
    pub fn neg(self) -> (result: Number)
        ensures
            result@ == self@.negation(),
    {
        match self {
            Number::Nil => Number::Nil,
            Number::Int(value) => Number::Int(0i32.wrapping_sub(value)),
            Number::Real(term) => Number::Real(Rc::new(RealTerm::Neg(term))),
        }
    }

    /// `self + rhs`.
    pub fn add(self, rhs: Number) -> (result: NumberResult)
        ensures
            number_result(result) == self@.sum(rhs@),
    {
        match self {
            Number::Nil => Ok(rhs),
            Number::Int(left) => match rhs {
                Number::Nil => Ok(Number::Int(left)),
                Number::Int(right) => Ok(Number::Int(left.wrapping_add(right))),
                Number::Real(_) => Err(RuntimeError::TypeMismatch),
            },
            Number::Real(left) => match rhs {
                Number::Nil => Ok(Number::Real(left)),
                Number::Int(_) => Err(RuntimeError::TypeMismatch),
                Number::Real(right) => Ok(Number::Real(Rc::new(RealTerm::Add(left, right)))),
            },
        }
    }

    /// `self - rhs`.
    pub fn sub(self, rhs: Number) -> (result: NumberResult)
        ensures
            number_result(result) == self@.difference(rhs@),
    {
        match self {
            Number::Nil => Ok(rhs),
            Number::Int(left) => match rhs {
                Number::Nil => Ok(Number::Int(left)),
                Number::Int(right) => Ok(Number::Int(left.wrapping_sub(right))),
                Number::Real(_) => Err(RuntimeError::TypeMismatch),
            },
            Number::Real(left) => match rhs {
                Number::Nil => Ok(Number::Real(left)),
                Number::Int(_) => Err(RuntimeError::TypeMismatch),
                Number::Real(right) => Ok(Number::Real(Rc::new(RealTerm::Sub(left, right)))),
            },
        }
    }

    /// `self * rhs`.
    pub fn mul(self, rhs: Number) -> (result: NumberResult)
        ensures
            number_result(result) == self@.product(rhs@),
    {
        match self {
            Number::Nil => Ok(rhs),
            Number::Int(left) => match rhs {
                Number::Nil => Ok(Number::Int(left)),
                Number::Int(right) => Ok(Number::Int(left.wrapping_mul(right))),
                Number::Real(_) => Err(RuntimeError::TypeMismatch),
            },
            Number::Real(left) => match rhs {
                Number::Nil => Ok(Number::Real(left)),
                Number::Int(_) => Err(RuntimeError::TypeMismatch),
                Number::Real(right) => Ok(Number::Real(Rc::new(RealTerm::Mul(left, right)))),
            },
        }
    }

    /// `self DIV rhs`.
    pub fn div(self, rhs: Number) -> (result: NumberResult)
        ensures
            number_result(result) == self@.quotient(rhs@),
    {
        match self {
            Number::Nil => Ok(rhs),
            Number::Int(left) => match rhs {
                Number::Nil => Ok(Number::Int(left)),
                Number::Int(right) => {
                    if right == 0 {
                        Err(RuntimeError::DivisionByZero)
                    } else {
                        match left.checked_div(right) {
                            Some(quotient) => Ok(Number::Int(quotient)),
                            None => Ok(Number::Int(i32::MIN)),
                        }
                    }
                },
                Number::Real(_) => Err(RuntimeError::TypeMismatch),
            },
            Number::Real(left) => match rhs {
                Number::Nil => Ok(Number::Real(left)),
                _ => Err(RuntimeError::TypeMismatch),
            },
        }
    }

    /// `self / rhs`.
    pub fn real_div(self, rhs: Number) -> (result: Number)
        ensures
            result@ == self@.ratio(rhs@),
    {
        match (self.as_real(), rhs.as_real()) {
            (None, None) => Number::Nil,
            (None, Some(right)) => Number::Real(right),
            (Some(left), None) => Number::Real(left),
            (Some(left), Some(right)) => Number::Real(Rc::new(RealTerm::Div(left, right))),
        }
    }
}

} // verus!
