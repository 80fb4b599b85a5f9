//! The comparison operators, applied to operands already compared.
use vstd::prelude::*;
use crate::errors::{EvalError, Failure};
use crate::interpreter::{compare_eq, compare_num};
use crate::number::NNumber;
use crate::token::TokenType;
use crate::value::Value;

verus! {

pub open spec fn truth_outcome(r: Result<bool, EvalError>) -> Result<Value, Failure> {
    match r {
        Ok(b) => Ok(Value::Boolean(b)),
        Err(e) => Err(e@),
    }
}

/// `==` or `!=` on operands whose equality is `equal`; other operators fail.
pub fn partial_eq(token: &TokenType, equal: bool) -> (r: Result<bool, EvalError>)
    ensures
        truth_outcome(r) == compare_eq(*token, equal),
{
    match token {
        TokenType::DoubleEqualSign => Ok(equal),
        TokenType::NotEqualSign => Ok(!equal),
        _ => Err(EvalError::UnsupportedComparison),
    }
}

/// Any of the six comparisons on two numbers.
pub fn partial_ord(token: &TokenType, l: &NNumber, r: &NNumber) -> (res: Result<bool, EvalError>)
    requires
        l.wf(),
        r.wf(),
    ensures
        truth_outcome(res) == compare_num(*token, l@, r@),
{
    match token {
        TokenType::DoubleEqualSign => Ok(l.equals(r)),
        TokenType::NotEqualSign => Ok(!l.equals(r)),
        TokenType::GreaterThanSign => Ok(r.less(l)),
        TokenType::GreaterThanEqualSign => Ok(!l.less(r)),
        TokenType::LessThanSign => Ok(l.less(r)),
        TokenType::LessThanEqualSign => Ok(!r.less(l)),
        _ => Err(EvalError::UnsupportedComparison),
    }
}

} // verus!
