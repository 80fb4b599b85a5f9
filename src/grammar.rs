//! The grammar of the template language, as spec functions over a token
//! sequence and a position. Each returns the tree or error it yields and the
//! position it stops at (on failure, where the failing production stopped).
//!
//! ```text
//! Template   := (Content | '[' E ']')*
//! E          := Ternary
//! Ternary    := Condition ( '?' Ternary ':' Ternary | '?>' Ternary )?
//! Condition  := AddSub ( ('<'|'<='|'>'|'>='|'==') AddSub )*
//! AddSub     := MulDiv ( ('+'|'-'|'--'|'%') MulDiv )*
//! MulDiv     := PowLog ( ('*'|'/') PowLog )*
//! PowLog     := Paren ( ('**'|'//') Paren )*
//! Paren      := '(' E ')' | Basic
//! Basic      := Keyword | Identifier | String | Number
//! Keyword    := ('number'|'string') '(' E E? ')'
//! Number     := ('+'|'-')? digits
//! ```
//!
//! Positions never move back (the parser's functions ensure it); the
//! `p < p2 <= t.len()` style guards below only make termination evident and never fail
//! for the parser's own calls.
use vstd::prelude::*;
use crate::ast::Ast;
use crate::errors::ParseFailure;
use crate::number::{checked, decimal_value, without_underscores};
use crate::token::{TokenModel, TokenType};

verus! {

pub type Toks = Seq<TokenModel>;

/// A production's result and the position it stopped at.
pub type Parsed = (Result<Ast, ParseFailure>, int);

/// The error for position `p`: the end of input, or the token found there.
pub open spec fn unexpected(t: Toks, p: int, expected: Seq<TokenType>) -> ParseFailure {
    if 0 <= p < t.len() {
        ParseFailure::UnexpectedToken { found: t[p].kind, expected, start: t[p].start, length: t[p].length }
    } else {
        ParseFailure::UnexpectedEnd
    }
}

/// Whether the token at `p` has one of the `kinds`.
pub open spec fn at_kind(t: Toks, p: int, kinds: Seq<TokenType>) -> bool {
    0 <= p < t.len() && kinds.contains(t[p].kind)
}

pub open spec fn condition_ops() -> Seq<TokenType> {
    seq![
        TokenType::LessThanSign,
        TokenType::LessThanEqualSign,
        TokenType::GreaterThanSign,
        TokenType::GreaterThanEqualSign,
        TokenType::DoubleEqualSign,
    ]
}

pub open spec fn addsub_ops() -> Seq<TokenType> {
    seq![TokenType::Addition, TokenType::Subtraction, TokenType::DoubleSubtraction, TokenType::Modulo]
}

pub open spec fn muldiv_ops() -> Seq<TokenType> {
    seq![TokenType::Multiplication, TokenType::Division]
}

pub open spec fn powlog_ops() -> Seq<TokenType> {
    seq![TokenType::Power, TokenType::Log]
}

pub open spec fn ternary_ops() -> Seq<TokenType> {
    seq![TokenType::QuestionMark, TokenType::QuestionMarkGreaterThan]
}

pub open spec fn keyword_kinds() -> Seq<TokenType> {
    seq![TokenType::KeyNumber, TokenType::KeyString]
}

pub open spec fn sign_kinds() -> Seq<TokenType> {
    seq![TokenType::Addition, TokenType::Subtraction]
}

pub open spec fn basic_kinds() -> Seq<TokenType> {
    seq![TokenType::KeyNumber, TokenType::KeyString, TokenType::Identifier, TokenType::String, TokenType::Number]
}

pub open spec fn g_identifier(t: Toks, p: int) -> Parsed {
    if at_kind(t, p, seq![TokenType::Identifier]) {
        (Ok(Ast::Identifier { name: t[p].content, for_name: false }), p + 1)
    } else {
        (Err(unexpected(t, p, seq![TokenType::Identifier])), p)
    }
}

pub open spec fn g_string(t: Toks, p: int) -> Parsed {
    if at_kind(t, p, seq![TokenType::String]) {
        (Ok(Ast::Text(t[p].content)), p + 1)
    } else {
        (Err(unexpected(t, p, seq![TokenType::String])), p)
    }
}

/// A number literal: an optional sign token, then a number token whose text
/// (its `_` separators dropped) is decimal.
pub open spec fn g_number(t: Toks, p: int) -> Parsed {
    let signed = at_kind(t, p, sign_kinds());
    let q = if signed { p + 1 } else { p };
    let sign = if signed { t[p].content } else { Seq::empty() };
    if !at_kind(t, q, seq![TokenType::Number]) {
        (Err(unexpected(t, q, seq![TokenType::Number])), q)
    } else {
        let bad = ParseFailure::InvalidNumber { start: t[q].start, length: t[q].length };
        match decimal_value(sign + without_underscores(t[q].content)) {
            None => (Err(bad), q + 1),
            Some(v) => match checked(v.0, v.1) {
                Ok(x) => (Ok(Ast::Number(x)), q + 1),
                Err(_) => (Err(bad), q + 1),
            },
        }
    }
}

pub open spec fn g_ternary(t: Toks, p: int) -> Parsed
    decreases t.len() - p, 11int,
{
    let (c, p1) = g_condition(t, p);
    match c {
        Err(e) => (Err(e), p1),
        Ok(cond) => if p1 >= p && at_kind(t, p1, ternary_ops()) {
            let (l, p2) = g_ternary(t, p1 + 1);
            match l {
                Err(e) => (Err(e), p2),
                Ok(left) => if t[p1].kind == TokenType::QuestionMark {
                    if !at_kind(t, p2, seq![TokenType::Semicolon]) {
                        (Err(unexpected(t, p2, seq![TokenType::Semicolon])), p2)
                    } else if p2 >= p1 {
                        let (r, p3) = g_ternary(t, p2 + 1);
                        match r {
                            Err(e) => (Err(e), p3),
                            Ok(right) => (Ok(Ast::Ternary { condition: Box::new(cond), left: Box::new(left), right: Box::new(right) }), p3),
                        }
                    } else {
                        (Err(ParseFailure::UnexpectedEnd), p2)
                    }
                } else {
                    (Ok(Ast::Ternary { condition: Box::new(cond), left: Box::new(left), right: Box::new(Ast::Text(Seq::empty())) }), p2)
                },
            }
        } else {
            (Ok(cond), p1)
        },
    }
}

pub open spec fn g_condition(t: Toks, p: int) -> Parsed
    decreases t.len() - p, 10int,
{
    let (l, p1) = g_addsub(t, p);
    match l {
        Err(e) => (Err(e), p1),
        Ok(left) => if p <= p1 <= t.len() { g_condition_rest(t, p1, left) } else { (Err(ParseFailure::UnexpectedEnd), p1) },
    }
}

pub open spec fn g_condition_rest(t: Toks, p: int, left: Ast) -> Parsed
    decreases t.len() - p, 9int,
{
    if at_kind(t, p, condition_ops()) {
        let (r, p2) = g_addsub(t, p + 1);
        match r {
            Err(e) => (Err(e), p2),
            Ok(right) => if p < p2 <= t.len() {
                g_condition_rest(t, p2, Ast::Condition { op: t[p].kind, left: Box::new(left), right: Box::new(right) })
            } else {
                (Err(ParseFailure::UnexpectedEnd), p2)
            },
        }
    } else {
        (Ok(left), p)
    }
}

pub open spec fn g_addsub(t: Toks, p: int) -> Parsed
    decreases t.len() - p, 8int,
{
    let (l, p1) = g_muldiv(t, p);
    match l {
        Err(e) => (Err(e), p1),
        Ok(left) => if p <= p1 <= t.len() { g_addsub_rest(t, p1, left) } else { (Err(ParseFailure::UnexpectedEnd), p1) },
    }
}

pub open spec fn g_addsub_rest(t: Toks, p: int, left: Ast) -> Parsed
    decreases t.len() - p, 7int,
{
    if at_kind(t, p, addsub_ops()) {
        let (r, p2) = g_muldiv(t, p + 1);
        match r {
            Err(e) => (Err(e), p2),
            Ok(right) => if p < p2 <= t.len() {
                g_addsub_rest(t, p2, Ast::Binary { op: t[p].kind, left: Box::new(left), right: Box::new(right) })
            } else {
                (Err(ParseFailure::UnexpectedEnd), p2)
            },
        }
    } else {
        (Ok(left), p)
    }
}

pub open spec fn g_muldiv(t: Toks, p: int) -> Parsed
    decreases t.len() - p, 6int,
{
    let (l, p1) = g_powlog(t, p);
    match l {
        Err(e) => (Err(e), p1),
        Ok(left) => if p <= p1 <= t.len() { g_muldiv_rest(t, p1, left) } else { (Err(ParseFailure::UnexpectedEnd), p1) },
    }
}

pub open spec fn g_muldiv_rest(t: Toks, p: int, left: Ast) -> Parsed
    decreases t.len() - p, 5int,
{
    if at_kind(t, p, muldiv_ops()) {
        let (r, p2) = g_powlog(t, p + 1);
        match r {
            Err(e) => (Err(e), p2),
            Ok(right) => if p < p2 <= t.len() {
                g_muldiv_rest(t, p2, Ast::Binary { op: t[p].kind, left: Box::new(left), right: Box::new(right) })
            } else {
                (Err(ParseFailure::UnexpectedEnd), p2)
            },
        }
    } else {
        (Ok(left), p)
    }
}

pub open spec fn g_powlog(t: Toks, p: int) -> Parsed
    decreases t.len() - p, 4int,
{
    let (l, p1) = g_paren(t, p);
    match l {
        Err(e) => (Err(e), p1),
        Ok(left) => if p <= p1 <= t.len() { g_powlog_rest(t, p1, left) } else { (Err(ParseFailure::UnexpectedEnd), p1) },
    }
}

pub open spec fn g_powlog_rest(t: Toks, p: int, left: Ast) -> Parsed
    decreases t.len() - p, 3int,
{
    if at_kind(t, p, powlog_ops()) {
        let (r, p2) = g_paren(t, p + 1);
        match r {
            Err(e) => (Err(e), p2),
            Ok(right) => if p < p2 <= t.len() {
                g_powlog_rest(t, p2, Ast::Binary { op: t[p].kind, left: Box::new(left), right: Box::new(right) })
            } else {
                (Err(ParseFailure::UnexpectedEnd), p2)
            },
        }
    } else {
        (Ok(left), p)
    }
}

pub open spec fn g_paren(t: Toks, p: int) -> Parsed
    decreases t.len() - p, 2int,
{
    if at_kind(t, p, seq![TokenType::ParentL]) {
        let (e, p1) = g_ternary(t, p + 1);
        match e {
            Err(f) => (Err(f), p1),
            Ok(inner) => if at_kind(t, p1, seq![TokenType::ParentR]) {
                (Ok(inner), p1 + 1)
            } else {
                (Err(unexpected(t, p1, seq![TokenType::ParentR])), p1)
            },
        }
    } else {
        g_basic(t, p)
    }
}

/// An identifier, else a string, else a number, each tried where the
/// previous attempt stopped.
pub open spec fn g_literal(t: Toks, p: int) -> Parsed {
    let (i, pi) = g_identifier(t, p);
    match i {
        Ok(_) => (i, pi),
        Err(_) => {
            let (s, ps) = g_string(t, pi);
            match s {
                Ok(_) => (s, ps),
                Err(_) => {
                    let (n, pn) = g_number(t, ps);
                    match n {
                        Ok(_) => (n, pn),
                        Err(_) => (Err(unexpected(t, pn, basic_kinds())), pn),
                    }
                },
            }
        },
    }
}

/// A keyword, else a literal tried where the keyword attempt stopped.
pub open spec fn g_basic(t: Toks, p: int) -> Parsed
    decreases t.len() - p, 1int,
{
    let (k, pk) = g_keyword(t, p);
    match k {
        Ok(_) => (k, pk),
        Err(_) => g_literal(t, pk),
    }
}

pub open spec fn g_keyword(t: Toks, p: int) -> Parsed
    decreases t.len() - p, 0int,
{
    if !at_kind(t, p, keyword_kinds()) {
        (Err(unexpected(t, p, keyword_kinds())), p)
    } else if !at_kind(t, p + 1, seq![TokenType::ParentL]) {
        (Err(unexpected(t, p + 1, seq![TokenType::ParentL])), p + 1)
    } else {
        let kind = t[p].kind;
        let (c, p2) = g_ternary(t, p + 2);
        match c {
            Err(e) => (Err(e), p2),
            Ok(content) => if at_kind(t, p2, seq![TokenType::ParentR]) {
                (Ok(Ast::Keyword { kind, content: Box::new(content), precision: None }), p2 + 1)
            } else if p2 < t.len() && p2 > p {
                let (o, p3) = g_ternary(t, p2);
                match o {
                    Err(e) => (Err(e), p3),
                    Ok(precision) => if at_kind(t, p3, seq![TokenType::ParentR]) {
                        (Ok(Ast::Keyword { kind, content: Box::new(content), precision: Some(Box::new(precision)) }), p3 + 1)
                    } else {
                        (Err(unexpected(t, p3, seq![TokenType::ParentR])), p3)
                    },
                }
            } else {
                (Err(unexpected(t, p2, seq![TokenType::ParentR])), p2)
            },
        }
    }
}

/// An expression followed by `]`.
pub open spec fn g_inner_block(t: Toks, p: int) -> Parsed {
    let (e, p1) = g_ternary(t, p);
    match e {
        Err(f) => (Err(f), p1),
        Ok(inner) => if at_kind(t, p1, seq![TokenType::BlockEnd]) {
            (Ok(inner), p1 + 1)
        } else {
            (Err(unexpected(t, p1, seq![TokenType::BlockEnd])), p1)
        },
    }
}

/// The first position at or after `p` holding a `[`, or the end.
pub open spec fn content_end(t: Toks, p: int) -> int
    decreases t.len() - p,
{
    if p < 0 || p >= t.len() || t[p].kind == TokenType::BlockStart {
        p
    } else {
        content_end(t, p + 1)
    }
}

/// The texts of the tokens `t[from..to]`, joined.
pub open spec fn contents(t: Toks, from: int, to: int) -> Seq<char>
    decreases to - from,
{
    if from >= to {
        Seq::empty()
    } else {
        contents(t, from, to - 1) + t[to - 1].content
    }
}

/// A whole template from position `p`: literal runs and blocks, chained.
pub open spec fn g_template(t: Toks, p: int) -> Parsed
    decreases t.len() - p,
{
    if p < 0 || p >= t.len() {
        (Err(ParseFailure::UnexpectedEnd), p)
    } else if t[p].kind == TokenType::BlockStart {
        let (c, p1) = g_inner_block(t, p + 1);
        match c {
            Err(e) => (Err(e), p1),
            Ok(content) => if p1 >= t.len() || p1 <= p {
                (Ok(Ast::Block { content: Box::new(content), next: None }), p1)
            } else {
                let (n, p2) = g_template(t, p1);
                match n {
                    Err(e) => (Err(e), p2),
                    Ok(next) => (Ok(Ast::Block { content: Box::new(content), next: Some(Box::new(next)) }), p2),
                }
            },
        }
    } else {
        let q = content_end(t, p + 1);
        let text = t[p].content + contents(t, p + 1, q);
        if q >= t.len() || q <= p {
            (Ok(Ast::Content { text, next: None }), q)
        } else {
            let (n, p2) = g_template(t, q);
            match n {
                Err(e) => (Err(e), p2),
                Ok(next) => (Ok(Ast::Content { text, next: Some(Box::new(next)) }), p2),
            }
        }
    }
}

/// The tree of a whole token sequence.
pub open spec fn parse_tokens(t: Toks) -> Result<Ast, ParseFailure> {
    g_template(t, 0).0
}

} // verus!
