//! Tokens: a lexical category, the text it stands for and where it was found.
use vstd::prelude::*;

verus! {

/// The lexical categories of the template language.
#[derive(PartialEq, Eq, Structural, Debug, Clone, Copy)]
pub enum TokenType {
    Unvariable,
    Identifier,
    String,
    Number,
    BlockStart,
    BlockEnd,
    Addition,
    Subtraction,
    DoubleSubtraction,
    Division,
    Multiplication,
    Power,
    Log,
    Modulo,
    ParentL,
    ParentR,
    Semicolon,
    QuestionMark,
    ExclamationMark,
    EqualSign,
    DoubleEqualSign,
    NotEqualSign,
    LessThanSign,
    LessThanEqualSign,
    GreaterThanSign,
    GreaterThanEqualSign,
    QuestionMarkGreaterThan,
    KeyNumber,
    KeyString,
}

/// A token: its text, its category, and its span (in characters) in the source.
#[derive(Debug, Clone)]
pub struct Token {
    pub content: String,
    pub kind: TokenType,
    pub start: usize,
    pub length: usize,
}

/// The mathematical view of a token.
pub struct TokenModel {
    pub content: Seq<char>,
    pub kind: TokenType,
    pub start: int,
    pub length: int,
}

impl View for Token {
    type V = TokenModel;

    open spec fn view(&self) -> TokenModel {
        TokenModel {
            content: self.content@,
            kind: self.kind,
            start: self.start as int,
            length: self.length as int,
        }
    }
}

impl Token {
    pub fn new(raw: &str, kind: TokenType, start: usize, length: usize) -> (r: Token)
        ensures
            r.content@ == raw@,
            r.kind == kind,
            r.start == start,
            r.length == length,
    {
        Token { content: raw.to_owned(), kind, start, length }
    }
}

impl Token {
    /// A copy of the token.
    pub fn duplicate(&self) -> (r: Token)
        ensures
            r@ == self@,
    {
        Token { content: self.content.clone(), kind: self.kind, start: self.start, length: self.length }
    }
}

/// The name of a category, as diagnostics show it.
pub open spec fn kind_name(k: TokenType) -> Seq<char> {
    match k {
        TokenType::Unvariable => "Unvariable"@,
        TokenType::Identifier => "Identifier"@,
        TokenType::String => "String"@,
        TokenType::Number => "Number"@,
        TokenType::BlockStart => "BlockStart"@,
        TokenType::BlockEnd => "BlockEnd"@,
        TokenType::Addition => "Addition"@,
        TokenType::Subtraction => "Subtraction"@,
        TokenType::DoubleSubtraction => "DoubleSubtraction"@,
        TokenType::Division => "Division"@,
        TokenType::Multiplication => "Multiplication"@,
        TokenType::Power => "Power"@,
        TokenType::Log => "Log"@,
        TokenType::Modulo => "Modulo"@,
        TokenType::ParentL => "ParentL"@,
        TokenType::ParentR => "ParentR"@,
        TokenType::Semicolon => "Semicolon"@,
        TokenType::QuestionMark => "QuestionMark"@,
        TokenType::ExclamationMark => "ExclamationMark"@,
        TokenType::EqualSign => "EqualSign"@,
        TokenType::DoubleEqualSign => "DoubleEqualSign"@,
        TokenType::NotEqualSign => "NotEqualSign"@,
        TokenType::LessThanSign => "LessThanSign"@,
        TokenType::LessThanEqualSign => "LessThanEqualSign"@,
        TokenType::GreaterThanSign => "GreaterThanSign"@,
        TokenType::GreaterThanEqualSign => "GreaterThanEqualSign"@,
        TokenType::QuestionMarkGreaterThan => "QuestionMarkGreaterThan"@,
        TokenType::KeyNumber => "KeyNumber"@,
        TokenType::KeyString => "KeyString"@,
    }
}

impl TokenType {
    /// The category's name, as diagnostics show it.
    pub fn name(&self) -> (r: &'static str)
        ensures
            r@ == kind_name(*self),
    {
        match self {
            TokenType::Unvariable => "Unvariable",
            TokenType::Identifier => "Identifier",
            TokenType::String => "String",
            TokenType::Number => "Number",
            TokenType::BlockStart => "BlockStart",
            TokenType::BlockEnd => "BlockEnd",
            TokenType::Addition => "Addition",
            TokenType::Subtraction => "Subtraction",
            TokenType::DoubleSubtraction => "DoubleSubtraction",
            TokenType::Division => "Division",
            TokenType::Multiplication => "Multiplication",
            TokenType::Power => "Power",
            TokenType::Log => "Log",
            TokenType::Modulo => "Modulo",
            TokenType::ParentL => "ParentL",
            TokenType::ParentR => "ParentR",
            TokenType::Semicolon => "Semicolon",
            TokenType::QuestionMark => "QuestionMark",
            TokenType::ExclamationMark => "ExclamationMark",
            TokenType::EqualSign => "EqualSign",
            TokenType::DoubleEqualSign => "DoubleEqualSign",
            TokenType::NotEqualSign => "NotEqualSign",
            TokenType::LessThanSign => "LessThanSign",
            TokenType::LessThanEqualSign => "LessThanEqualSign",
            TokenType::GreaterThanSign => "GreaterThanSign",
            TokenType::GreaterThanEqualSign => "GreaterThanEqualSign",
            TokenType::QuestionMarkGreaterThan => "QuestionMarkGreaterThan",
            TokenType::KeyNumber => "KeyNumber",
            TokenType::KeyString => "KeyString",
        }
    }
}

} // verus!
