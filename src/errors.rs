//! What can go wrong while parsing a template or evaluating it.
use owo_colors::OwoColorize;
use vstd::prelude::*;
use crate::number::NumError;
use crate::string_utils::{join_vec, joined};
use crate::token::{kind_name, TokenType};

verus! {

/// Why an evaluation failed.
#[derive(Debug, Clone)]
pub enum EvalError {
    /// A variable that the scope does not hold (its name).
    VariableNotFound(String),
    /// Text that is no decimal number (the text).
    NotNumeric(String),
    /// A number other than one or zero where a truth value is needed.
    NotBoolean,
    /// Text where a truth value is needed: text has no truth value.
    TextNotBoolean,
    /// A comparison that the compared type does not have.
    UnsupportedComparison,
    /// An operator that the left operand's type does not have.
    UnsupportedOperation,
    /// A write to a reserved (`#`) variable (its name).
    ReservedVariable(String),
    /// A numeric operation without a result.
    Arithmetic(NumError),
}

/// The mathematical view of an evaluation error.
pub enum Failure {
    VariableNotFound(Seq<char>),
    NotNumeric(Seq<char>),
    NotBoolean,
    TextNotBoolean,
    UnsupportedComparison,
    UnsupportedOperation,
    ReservedVariable(Seq<char>),
    Arithmetic(NumError),
}

impl View for EvalError {
    type V = Failure;

    open spec fn view(&self) -> Failure {
        match self {
            EvalError::VariableNotFound(s) => Failure::VariableNotFound(s@),
            EvalError::NotNumeric(s) => Failure::NotNumeric(s@),
            EvalError::NotBoolean => Failure::NotBoolean,
            EvalError::TextNotBoolean => Failure::TextNotBoolean,
            EvalError::UnsupportedComparison => Failure::UnsupportedComparison,
            EvalError::UnsupportedOperation => Failure::UnsupportedOperation,
            EvalError::ReservedVariable(s) => Failure::ReservedVariable(s@),
            EvalError::Arithmetic(e) => Failure::Arithmetic(*e),
        }
    }
}

/// Why a template failed to parse.
#[derive(Debug, Clone)]
pub enum ParseError {
    /// The tokens ran out where one was required.
    UnexpectedEnd,
    /// A token of another kind than any of those expected, with its span.
    UnexpectedToken { found: TokenType, expected: Vec<TokenType>, start: usize, length: usize },
    /// A number token whose text is no number.
    InvalidNumber { start: usize, length: usize },
}

/// The mathematical view of a parse error.
pub enum ParseFailure {
    UnexpectedEnd,
    UnexpectedToken { found: TokenType, expected: Seq<TokenType>, start: int, length: int },
    InvalidNumber { start: int, length: int },
}

impl View for ParseError {
    type V = ParseFailure;

    open spec fn view(&self) -> ParseFailure {
        match self {
            ParseError::UnexpectedEnd => ParseFailure::UnexpectedEnd,
            ParseError::UnexpectedToken { found, expected, start, length } => ParseFailure::UnexpectedToken {
                found: *found,
                expected: expected@,
                start: *start as int,
                length: *length as int,
            },
            ParseError::InvalidNumber { start, length } => ParseFailure::InvalidNumber {
                start: *start as int,
                length: *length as int,
            },
        }
    }
}

/// A message for a failed evaluation.
pub trait Error {
    fn message(&self) -> String;
}

/// `s` between the ANSI codes for a red foreground and the default one.
pub open spec fn red_text(s: Seq<char>) -> Seq<char> {
    seq!['\u{1b}', '[', '3', '1', 'm'] + s + seq!['\u{1b}', '[', '3', '9', 'm']
}

/// `s` between the ANSI codes for a blue foreground and the default one.
pub open spec fn blue_text(s: Seq<char>) -> Seq<char> {
    seq!['\u{1b}', '[', '3', '4', 'm'] + s + seq!['\u{1b}', '[', '3', '9', 'm']
}

/// Relies on `owo_colors::OwoColorize::red`, whose display writes the code
/// for red, the text, then the code for the default foreground.
#[verifier::external_body]
fn red(s: &str) -> (r: String)
    ensures
        r@ == red_text(s@),
{
    format!("{}", s.red())
}

/// Relies on `owo_colors::OwoColorize::blue`, whose display writes the code
/// for blue, the text, then the code for the default foreground.
#[verifier::external_body]
fn blue(s: &str) -> (r: String)
    ensures
        r@ == blue_text(s@),
{
    format!("{}", s.blue())
}

/// `n` copies of `c`.
pub open spec fn repeat_char(c: char, n: nat) -> Seq<char>
    decreases n,
{
    if n == 0 { Seq::empty() } else { repeat_char(c, (n - 1) as nat).push(c) }
}

fn repeat(c: char, n: usize) -> (r: String)
    ensures
        r@ == repeat_char(c, n as nat),
{
    let mut r = String::new();
    let mut i: usize = 0;
    while i < n
        invariant
            i <= n,
            r@ == repeat_char(c, i as nat),
        decreases n - i,
    {
        crate::text::push_char(&mut r, c);
        i = i + 1;
    }
    r
}

/// An error with a message only.
#[derive(Debug)]
pub struct BasicError {
    pub msg: String,
}

impl BasicError {
    pub fn new(msg: String) -> (r: BasicError)
        ensures
            r.msg@ == msg@,
    {
        BasicError { msg }
    }
}

impl Error for BasicError {
    fn message(&self) -> String {
        self.msg.clone()
    }
}

/// An error that points at a span of the source text.
#[derive(Debug)]
pub struct LinePointingError {
    pub msg: String,
    pub code: String,
    pub point_start: usize,
    pub point_length: usize,
}

/// The message of a pointing error: the message, the source line, and a
/// run of `^` under the span.
pub open spec fn pointing_text(msg: Seq<char>, code: Seq<char>, start: nat, length: nat) -> Seq<char> {
    red_text("error"@) + ": "@ + msg + "\n\t"@ + code + "\n\t"@ + repeat_char(' ', start) + red_text(repeat_char('^', length))
}

impl LinePointingError {
    pub fn new(msg: &str, code: &str, point_start: usize, point_length: usize) -> (r: LinePointingError)
        ensures
            r.msg@ == msg@,
            r.code@ == code@,
            r.point_start == point_start,
            r.point_length == point_length,
    {
        LinePointingError { msg: msg.to_owned(), code: code.to_owned(), point_start, point_length }
    }

    pub fn render(&self) -> (r: String)
        ensures
            r@ == pointing_text(self.msg@, self.code@, self.point_start as nat, self.point_length as nat),
    {
        let mut r = red("error");
        r.append(": ");
        r.append(self.msg.as_str());
        r.append("\n\t");
        r.append(self.code.as_str());
        r.append("\n\t");
        r.append(repeat(' ', self.point_start).as_str());
        r.append(red(repeat('^', self.point_length).as_str()).as_str());
        r
    }
}

impl Error for LinePointingError {
    fn message(&self) -> String {
        self.render()
    }
}

/// The message of a numeric failure.
pub open spec fn num_message(e: NumError) -> Seq<char> {
    match e {
        NumError::OutOfRange => "Number out of range"@,
        NumError::DivisionByZero => "Division by zero"@,
        NumError::NotRepresentable => "Result is not a representable number"@,
    }
}

/// The message of an evaluation failure.
pub open spec fn failure_message(f: Failure) -> Seq<char> {
    match f {
        Failure::VariableNotFound(n) => "Couldn't find variable: "@ + n,
        Failure::NotNumeric(s) => "Couldn't convert string to number: "@ + s,
        Failure::NotBoolean => "Couldn't convert number to boolean"@,
        Failure::TextNotBoolean => "Conversion of string to boolean not supported"@,
        Failure::UnsupportedComparison => "Comparison not supported for this type"@,
        Failure::UnsupportedOperation => "Operation not supported for this type"@,
        Failure::ReservedVariable(n) => "Cannot mutate special variable: "@ + n,
        Failure::Arithmetic(e) => num_message(e),
    }
}

fn concat(a: &str, b: &String) -> (r: String)
    ensures
        r@ == a@ + b@,
{
    let mut r = a.to_owned();
    r.append(b.as_str());
    r
}

impl EvalError {
    pub fn text(&self) -> (r: String)
        ensures
            r@ == failure_message(self@),
    {
        match self {
            EvalError::VariableNotFound(n) => concat("Couldn't find variable: ", n),
            EvalError::NotNumeric(s) => concat("Couldn't convert string to number: ", s),
            EvalError::NotBoolean => "Couldn't convert number to boolean".to_owned(),
            EvalError::TextNotBoolean => "Conversion of string to boolean not supported".to_owned(),
            EvalError::UnsupportedComparison => "Comparison not supported for this type".to_owned(),
            EvalError::UnsupportedOperation => "Operation not supported for this type".to_owned(),
            EvalError::ReservedVariable(n) => concat("Cannot mutate special variable: ", n),
            EvalError::Arithmetic(e) => match e {
                NumError::OutOfRange => "Number out of range".to_owned(),
                NumError::DivisionByZero => "Division by zero".to_owned(),
                NumError::NotRepresentable => "Result is not a representable number".to_owned(),
            },
        }
    }
}

impl Error for EvalError {
    fn message(&self) -> String {
        self.text()
    }
}

/// The text of an unexpected-token message.
pub open spec fn unexpected_text(found: TokenType, expected: Seq<TokenType>) -> Seq<char> {
    "Unexpected ("@ + blue_text(kind_name(found)) + "), expected ("@
        + blue_text(joined(expected.map_values(|k: TokenType| kind_name(k)), ", "@)) + ")"@
}

/// The message of a parse failure on the template `code`.
pub open spec fn parse_message(e: ParseFailure, code: Seq<char>) -> Seq<char> {
    match e {
        ParseFailure::UnexpectedEnd => "Unexpected end of input"@,
        ParseFailure::UnexpectedToken { found, expected, start, length } =>
            pointing_text(unexpected_text(found, expected), code, start as nat, length as nat),
        ParseFailure::InvalidNumber { start, length } =>
            pointing_text("Invalid number"@, code, start as nat, length as nat),
    }
}

impl ParseError {
    /// The message for this error in the template `code`.
    pub fn message(&self, code: &String) -> (r: String)
        ensures
            r@ == parse_message(self@, code@),
    {
        match self {
            ParseError::UnexpectedEnd => "Unexpected end of input".to_owned(),
            ParseError::UnexpectedToken { found, expected, start, length } => {
                let mut names: Vec<String> = Vec::new();
                let mut i: usize = 0;
                while i < expected.len()
                    invariant
                        i <= expected@.len(),
                        names@.len() == i,
                        forall|j: int| 0 <= j < i ==> (#[trigger] names@[j])@ == kind_name(expected@[j]),
                    decreases expected.len() - i,
                {
                    let name = expected[i].name().to_owned();
                    assert(name@ == kind_name(expected@[i as int]));
                    names.push(name);
                    i = i + 1;
                }
                assert(names@.map_values(|s: String| s@) =~= expected@.map_values(|k: TokenType| kind_name(k)));
                let mut msg = "Unexpected (".to_owned();
                msg.append(blue(found.name()).as_str());
                msg.append("), expected (");
                msg.append(blue(join_vec(&names, ", ").as_str()).as_str());
                msg.append(")");
                LinePointingError::new(msg.as_str(), code.as_str(), *start, *length).render()
            },
            ParseError::InvalidNumber { start, length } =>
                LinePointingError::new("Invalid number", code.as_str(), *start, *length).render(),
        }
    }
}

} // verus!
