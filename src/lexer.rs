//! The lexer: template text to tokens.
//!
//! Outside a block (`[ ... ]`) every run of characters that starts no token is
//! literal text (an `Unvariable` token); inside a block such characters are
//! skipped. Operators, numbers, strings and identifiers are tokens everywhere.
use vstd::prelude::*;
use crate::chain_reader::ChainReader;
use crate::string_utils::{identifier_char, is_identifer, is_numeric, numeric_char};
use crate::text::{chars_of, push_char, string_from_chars};
use crate::token::{Token, TokenModel, TokenType};

verus! {

/// The category of a one-character operator or delimiter.
pub open spec fn special_kind(c: char) -> Option<TokenType> {
    if c == '[' {
        Some(TokenType::BlockStart)
    } else if c == ']' {
        Some(TokenType::BlockEnd)
    } else if c == '+' {
        Some(TokenType::Addition)
    } else if c == '-' {
        Some(TokenType::Subtraction)
    } else if c == '/' {
        Some(TokenType::Division)
    } else if c == '*' {
        Some(TokenType::Multiplication)
    } else if c == '%' {
        Some(TokenType::Modulo)
    } else if c == '(' {
        Some(TokenType::ParentL)
    } else if c == ')' {
        Some(TokenType::ParentR)
    } else if c == ':' {
        Some(TokenType::Semicolon)
    } else if c == '?' {
        Some(TokenType::QuestionMark)
    } else if c == '=' {
        Some(TokenType::EqualSign)
    } else if c == '<' {
        Some(TokenType::LessThanSign)
    } else if c == '>' {
        Some(TokenType::GreaterThanSign)
    } else if c == '!' {
        Some(TokenType::ExclamationMark)
    } else {
        None
    }
}

/// The two-character operator that a one-character one followed by `c` makes.
pub open spec fn double_kind(k: TokenType, c: char) -> Option<TokenType> {
    match k {
        TokenType::EqualSign => if c == '=' { Some(TokenType::DoubleEqualSign) } else { None },
        TokenType::LessThanSign => if c == '=' { Some(TokenType::LessThanEqualSign) } else { None },
        TokenType::GreaterThanSign => if c == '=' { Some(TokenType::GreaterThanEqualSign) } else { None },
        TokenType::ExclamationMark => if c == '=' { Some(TokenType::NotEqualSign) } else { None },
        TokenType::QuestionMark => if c == '>' { Some(TokenType::QuestionMarkGreaterThan) } else { None },
        TokenType::Multiplication => if c == '*' { Some(TokenType::Power) } else { None },
        TokenType::Division => if c == '/' { Some(TokenType::Log) } else { None },
        TokenType::Subtraction => if c == '-' { Some(TokenType::DoubleSubtraction) } else { None },
        _ => None,
    }
}

pub open spec fn quote_char(c: char) -> bool {
    c == '"' || c == '\''
}

/// A character that starts no token: literal text outside a block.
pub open spec fn literal_char(c: char) -> bool {
    special_kind(c) is None && !numeric_char(c) && !quote_char(c) && !identifier_char(c)
}

/// The kinds of character runs that the lexer consumes whole.
#[derive(Clone, Copy, PartialEq, Eq, Structural)]
pub enum Run {
    Number,
    Identifier,
    Literal,
}

pub open spec fn in_run(r: Run, c: char) -> bool {
    match r {
        Run::Number => numeric_char(c) || c == '.' || c == '_',
        Run::Identifier => identifier_char(c),
        Run::Literal => literal_char(c),
    }
}

/// The first position at or after `pos` whose character does not continue run `r`.
pub open spec fn run_end(chars: Seq<char>, pos: int, r: Run) -> int
    decreases chars.len() - pos,
{
    if pos < 0 || pos >= chars.len() || !in_run(r, chars[pos]) {
        pos
    } else {
        run_end(chars, pos + 1, r)
    }
}

/// The text of a quoted string whose opening quote `q` stands before `pos`, and
/// the position after its closing quote; `\` takes the next character literally.
pub open spec fn string_scan(chars: Seq<char>, pos: int, q: char) -> (Seq<char>, int)
    decreases chars.len() - pos,
{
    if pos < 0 || pos >= chars.len() {
        (Seq::empty(), pos)
    } else if chars[pos] == q {
        (Seq::empty(), pos + 1)
    } else if chars[pos] == '\\' {
        if pos + 1 < chars.len() {
            let rest = string_scan(chars, pos + 2, q);
            (seq![chars[pos + 1]] + rest.0, rest.1)
        } else {
            (Seq::empty(), pos + 1)
        }
    } else {
        let rest = string_scan(chars, pos + 1, q);
        (seq![chars[pos]] + rest.0, rest.1)
    }
}

/// The category of an identifier's text: one of the two keywords, or none.
pub open spec fn keyword_kind(s: Seq<char>) -> Option<TokenType> {
    if s == seq!['n', 'u', 'm', 'b', 'e', 'r'] {
        Some(TokenType::KeyNumber)
    } else if s == seq!['s', 't', 'r', 'i', 'n', 'g'] {
        Some(TokenType::KeyString)
    } else {
        None
    }
}

pub open spec fn token_model(content: Seq<char>, kind: TokenType, start: int, length: int) -> TokenModel {
    TokenModel { content, kind, start, length }
}

/// The operator token at `pos` (one or two characters) and the position after it.
pub open spec fn special_token(chars: Seq<char>, pos: int, k: TokenType) -> (TokenModel, int) {
    if pos + 1 < chars.len() && double_kind(k, chars[pos + 1]) is Some {
        (token_model(chars.subrange(pos, pos + 2), double_kind(k, chars[pos + 1])->0, pos, 2), pos + 2)
    } else {
        (token_model(seq![chars[pos]], k, pos, 1), pos + 1)
    }
}

/// The block mode after a token of kind `k`.
pub open spec fn block_after(k: TokenType, in_block: bool) -> bool {
    if k == TokenType::BlockStart {
        true
    } else if k == TokenType::BlockEnd {
        false
    } else {
        in_block
    }
}

/// One step of the lexer at `pos < chars.len()`: the token found (if any), the
/// position after it, and the block mode after it.
pub open spec fn lex_step(chars: Seq<char>, pos: int, in_block: bool) -> (Option<TokenModel>, int, bool) {
    let c = chars[pos];
    if special_kind(c) is Some {
        let (t, n) = special_token(chars, pos, special_kind(c)->0);
        (Some(t), n, block_after(t.kind, in_block))
    } else if numeric_char(c) {
        let e = run_end(chars, pos + 1, Run::Number);
        (Some(token_model(chars.subrange(pos, e), TokenType::Number, pos, e - pos)), e, in_block)
    } else if quote_char(c) {
        let (s, e) = string_scan(chars, pos + 1, c);
        (Some(token_model(s, TokenType::String, pos, e - pos)), e, in_block)
    } else if identifier_char(c) {
        let e = run_end(chars, pos + 1, Run::Identifier);
        let s = chars.subrange(pos, e);
        let k = if keyword_kind(s) is Some { keyword_kind(s)->0 } else { TokenType::Identifier };
        (Some(token_model(s, k, pos, e - pos)), e, in_block)
    } else if !in_block {
        let e = run_end(chars, pos + 1, Run::Literal);
        (Some(token_model(chars.subrange(pos, e), TokenType::Unvariable, pos, e - pos)), e, in_block)
    } else {
        (None, pos + 1, in_block)
    }
}

/// The tokens of `chars` from `pos` on, in block mode `in_block`.
pub open spec fn lex(chars: Seq<char>, pos: int, in_block: bool) -> Seq<TokenModel>
    decreases chars.len() - pos,
{
    if pos < 0 || pos >= chars.len() {
        Seq::empty()
    } else {
        let (t, n, b) = lex_step(chars, pos, in_block);
        proof {
            lemma_step_advances(chars, pos, in_block);
        }
        match t {
            Some(t) => seq![t] + lex(chars, n, b),
            None => lex(chars, n, b),
        }
    }
}

/// The tokens of a whole template.
pub open spec fn tokens_of(source: Seq<char>) -> Seq<TokenModel> {
    lex(source, 0, false)
}

pub proof fn lemma_run_end(chars: Seq<char>, pos: int, r: Run)
    requires
        0 <= pos <= chars.len(),
    ensures
        pos <= run_end(chars, pos, r) <= chars.len(),
        forall|i: int| pos <= i < run_end(chars, pos, r) ==> in_run(r, #[trigger] chars[i]),
        run_end(chars, pos, r) < chars.len() ==> !in_run(r, chars[run_end(chars, pos, r)]),
    decreases chars.len() - pos,
{
    if pos < chars.len() && in_run(r, chars[pos]) {
        lemma_run_end(chars, pos + 1, r);
    }
}

pub proof fn lemma_string_scan(chars: Seq<char>, pos: int, q: char)
    requires
        0 <= pos <= chars.len(),
    ensures
        pos <= string_scan(chars, pos, q).1 <= chars.len(),
        string_scan(chars, pos, q).0.len() <= string_scan(chars, pos, q).1 - pos,
        pos < chars.len() ==> pos < string_scan(chars, pos, q).1,
    decreases chars.len() - pos,
{
    if pos < chars.len() && chars[pos] != q {
        if chars[pos] == '\\' {
            if pos + 1 < chars.len() {
                lemma_string_scan(chars, pos + 2, q);
            }
        } else {
            lemma_string_scan(chars, pos + 1, q);
        }
    }
}

pub proof fn lemma_step_advances(chars: Seq<char>, pos: int, in_block: bool)
    requires
        0 <= pos < chars.len(),
    ensures
        pos < lex_step(chars, pos, in_block).1 <= chars.len(),
{
    lemma_run_end(chars, pos + 1, Run::Number);
    lemma_run_end(chars, pos + 1, Run::Identifier);
    lemma_run_end(chars, pos + 1, Run::Literal);
    lemma_string_scan(chars, pos + 1, chars[pos]);
}

/// Turns template text into tokens.
pub struct Lexer {
    chain_reader: ChainReader<char>,
    in_block: bool,
}

impl Lexer {
    /// The characters being read.
    pub closed spec fn source(&self) -> Seq<char> {
        self.chain_reader.spec_items()
    }

    /// The position of the next character to read.
    pub closed spec fn position(&self) -> int {
        self.chain_reader.spec_pos() as int
    }

    /// Whether the lexer stands inside a block.
    pub closed spec fn inside_block(&self) -> bool {
        self.in_block
    }

    pub fn new(code: String) -> (r: Self)
        ensures
            r.source() == code@,
            r.position() == 0,
            !r.inside_block(),
    {
        let chars = chars_of(code.as_str());
        Lexer { chain_reader: ChainReader::new(chars), in_block: false }
    }

    /// Reads a one- or two-character operator at the cursor, if `c` starts one.
    pub fn handle_special(&mut self, c: char) -> (r: Option<Token>)
        requires
            0 <= old(self).position() < old(self).source().len(),
            old(self).source()[old(self).position()] == c,
        ensures
            final(self).source() == old(self).source(),
            final(self).inside_block() == old(self).inside_block(),
            special_kind(c) is None ==> r is None && final(self).position() == old(self).position(),
            special_kind(c) is Some ==> r is Some
                && r->0@ == special_token(old(self).source(), old(self).position(), special_kind(c)->0).0
                && final(self).position() == special_token(old(self).source(), old(self).position(), special_kind(c)->0).1,
    {
        let start = self.chain_reader.get_pos();
        let kind = if c == '[' {
            Some(TokenType::BlockStart)
        } else if c == ']' {
            Some(TokenType::BlockEnd)
        } else if c == '+' {
            Some(TokenType::Addition)
        } else if c == '-' {
            Some(TokenType::Subtraction)
        } else if c == '/' {
            Some(TokenType::Division)
        } else if c == '*' {
            Some(TokenType::Multiplication)
        } else if c == '%' {
            Some(TokenType::Modulo)
        } else if c == '(' {
            Some(TokenType::ParentL)
        } else if c == ')' {
            Some(TokenType::ParentR)
        } else if c == ':' {
            Some(TokenType::Semicolon)
        } else if c == '?' {
            Some(TokenType::QuestionMark)
        } else if c == '=' {
            Some(TokenType::EqualSign)
        } else if c == '<' {
            Some(TokenType::LessThanSign)
        } else if c == '>' {
            Some(TokenType::GreaterThanSign)
        } else if c == '!' {
            Some(TokenType::ExclamationMark)
        } else {
            None
        };
        match kind {
            Some(k) => {
                self.chain_reader.advance();
                match self.handle_double_special(c, k, start) {
                    Some(t) => Some(t),
                    None => {
                        let mut raw = String::new();
                        push_char(&mut raw, c);
                        Some(Token { content: raw, kind: k, start, length: 1 })
                    },
                }
            },
            None => None,
        }
    }

    /// Extends the operator `c` (of category `kind`, read at `start`) to a
    /// two-character one when the character at the cursor completes one.
    pub fn handle_double_special(&mut self, c: char, kind: TokenType, start: usize) -> (r: Option<Token>)
        requires
            old(self).position() == start + 1,
            start < old(self).source().len(),
            old(self).source()[start as int] == c,
        ensures
            final(self).source() == old(self).source(),
            final(self).inside_block() == old(self).inside_block(),
            ({
                let s = old(self).source();
                let p = old(self).position();
                if p < s.len() && double_kind(kind, s[p]) is Some {
                    r is Some && r->0@ == token_model(s.subrange(start as int, p + 1), double_kind(kind, s[p])->0, start as int, 2)
                        && final(self).position() == p + 1
                } else {
                    r is None && final(self).position() == p
                }
            }),
    {
        let next_c = match self.chain_reader.get_current() {
            Some(n) => *n,
            None => return None,
        };
        let double = match kind {
            TokenType::EqualSign => if next_c == '=' { Some(TokenType::DoubleEqualSign) } else { None },
            TokenType::LessThanSign => if next_c == '=' { Some(TokenType::LessThanEqualSign) } else { None },
            TokenType::GreaterThanSign => if next_c == '=' { Some(TokenType::GreaterThanEqualSign) } else { None },
            TokenType::ExclamationMark => if next_c == '=' { Some(TokenType::NotEqualSign) } else { None },
            TokenType::QuestionMark => if next_c == '>' { Some(TokenType::QuestionMarkGreaterThan) } else { None },
            TokenType::Multiplication => if next_c == '*' { Some(TokenType::Power) } else { None },
            TokenType::Division => if next_c == '/' { Some(TokenType::Log) } else { None },
            TokenType::Subtraction => if next_c == '-' { Some(TokenType::DoubleSubtraction) } else { None },
            _ => None,
        };
        match double {
            Some(d) => {
                self.chain_reader.advance();
                let mut raw = String::new();
                push_char(&mut raw, c);
                push_char(&mut raw, next_c);
                proof {
                    let s = old(self).source();
                    assert(s.subrange(start as int, start + 2) =~= seq![c, next_c]);
                    assert(raw@ =~= seq![c, next_c]);
                }
                Some(Token { content: raw, kind: d, start, length: 2 })
            },
            None => None,
        }
    }

    /// Moves the cursor to the end of run `r`; returns where the run began.
    fn skip_run(&mut self, r: Run) -> (start: usize)
        requires
            0 <= old(self).position() < old(self).source().len(),
        ensures
            start == old(self).position(),
            final(self).source() == old(self).source(),
            final(self).inside_block() == old(self).inside_block(),
            final(self).position() == run_end(old(self).source(), old(self).position() + 1, r),
    {
        let start = self.chain_reader.get_pos();
        self.chain_reader.advance();
        proof {
            lemma_run_end(self.source(), self.position(), r);
        }
        while self.at_run(r)
            invariant
                self.source() == old(self).source(),
                self.inside_block() == old(self).inside_block(),
                start == old(self).position(),
                start < self.position() <= self.source().len(),
                run_end(self.source(), self.position(), r) == run_end(self.source(), start + 1, r),
            decreases self.source().len() - self.position(),
        {
            assert(run_end(self.source(), self.position(), r) == run_end(self.source(), self.position() + 1, r));
            self.chain_reader.advance();
        }
        start
    }

    /// Whether the character at the cursor continues run `r`.
    fn at_run(&self, r: Run) -> (b: bool)
        requires
            self.position() <= self.source().len(),
        ensures
            b == (self.position() < self.source().len() && in_run(r, self.source()[self.position()])),
    {
        match self.chain_reader.get_current() {
            Some(c) => {
                let current = *c;
                match r {
                    Run::Number => is_numeric(current) || current == '.' || current == '_',
                    Run::Identifier => is_identifer(current),
                    Run::Literal => Self::is_literal(current),
                }
            },
            None => false,
        }
    }

    fn is_literal(c: char) -> (r: bool)
        ensures
            r == literal_char(c),
    {
        let special = c == '[' || c == ']' || c == '+' || c == '-' || c == '/' || c == '*'
            || c == '%' || c == '(' || c == ')' || c == ':' || c == '?' || c == '='
            || c == '<' || c == '>' || c == '!';
        !special && !is_numeric(c) && !(c == '"' || c == '\'') && !is_identifer(c)
    }

    /// Reads a number token: digits, `.` and `_` separators, all kept in its text.
    pub fn handle_number(&mut self, c: char) -> (r: Token)
        requires
            0 <= old(self).position() < old(self).source().len(),
            old(self).source()[old(self).position()] == c,
        ensures
            final(self).source() == old(self).source(),
            final(self).inside_block() == old(self).inside_block(),
            ({
                let s = old(self).source();
                let p = old(self).position();
                let e = run_end(s, p + 1, Run::Number);
                final(self).position() == e && r@ == token_model(s.subrange(p, e), TokenType::Number, p, e - p)
            }),
    {
        proof {
            lemma_run_end(self.source(), self.position() + 1, Run::Number);
        }
        let start = self.skip_run(Run::Number);
        let end = self.chain_reader.get_pos();
        let content = string_from_chars(self.chain_reader.items(), start, end);
        Token { content, kind: TokenType::Number, start, length: end - start }
    }

    /// Reads an identifier token (keywords are told apart by `handle_keyword`).
    pub fn handle_identifer(&mut self, c: char) -> (r: Token)
        requires
            0 <= old(self).position() < old(self).source().len(),
            old(self).source()[old(self).position()] == c,
        ensures
            final(self).source() == old(self).source(),
            final(self).inside_block() == old(self).inside_block(),
            ({
                let s = old(self).source();
                let p = old(self).position();
                let e = run_end(s, p + 1, Run::Identifier);
                final(self).position() == e && r@ == token_model(s.subrange(p, e), TokenType::Identifier, p, e - p)
            }),
    {
        proof {
            lemma_run_end(self.source(), self.position() + 1, Run::Identifier);
        }
        let start = self.skip_run(Run::Identifier);
        let end = self.chain_reader.get_pos();
        let content = string_from_chars(self.chain_reader.items(), start, end);
        Token { content, kind: TokenType::Identifier, start, length: end - start }
    }

    /// Reads a string token opened by the quote `c`; the quotes are not part of
    /// its text, and `\` makes the next character literal.
    pub fn handle_string(&mut self, c: char) -> (r: Token)
        requires
            0 <= old(self).position() < old(self).source().len(),
            old(self).source()[old(self).position()] == c,
        ensures
            final(self).source() == old(self).source(),
            final(self).inside_block() == old(self).inside_block(),
            ({
                let s = old(self).source();
                let p = old(self).position();
                let (text, e) = string_scan(s, p + 1, c);
                final(self).position() == e && r@ == token_model(text, TokenType::String, p, e - p)
            }),
    {
        let ghost s = self.source();
        let start = self.chain_reader.get_pos();
        self.chain_reader.advance();
        let mut raw = String::new();
        proof {
            lemma_string_scan(s, start + 1, c);
        }
        loop
            invariant_except_break
                string_scan(s, start + 1, c) == (raw@ + string_scan(s, self.position(), c).0, string_scan(s, self.position(), c).1),
            invariant
                self.source() == s,
                s == old(self).source(),
                self.inside_block() == old(self).inside_block(),
                start == old(self).position(),
                start < self.position() <= s.len(),
            ensures
                start < self.position() <= s.len(),
                string_scan(s, start + 1, c) == (raw@, self.position() as int),
            decreases s.len() - self.position(),
        {
            let ghost p = self.position();
            let current = match self.chain_reader.get_current() {
                Some(x) => *x,
                None => {
                    assert(raw@ + Seq::<char>::empty() == raw@);
                    break;
                },
            };
            if current == c {
                self.chain_reader.advance();
                assert(raw@ + Seq::<char>::empty() == raw@);
                break;
            }
            if current == '\\' {
                self.chain_reader.advance();
                match self.chain_reader.get_current() {
                    Some(x) => {
                        let escaped = *x;
                        push_char(&mut raw, escaped);
                        self.chain_reader.advance();
                        assert(raw@ + string_scan(s, p + 2, c).0 == old(self).source().subrange(0, 0) + raw@ + string_scan(s, p + 2, c).0);
                    },
                    None => {
                        assert(raw@ + Seq::<char>::empty() == raw@);
                        break;
                    },
                }
            } else {
                push_char(&mut raw, current);
                self.chain_reader.advance();
            }
            proof {
                assert(raw@ + string_scan(s, self.position(), c).0 =~= raw@.drop_last() + string_scan(s, p, c).0);
            }
        }
        let end = self.chain_reader.get_pos();
        Token { content: raw, kind: TokenType::String, start, length: end - start }
    }

    /// The keyword token for an identifier's text `s` read at `start`, if `s` is a keyword.
    pub fn handle_keyword(&self, s: &String, start: usize) -> (r: Option<Token>)
        ensures
            keyword_kind(s@) is None ==> r is None,
            keyword_kind(s@) is Some ==> r is Some && r->0@ == token_model(s@, keyword_kind(s@)->0, start as int, s@.len() as int),
    {
        let v = chars_of(s.as_str());
        let is_number = v.len() == 6 && v[0] == 'n' && v[1] == 'u' && v[2] == 'm' && v[3] == 'b' && v[4] == 'e' && v[5] == 'r';
        let is_string = v.len() == 6 && v[0] == 's' && v[1] == 't' && v[2] == 'r' && v[3] == 'i' && v[4] == 'n' && v[5] == 'g';
        proof {
            if is_number {
                assert(s@ =~= seq!['n', 'u', 'm', 'b', 'e', 'r']);
            }
            if is_string {
                assert(s@ =~= seq!['s', 't', 'r', 'i', 'n', 'g']);
            }
        }
        if is_number {
            Some(Token { content: s.clone(), kind: TokenType::KeyNumber, start, length: v.len() })
        } else if is_string {
            Some(Token { content: s.clone(), kind: TokenType::KeyString, start, length: v.len() })
        } else {
            None
        }
    }

    /// Reads the rest of the source into tokens.
    pub fn tokenize(&mut self) -> (r: Vec<Token>)
        requires
            old(self).position() <= old(self).source().len(),
        ensures
            r@.map_values(|t: Token| t@) == lex(old(self).source(), old(self).position(), old(self).inside_block()),
            final(self).source() == old(self).source(),
            final(self).position() == old(self).source().len(),
    {
        let ghost s = self.source();
        let ghost p0 = self.position();
        let ghost b0 = self.inside_block();
        let mut tokens: Vec<Token> = Vec::new();
        while self.chain_reader.get_pos() < self.chain_reader.len()
            invariant
                self.source() == s,
                0 <= self.position() <= s.len(),
                lex(s, p0, b0) == tokens@.map_values(|t: Token| t@) + lex(s, self.position(), self.inside_block()),
            decreases s.len() - self.position(),
        {
            let ghost p = self.position();
            let ghost b = self.inside_block();
            let current = self.chain_reader.items()[self.chain_reader.get_pos()];
            proof {
                lemma_step_advances(s, p, b);
                lemma_run_end(s, p + 1, Run::Literal);
            }
            let found = if let Some(t) = self.handle_special(current) {
                if t.kind == TokenType::BlockStart {
                    self.in_block = true;
                } else if t.kind == TokenType::BlockEnd {
                    self.in_block = false;
                }
                Some(t)
            } else if is_numeric(current) {
                Some(self.handle_number(current))
            } else if current == '"' || current == '\'' {
                Some(self.handle_string(current))
            } else if is_identifer(current) {
                let start = self.chain_reader.get_pos();
                let t = self.handle_identifer(current);
                match self.handle_keyword(&t.content, start) {
                    Some(k) => Some(k),
                    None => Some(t),
                }
            } else if !self.in_block {
                let start = self.skip_run(Run::Literal);
                let end = self.chain_reader.get_pos();
                let content = string_from_chars(self.chain_reader.items(), start, end);
                Some(Token { content, kind: TokenType::Unvariable, start, length: end - start })
            } else {
                self.chain_reader.advance();
                None
            };
            proof {
                assert(lex_step(s, p, b).1 == self.position());
                assert(lex_step(s, p, b).2 == self.inside_block());
            }
            match found {
                Some(t) => {
                    let ghost before = tokens@.map_values(|t: Token| t@);
                    assert(lex_step(s, p, b).0 == Some(t@));
                    tokens.push(t);
                    assert(tokens@.map_values(|t: Token| t@) =~= before.push(t@));
                    assert(before.push(t@) + lex(s, self.position(), self.inside_block()) =~= before + (seq![t@] + lex(s, self.position(), self.inside_block())));
                },
                None => {},
            }
        }
        assert(tokens@.map_values(|t: Token| t@) + lex(s, self.position(), self.inside_block()) =~= tokens@.map_values(|t: Token| t@));
        tokens
    }
}

/// The tokens of a template text.
pub fn tokenize_source(source: &String) -> (r: Vec<Token>)
    ensures
        r@.map_values(|t: Token| t@) == tokens_of(source@),
{
    let mut lexer = Lexer::new(source.clone());
    lexer.tokenize()
}

} // verus!
