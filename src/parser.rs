//! The parser: tokens to a tree, by recursive descent. Each production is a
//! method whose result and final position are those of the matching spec
//! function in `grammar`.
use vstd::prelude::*;
use crate::ast::{wf_node, Node, NodeBinaryOperator, NodeBlock, NodeCondition, NodeContent, NodeIdentifer, NodeKeyword, NodeNumber, NodeString, NodeTernary};
use crate::chain_reader::ChainReader;
use crate::errors::{ParseError, ParseFailure};
use crate::grammar::{
    addsub_ops, at_kind, basic_kinds, condition_ops, content_end, contents, g_addsub, g_addsub_rest, g_basic,
    g_condition, g_condition_rest, g_identifier, g_inner_block, g_keyword, g_literal, g_muldiv, g_muldiv_rest, g_number,
    g_paren, g_powlog, g_powlog_rest, g_string, g_template, g_ternary, keyword_kinds, muldiv_ops, powlog_ops,
    sign_kinds, ternary_ops, unexpected,
};
use crate::number::{parse_decimal, without_underscores};
use crate::text::chars_of;
use crate::token::{Token, TokenModel, TokenType};
use crate::ast::Ast;

verus! {

pub open spec fn parsed(r: Result<Node, ParseError>) -> Result<Ast, ParseFailure> {
    match r {
        Ok(n) => Ok(n@),
        Err(e) => Err(e@),
    }
}

pub open spec fn views(v: Seq<Token>) -> Seq<TokenModel> {
    v.map_values(|t: Token| t@)
}

/// A cursor over tokens, with the source text for diagnostics.
pub struct BaseParser {
    pub chain_reader: ChainReader<Token>,
    code: String,
}

impl BaseParser {
    pub closed spec fn toks(&self) -> Seq<TokenModel> {
        views(self.chain_reader.spec_items())
    }

    pub closed spec fn pos(&self) -> int {
        self.chain_reader.spec_pos() as int
    }

    pub closed spec fn source(&self) -> Seq<char> {
        self.code@
    }

    pub open spec fn wf(&self) -> bool {
        0 <= self.pos() <= self.toks().len()
    }

    pub fn new(tokens: Vec<Token>, code: String) -> (r: Self)
        ensures
            r.toks() == views(tokens@),
            r.pos() == 0,
            r.source() == code@,
            r.wf(),
    {
        BaseParser { chain_reader: ChainReader::new(tokens), code }
    }

    pub fn get_code(&self) -> (r: String)
        ensures
            r@ == self.source(),
    {
        self.code.clone()
    }

    /// The current token, moving past it.
    pub fn any(&mut self) -> (r: Result<Token, ParseError>)
        requires
            old(self).wf(),
        ensures
            final(self).toks() == old(self).toks(),
            final(self).source() == old(self).source(),
            final(self).wf(),
            old(self).pos() < old(self).toks().len() ==> r is Ok && r->Ok_0@ == old(self).toks()[old(self).pos()]
                && final(self).pos() == old(self).pos() + 1,
            old(self).pos() >= old(self).toks().len() ==> (r matches Err(e) && e@ == ParseFailure::UnexpectedEnd)
                && final(self).pos() == old(self).pos(),
    {
        match self.chain_reader.eat() {
            Some(t) => Ok(t.duplicate()),
            None => Err(ParseError::UnexpectedEnd),
        }
    }

    /// The current token if it has kind `kind`, moving past it.
    pub fn expect(&mut self, kind: TokenType) -> (r: Result<Token, ParseError>)
        requires
            old(self).wf(),
        ensures
            final(self).toks() == old(self).toks(),
            final(self).source() == old(self).source(),
            final(self).wf(),
            at_kind(old(self).toks(), old(self).pos(), seq![kind]) ==> r is Ok
                && r->Ok_0@ == old(self).toks()[old(self).pos()]
                && final(self).pos() == old(self).pos() + 1,
            !at_kind(old(self).toks(), old(self).pos(), seq![kind]) ==> (r matches Err(e)
                && e@ == unexpected(old(self).toks(), old(self).pos(), seq![kind]))
                && final(self).pos() == old(self).pos(),
    {
        let kinds = vec![kind];
        assert(kinds@ =~= seq![kind]);
        self.expect_m(kinds)
    }

    /// The current token if it has one of the `kinds`, moving past it.
    pub fn expect_m(&mut self, kinds: Vec<TokenType>) -> (r: Result<Token, ParseError>)
        requires
            old(self).wf(),
        ensures
            final(self).toks() == old(self).toks(),
            final(self).source() == old(self).source(),
            final(self).wf(),
            at_kind(old(self).toks(), old(self).pos(), kinds@) ==> r is Ok
                && r->Ok_0@ == old(self).toks()[old(self).pos()]
                && final(self).pos() == old(self).pos() + 1,
            !at_kind(old(self).toks(), old(self).pos(), kinds@) ==> (r matches Err(e)
                && e@ == unexpected(old(self).toks(), old(self).pos(), kinds@))
                && final(self).pos() == old(self).pos(),
    {
        let found = match self.chain_reader.get_current() {
            Some(t) => t.duplicate(),
            None => return Err(ParseError::UnexpectedEnd),
        };
        let mut i: usize = 0;
        while i < kinds.len()
            invariant
                i <= kinds@.len(),
                forall|j: int| 0 <= j < i ==> kinds@[j] != found.kind,
                *self == *old(self),
                self.pos() < self.toks().len(),
                found@ == self.toks()[self.pos()],
            decreases kinds.len() - i,
        {
            if kinds[i] == found.kind {
                self.chain_reader.advance();
                return Ok(found);
            }
            i = i + 1;
        }
        Err(ParseError::UnexpectedToken { found: found.kind, expected: kinds, start: found.start, length: found.length })
    }

    /// The kind of the current token, if there is one.
    pub fn peek_kind(&self) -> (r: Option<TokenType>)
        requires
            self.wf(),
        ensures
            r is Some <==> self.pos() < self.toks().len(),
            r is Some ==> r->0 == self.toks()[self.pos()].kind,
    {
        match self.chain_reader.get_current() {
            Some(t) => Some(t.kind),
            None => None,
        }
    }

    /// The error for the current position: the end of input, or the token
    /// found there where one of `kinds` was expected.
    pub fn unexpected_here(&self, kinds: Vec<TokenType>) -> (r: ParseError)
        requires
            self.wf(),
        ensures
            r@ == unexpected(self.toks(), self.pos(), kinds@),
    {
        match self.chain_reader.get_current() {
            Some(t) => ParseError::UnexpectedToken { found: t.kind, expected: kinds, start: t.start, length: t.length },
            None => ParseError::UnexpectedEnd,
        }
    }

    /// Whether the current token has one of the `kinds`.
    pub fn check(&self, kinds: &Vec<TokenType>) -> (r: bool)
        requires
            self.wf(),
        ensures
            r == at_kind(self.toks(), self.pos(), kinds@),
    {
        match self.chain_reader.get_current() {
            Some(t) => {
                let mut i: usize = 0;
                while i < kinds.len()
                    invariant
                        i <= kinds@.len(),
                        forall|j: int| 0 <= j < i ==> kinds@[j] != t.kind,
                        self.pos() < self.toks().len(),
                        t@ == self.toks()[self.pos()],
                    decreases kinds.len() - i,
                {
                    if kinds[i] == t.kind {
                        return true;
                    }
                    i = i + 1;
                }
                false
            },
            None => false,
        }
    }
}

fn kinds_of(k: TokenType) -> (r: Vec<TokenType>)
    ensures
        r@ == seq![k],
{
    let r = vec![k];
    assert(r@ =~= seq![k]);
    r
}

fn condition_vec() -> (r: Vec<TokenType>)
    ensures
        r@ == condition_ops(),
{
    let r = vec![
        TokenType::LessThanSign,
        TokenType::LessThanEqualSign,
        TokenType::GreaterThanSign,
        TokenType::GreaterThanEqualSign,
        TokenType::DoubleEqualSign,
    ];
    assert(r@ =~= condition_ops());
    r
}

fn addsub_vec() -> (r: Vec<TokenType>)
    ensures
        r@ == addsub_ops(),
{
    let r = vec![TokenType::Addition, TokenType::Subtraction, TokenType::DoubleSubtraction, TokenType::Modulo];
    assert(r@ =~= addsub_ops());
    r
}

fn muldiv_vec() -> (r: Vec<TokenType>)
    ensures
        r@ == muldiv_ops(),
{
    let r = vec![TokenType::Multiplication, TokenType::Division];
    assert(r@ =~= muldiv_ops());
    r
}

fn powlog_vec() -> (r: Vec<TokenType>)
    ensures
        r@ == powlog_ops(),
{
    let r = vec![TokenType::Power, TokenType::Log];
    assert(r@ =~= powlog_ops());
    r
}

fn ternary_vec() -> (r: Vec<TokenType>)
    ensures
        r@ == ternary_ops(),
{
    let r = vec![TokenType::QuestionMark, TokenType::QuestionMarkGreaterThan];
    assert(r@ =~= ternary_ops());
    r
}

fn keyword_vec() -> (r: Vec<TokenType>)
    ensures
        r@ == keyword_kinds(),
{
    let r = vec![TokenType::KeyNumber, TokenType::KeyString];
    assert(r@ =~= keyword_kinds());
    r
}

fn sign_vec() -> (r: Vec<TokenType>)
    ensures
        r@ == sign_kinds(),
{
    let r = vec![TokenType::Addition, TokenType::Subtraction];
    assert(r@ =~= sign_kinds());
    r
}

fn basic_vec() -> (r: Vec<TokenType>)
    ensures
        r@ == basic_kinds(),
{
    let r = vec![TokenType::KeyNumber, TokenType::KeyString, TokenType::Identifier, TokenType::String, TokenType::Number];
    assert(r@ =~= basic_kinds());
    r
}

fn binary(op: TokenType, left: Node, right: Node) -> (r: Node)
    ensures
        r@ == (Ast::Binary { op, left: Box::new(left@), right: Box::new(right@) }),
        r.wf() == (left.wf() && right.wf()),
{
    Node::BinaryOperator(NodeBinaryOperator { operator: op, left: Box::new(left), right: Box::new(right) })
}

fn ternary(condition: Node, left: Node, right: Node) -> (r: Node)
    ensures
        r@ == (Ast::Ternary { condition: Box::new(condition@), left: Box::new(left@), right: Box::new(right@) }),
        r.wf() == (condition.wf() && left.wf() && right.wf()),
{
    Node::Ternary(NodeTernary { condition: Box::new(condition), left: Box::new(left), right: Box::new(right) })
}

fn keyword_node(kind: TokenType, content: Node, precision: Option<Node>) -> (r: Node)
    ensures
        r@ == (Ast::Keyword {
            kind,
            content: Box::new(content@),
            precision: match precision { Some(p) => Some(Box::new(p@)), None => None },
        }),
        r.wf() == (content.wf() && match precision { Some(p) => p.wf(), None => true }),
{
    let precision = match precision {
        Some(p) => Some(Box::new(p)),
        None => None,
    };
    Node::Keyword(NodeKeyword { keyword: kind, content: Box::new(content), precision })
}

/// Parses tokens into a tree.
pub struct Parser {
    base_parser: BaseParser,
}

impl Parser {
    pub closed spec fn toks(&self) -> Seq<TokenModel> {
        self.base_parser.toks()
    }

    pub closed spec fn pos(&self) -> int {
        self.base_parser.pos()
    }

    pub closed spec fn wf(&self) -> bool {
        self.base_parser.wf()
    }

    /// The tokens are those of `before` and the position has not moved back.
    pub open spec fn keeps(&self, before: &Parser) -> bool {
        self.wf() && self.toks() == before.toks() && self.pos() >= before.pos()
    }

    pub fn new(tokens: Vec<Token>, code: String) -> (r: Self)
        ensures
            r.toks() == views(tokens@),
            r.pos() == 0,
            r.wf(),
    {
        Parser { base_parser: BaseParser::new(tokens, code) }
    }

    /// The source text of the template.
    pub fn get_code(&self) -> (r: String) {
        self.base_parser.get_code()
    }

    /// `start` followed by the texts of the tokens up to the next `[`.
    pub fn content_all(&mut self, start: &String) -> (r: String)
        requires
            old(self).wf(),
        ensures
            final(self).keeps(old(self)),
            final(self).pos() == content_end(old(self).toks(), old(self).pos()),
            r@ == start@ + contents(old(self).toks(), old(self).pos(), content_end(old(self).toks(), old(self).pos())),
    {
        let ghost t = self.toks();
        let ghost p0 = self.pos();
        let mut content = start.clone();
        let block = kinds_of(TokenType::BlockStart);
        loop
            invariant
                self.keeps(old(self)),
                t == self.toks(),
                p0 == old(self).pos(),
                block@ == seq![TokenType::BlockStart],
                content_end(t, p0) == content_end(t, self.pos()),
                content@ == start@ + contents(t, p0, self.pos()),
            ensures
                self.keeps(old(self)),
                self.pos() == content_end(t, p0),
                content@ == start@ + contents(t, p0, self.pos()),
            decreases t.len() - self.pos(),
        {
            let ghost p = self.pos();
            match self.base_parser.chain_reader.get_current() {
                None => {
                    break;
                },
                Some(tok) => {
                    if tok.kind == TokenType::BlockStart {
                        break;
                    }
                    content.append(tok.content.as_str());
                },
            }
            self.base_parser.chain_reader.advance();
            assert(contents(t, p0, p + 1) == contents(t, p0, p) + t[p].content);
            assert(content@ =~= start@ + contents(t, p0, self.pos()));
        }
        content
    }
    pub fn parse_identifier(&mut self) -> (r: Result<Node, ParseError>)
        requires
            old(self).wf(),
        ensures
            final(self).keeps(old(self)),
            (parsed(r), final(self).pos()) == g_identifier(old(self).toks(), old(self).pos()),
            r is Ok ==> r->Ok_0.wf(),
    {
        match self.base_parser.expect(TokenType::Identifier) {
            Ok(t) => Ok(Node::Identifier(NodeIdentifer { content: t.content, use_for_name: false })),
            Err(e) => Err(e),
        }
    }

    pub fn parse_string(&mut self) -> (r: Result<Node, ParseError>)
        requires
            old(self).wf(),
        ensures
            final(self).keeps(old(self)),
            (parsed(r), final(self).pos()) == g_string(old(self).toks(), old(self).pos()),
            r is Ok ==> r->Ok_0.wf(),
    {
        match self.base_parser.expect(TokenType::String) {
            Ok(t) => Ok(Node::String(NodeString { content: t.content })),
            Err(e) => Err(e),
        }
    }

    /// A number literal, with an optional sign token before it.
    pub fn parse_number(&mut self) -> (r: Result<Node, ParseError>)
        requires
            old(self).wf(),
        ensures
            final(self).keeps(old(self)),
            (parsed(r), final(self).pos()) == g_number(old(self).toks(), old(self).pos()),
            r is Ok ==> r->Ok_0.wf(),
    {
        let mut text: Vec<char> = Vec::new();
        let ghost t = self.toks();
        let ghost p = self.pos();
        match self.base_parser.expect_m(sign_vec()) {
            Ok(sign) => {
                text = chars_of(sign.content.as_str());
            },
            Err(_) => {},
        }
        let ghost sign_text = text@;
        let token = match self.base_parser.expect(TokenType::Number) {
            Ok(tok) => tok,
            Err(e) => return Err(e),
        };
        let digits = chars_of(token.content.as_str());
        let mut i: usize = 0;
        while i < digits.len()
            invariant
                i <= digits@.len(),
                text@ == sign_text + without_underscores(digits@.subrange(0, i as int)),
            decreases digits.len() - i,
        {
            assert(digits@.subrange(0, i + 1).drop_last() =~= digits@.subrange(0, i as int));
            if digits[i] != '_' {
                text.push(digits[i]);
            }
            i = i + 1;
        }
        assert(digits@.subrange(0, digits@.len() as int) =~= digits@);
        match parse_decimal(&text) {
            Some(Ok(n)) => Ok(Node::Number(NodeNumber { content: n })),
            _ => Err(ParseError::InvalidNumber { start: token.start, length: token.length }),
        }
    }

    pub fn parse_ternary(&mut self) -> (r: Result<Node, ParseError>)
        requires
            old(self).wf(),
        ensures
            final(self).keeps(old(self)),
            (parsed(r), final(self).pos()) == g_ternary(old(self).toks(), old(self).pos()),
            r is Ok ==> r->Ok_0.wf(),
        decreases old(self).toks().len() - old(self).pos(), 11int,
    {
        let condition = match self.parse_condition() {
            Ok(n) => n,
            Err(e) => return Err(e),
        };
        let token = match self.base_parser.expect_m(ternary_vec()) {
            Ok(tok) => tok,
            Err(_) => return Ok(condition),
        };
        let left = match self.parse_ternary() {
            Ok(n) => n,
            Err(e) => return Err(e),
        };
        let right = if token.kind == TokenType::QuestionMark {
            match self.base_parser.expect(TokenType::Semicolon) {
                Ok(_) => {},
                Err(e) => return Err(e),
            }
            match self.parse_ternary() {
                Ok(n) => n,
                Err(e) => return Err(e),
            }
        } else {
            Node::String(NodeString { content: String::new() })
        };
        Ok(ternary(condition, left, right))
    }

    pub fn parse_condition(&mut self) -> (r: Result<Node, ParseError>)
        requires
            old(self).wf(),
        ensures
            final(self).keeps(old(self)),
            (parsed(r), final(self).pos()) == g_condition(old(self).toks(), old(self).pos()),
            r is Ok ==> r->Ok_0.wf(),
        decreases old(self).toks().len() - old(self).pos(), 10int,
    {
        let ghost t = self.toks();
        let ghost p0 = self.pos();
        let mut left = match self.parse_binary_operation() {
            Ok(n) => n,
            Err(e) => return Err(e),
        };
        let ops = condition_vec();
        while self.base_parser.check(&ops)
            invariant
                self.keeps(old(self)),
                t == self.toks(),
                p0 == old(self).pos(),
                ops@ == condition_ops(),
                left.wf(),
                g_condition(t, p0) == g_condition_rest(t, self.pos(), left@),
            decreases t.len() - self.pos(),
        {
            let op = match self.base_parser.expect_m(condition_vec()) {
                Ok(tok) => tok,
                Err(e) => return Err(e),
            };
            let right = match self.parse_binary_operation() {
                Ok(n) => n,
                Err(e) => return Err(e),
            };
            left = Node::Condition(NodeCondition { operator: op.kind, left: Box::new(left), right: Box::new(right) });
        }
        Ok(left)
    }

    pub fn parse_binary_operation(&mut self) -> (r: Result<Node, ParseError>)
        requires
            old(self).wf(),
        ensures
            final(self).keeps(old(self)),
            (parsed(r), final(self).pos()) == g_addsub(old(self).toks(), old(self).pos()),
            r is Ok ==> r->Ok_0.wf(),
        decreases old(self).toks().len() - old(self).pos(), 8int,
    {
        let ghost t = self.toks();
        let ghost p0 = self.pos();
        let mut left = match self.parse_binary_mul_div() {
            Ok(n) => n,
            Err(e) => return Err(e),
        };
        let ops = addsub_vec();
        while self.base_parser.check(&ops)
            invariant
                self.keeps(old(self)),
                t == self.toks(),
                p0 == old(self).pos(),
                ops@ == addsub_ops(),
                left.wf(),
                g_addsub(t, p0) == g_addsub_rest(t, self.pos(), left@),
            decreases t.len() - self.pos(),
        {
            let op = match self.base_parser.expect_m(addsub_vec()) {
                Ok(tok) => tok,
                Err(e) => return Err(e),
            };
            let right = match self.parse_binary_mul_div() {
                Ok(n) => n,
                Err(e) => return Err(e),
            };
            left = binary(op.kind, left, right);
        }
        Ok(left)
    }

    pub fn parse_binary_mul_div(&mut self) -> (r: Result<Node, ParseError>)
        requires
            old(self).wf(),
        ensures
            final(self).keeps(old(self)),
            (parsed(r), final(self).pos()) == g_muldiv(old(self).toks(), old(self).pos()),
            r is Ok ==> r->Ok_0.wf(),
        decreases old(self).toks().len() - old(self).pos(), 6int,
    {
        let ghost t = self.toks();
        let ghost p0 = self.pos();
        let mut left = match self.parse_binary_pow_log() {
            Ok(n) => n,
            Err(e) => return Err(e),
        };
        let ops = muldiv_vec();
        while self.base_parser.check(&ops)
            invariant
                self.keeps(old(self)),
                t == self.toks(),
                p0 == old(self).pos(),
                ops@ == muldiv_ops(),
                left.wf(),
                g_muldiv(t, p0) == g_muldiv_rest(t, self.pos(), left@),
            decreases t.len() - self.pos(),
        {
            let op = match self.base_parser.expect_m(muldiv_vec()) {
                Ok(tok) => tok,
                Err(e) => return Err(e),
            };
            let right = match self.parse_binary_pow_log() {
                Ok(n) => n,
                Err(e) => return Err(e),
            };
            left = binary(op.kind, left, right);
        }
        Ok(left)
    }

    pub fn parse_binary_pow_log(&mut self) -> (r: Result<Node, ParseError>)
        requires
            old(self).wf(),
        ensures
            final(self).keeps(old(self)),
            (parsed(r), final(self).pos()) == g_powlog(old(self).toks(), old(self).pos()),
            r is Ok ==> r->Ok_0.wf(),
        decreases old(self).toks().len() - old(self).pos(), 4int,
    {
        let ghost t = self.toks();
        let ghost p0 = self.pos();
        let mut left = match self.parse_binary_parenthese() {
            Ok(n) => n,
            Err(e) => return Err(e),
        };
        let ops = powlog_vec();
        while self.base_parser.check(&ops)
            invariant
                self.keeps(old(self)),
                t == self.toks(),
                p0 == old(self).pos(),
                ops@ == powlog_ops(),
                left.wf(),
                g_powlog(t, p0) == g_powlog_rest(t, self.pos(), left@),
            decreases t.len() - self.pos(),
        {
            let op = match self.base_parser.expect_m(powlog_vec()) {
                Ok(tok) => tok,
                Err(e) => return Err(e),
            };
            let right = match self.parse_binary_parenthese() {
                Ok(n) => n,
                Err(e) => return Err(e),
            };
            left = binary(op.kind, left, right);
        }
        Ok(left)
    }

    /// A parenthesised expression, else a basic term.
    pub fn parse_binary_parenthese(&mut self) -> (r: Result<Node, ParseError>)
        requires
            old(self).wf(),
        ensures
            final(self).keeps(old(self)),
            (parsed(r), final(self).pos()) == g_paren(old(self).toks(), old(self).pos()),
            r is Ok ==> r->Ok_0.wf(),
        decreases old(self).toks().len() - old(self).pos(), 2int,
    {
        if self.base_parser.expect(TokenType::ParentL).is_ok() {
            let inner = match self.parse_ternary() {
                Ok(n) => n,
                Err(e) => return Err(e),
            };
            return match self.base_parser.expect(TokenType::ParentR) {
                Ok(_) => Ok(inner),
                Err(e) => Err(e),
            };
        }
        self.parse_basic_type()
    }

    /// A keyword call, else an identifier, else a string, else a number.
    pub fn parse_basic_type(&mut self) -> (r: Result<Node, ParseError>)
        requires
            old(self).wf(),
        ensures
            final(self).keeps(old(self)),
            (parsed(r), final(self).pos()) == g_basic(old(self).toks(), old(self).pos()),
            r is Ok ==> r->Ok_0.wf(),
        decreases old(self).toks().len() - old(self).pos(), 1int,
    {
        let keyword = self.parse_keyword();
        if keyword.is_ok() {
            return keyword;
        }
        self.parse_literal()
    }

    /// An identifier, else a string, else a number.
    pub fn parse_literal(&mut self) -> (r: Result<Node, ParseError>)
        requires
            old(self).wf(),
        ensures
            final(self).keeps(old(self)),
            (parsed(r), final(self).pos()) == g_literal(old(self).toks(), old(self).pos()),
            r is Ok ==> r->Ok_0.wf(),
    {
        let identifer = self.parse_identifier();
        if identifer.is_ok() {
            return identifer;
        }
        let string = self.parse_string();
        if string.is_ok() {
            return string;
        }
        let number = self.parse_number();
        if number.is_ok() {
            return number;
        }
        Err(self.base_parser.unexpected_here(basic_vec()))
    }

    /// `number(...)` or `string(...)`, with an optional precision expression.
    #[verifier::rlimit(60)]
    pub fn parse_keyword(&mut self) -> (r: Result<Node, ParseError>)
        requires
            old(self).wf(),
        ensures
            final(self).keeps(old(self)),
            (parsed(r), final(self).pos()) == g_keyword(old(self).toks(), old(self).pos()),
            r is Ok ==> r->Ok_0.wf(),
        decreases old(self).toks().len() - old(self).pos(), 0int,
    {
        let keyword = match self.base_parser.expect_m(keyword_vec()) {
            Ok(tok) => tok,
            Err(e) => return Err(e),
        };
        match self.base_parser.expect(TokenType::ParentL) {
            Ok(_) => {},
            Err(e) => return Err(e),
        }
        let content = match self.parse_ternary() {
            Ok(n) => n,
            Err(e) => return Err(e),
        };
        if self.base_parser.check(&kinds_of(TokenType::ParentR)) {
            let _ = self.base_parser.expect(TokenType::ParentR);
            return Ok(keyword_node(keyword.kind, content, None));
        }
        if self.base_parser.peek_kind().is_none() {
            return match self.base_parser.expect(TokenType::ParentR) {
                Ok(_) => Err(ParseError::UnexpectedEnd),
                Err(e) => Err(e),
            };
        }
        let precision = match self.parse_ternary() {
            Ok(n) => n,
            Err(e) => return Err(e),
        };
        match self.base_parser.expect(TokenType::ParentR) {
            Ok(_) => Ok(keyword_node(keyword.kind, content, Some(precision))),
            Err(e) => Err(e),
        }
    }

    /// An expression closed by `]`.
    pub fn parse_inner_block(&mut self) -> (r: Result<Node, ParseError>)
        requires
            old(self).wf(),
        ensures
            final(self).keeps(old(self)),
            (parsed(r), final(self).pos()) == g_inner_block(old(self).toks(), old(self).pos()),
            r is Ok ==> r->Ok_0.wf(),
    {
        let node = match self.parse_ternary() {
            Ok(n) => n,
            Err(e) => return Err(e),
        };
        match self.base_parser.expect(TokenType::BlockEnd) {
            Ok(_) => Ok(node),
            Err(e) => Err(e),
        }
    }

    /// The template from the cursor on: literal runs and blocks, chained.
    pub fn parse(&mut self) -> (r: Result<Node, ParseError>)
        requires
            old(self).wf(),
        ensures
            final(self).keeps(old(self)),
            (parsed(r), final(self).pos()) == g_template(old(self).toks(), old(self).pos()),
            r is Ok ==> r->Ok_0.wf(),
        decreases old(self).toks().len() - old(self).pos(),
    {
        let token = match self.base_parser.any() {
            Ok(tok) => tok,
            Err(e) => return Err(e),
        };
        if token.kind == TokenType::BlockStart {
            let content = match self.parse_inner_block() {
                Ok(n) => n,
                Err(e) => return Err(e),
            };
            if self.base_parser.peek_kind().is_none() {
                return Ok(Node::Block(NodeBlock { content: Box::new(content), next: None }));
            }
            match self.parse() {
                Ok(next) => Ok(Node::Block(NodeBlock { content: Box::new(content), next: Some(Box::new(next)) })),
                Err(e) => Err(e),
            }
        } else {
            let content = self.content_all(&token.content);
            if self.base_parser.peek_kind().is_none() {
                return Ok(Node::Content(NodeContent { content, next: None }));
            }
            match self.parse() {
                Ok(next) => Ok(Node::Content(NodeContent { content, next: Some(Box::new(next)) })),
                Err(e) => Err(e),
            }
        }
    }
}

} // verus!
