//! The syntax tree of a template. A tree is built once by the parser and only
//! read afterwards: evaluation borrows it.
use vstd::prelude::*;
use crate::number::{NNumber, Ratio};
use crate::token::TokenType;

verus! {

/// A node of the tree.
#[derive(Debug)]
pub enum Node {
    BinaryOperator(NodeBinaryOperator),
    Block(NodeBlock),
    For(NodeFor),
    Condition(NodeCondition),
    Content(NodeContent),
    Identifier(NodeIdentifer),
    Keyword(NodeKeyword),
    Number(NodeNumber),
    String(NodeString),
    Ternary(NodeTernary),
}

/// An arithmetic or text operation on two operands.
#[derive(Debug)]
pub struct NodeBinaryOperator {
    pub operator: TokenType,
    pub left: Box<Node>,
    pub right: Box<Node>,
}

/// A computed fragment (`[ ... ]`), followed by the rest of the template.
#[derive(Debug)]
pub struct NodeBlock {
    pub content: Box<Node>,
    pub next: Option<Box<Node>>,
}

/// A loop binding `identifier` to each whole number from `from` up to `to`
/// (exclusive), joining the texts of `content`.
#[derive(Debug)]
pub struct NodeFor {
    pub identifer: Box<Node>,
    pub from: Box<Node>,
    pub to: Box<Node>,
    pub content: Box<Node>,
}

/// A comparison of two operands.
#[derive(Debug)]
pub struct NodeCondition {
    pub operator: TokenType,
    pub left: Box<Node>,
    pub right: Box<Node>,
}

/// Literal text, followed by the rest of the template.
#[derive(Debug)]
pub struct NodeContent {
    pub content: String,
    pub next: Option<Box<Node>>,
}

/// A variable reference; with `use_for_name`, the name itself as text.
#[derive(Debug)]
pub struct NodeIdentifer {
    pub content: String,
    pub use_for_name: bool,
}

/// A keyword call, `number(...)` or `string(...)`, with an optional precision.
#[derive(Debug)]
pub struct NodeKeyword {
    pub keyword: TokenType,
    pub content: Box<Node>,
    pub precision: Option<Box<Node>>,
}

/// A number literal.
#[derive(Debug)]
pub struct NodeNumber {
    pub content: NNumber,
}

/// A string literal.
#[derive(Debug)]
pub struct NodeString {
    pub content: String,
}

/// A choice between two branches on a truth value.
#[derive(Debug)]
pub struct NodeTernary {
    pub condition: Box<Node>,
    pub left: Box<Node>,
    pub right: Box<Node>,
}

/// The mathematical view of a tree.
pub enum Ast {
    Binary { op: TokenType, left: Box<Ast>, right: Box<Ast> },
    Block { content: Box<Ast>, next: Option<Box<Ast>> },
    For { identifier: Box<Ast>, from: Box<Ast>, to: Box<Ast>, content: Box<Ast> },
    Condition { op: TokenType, left: Box<Ast>, right: Box<Ast> },
    Content { text: Seq<char>, next: Option<Box<Ast>> },
    Identifier { name: Seq<char>, for_name: bool },
    Keyword { kind: TokenType, content: Box<Ast>, precision: Option<Box<Ast>> },
    Number(Ratio),
    Text(Seq<char>),
    Ternary { condition: Box<Ast>, left: Box<Ast>, right: Box<Ast> },
}

/// The model of a node.
pub open spec fn ast_of(n: Node) -> Ast
    decreases n,
{
    match n {
        Node::BinaryOperator(b) => Ast::Binary { op: b.operator, left: Box::new(ast_of(*b.left)), right: Box::new(ast_of(*b.right)) },
        Node::Block(b) => Ast::Block { content: Box::new(ast_of(*b.content)), next: match b.next { Some(x) => Some(Box::new(ast_of(*x))), None => None } },
        Node::For(f) => Ast::For {
            identifier: Box::new(ast_of(*f.identifer)),
            from: Box::new(ast_of(*f.from)),
            to: Box::new(ast_of(*f.to)),
            content: Box::new(ast_of(*f.content)),
        },
        Node::Condition(c) => Ast::Condition { op: c.operator, left: Box::new(ast_of(*c.left)), right: Box::new(ast_of(*c.right)) },
        Node::Content(c) => Ast::Content { text: c.content@, next: match c.next { Some(x) => Some(Box::new(ast_of(*x))), None => None } },
        Node::Identifier(i) => Ast::Identifier { name: i.content@, for_name: i.use_for_name },
        Node::Keyword(k) => Ast::Keyword { kind: k.keyword, content: Box::new(ast_of(*k.content)), precision: match k.precision { Some(x) => Some(Box::new(ast_of(*x))), None => None } },
        Node::Number(x) => Ast::Number(x.content@),
        Node::String(s) => Ast::Text(s.content@),
        Node::Ternary(t) => Ast::Ternary {
            condition: Box::new(ast_of(*t.condition)),
            left: Box::new(ast_of(*t.left)),
            right: Box::new(ast_of(*t.right)),
        },
    }
}

/// Every number literal of the tree has a positive denominator.
pub open spec fn wf_node(n: Node) -> bool
    decreases n,
{
    match n {
        Node::BinaryOperator(b) => wf_node(*b.left) && wf_node(*b.right),
        Node::Block(b) => wf_node(*b.content) && match b.next { Some(x) => wf_node(*x), None => true },
        Node::For(f) => wf_node(*f.identifer) && wf_node(*f.from) && wf_node(*f.to) && wf_node(*f.content),
        Node::Condition(c) => wf_node(*c.left) && wf_node(*c.right),
        Node::Content(c) => match c.next { Some(x) => wf_node(*x), None => true },
        Node::Identifier(_) => true,
        Node::Keyword(k) => wf_node(*k.content) && match k.precision { Some(x) => wf_node(*x), None => true },
        Node::Number(x) => x.content.wf(),
        Node::String(_) => true,
        Node::Ternary(t) => wf_node(*t.condition) && wf_node(*t.left) && wf_node(*t.right),
    }
}

impl View for Node {
    type V = Ast;

    open spec fn view(&self) -> Ast {
        ast_of(*self)
    }
}

impl Node {
    pub open spec fn wf(&self) -> bool {
        wf_node(*self)
    }
}

impl NodeIdentifer {
    pub fn new(content: String) -> (r: NodeIdentifer)
        ensures
            r.content@ == content@,
            !r.use_for_name,
    {
        NodeIdentifer { content, use_for_name: false }
    }
}

} // verus!
