//! The whole pipeline: template text to tree, tree and captures to text.
use vstd::prelude::*;
use crate::ast::Node;
use crate::errors::ParseError;
use crate::grammar::parse_tokens;
use crate::lexer::{tokenize_source, tokens_of};
use crate::parser::{parsed, views, Parser};

verus! {

/// The tree of a template text.
pub fn compile(source: &String) -> (r: Result<Node, ParseError>)
    ensures
        parsed(r) == parse_tokens(tokens_of(source@)),
        r is Ok ==> r->Ok_0.wf(),
{
    let tokens = tokenize_source(source);
    assert(views(tokens@) == tokens_of(source@));
    let mut parser = Parser::new(tokens, source.clone());
    parser.parse()
}

} // verus!
