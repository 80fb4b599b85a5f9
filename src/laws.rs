//! General properties of the template language, proved over the spec
//! functions that the library's functions are proved against.
use vstd::prelude::*;
use crate::ast::Ast;
use crate::grammar::{content_end, contents, g_template, parse_tokens, Toks};
use crate::interpreter::{cap_count_name, capture_scope, count_name, eval, lookup, Env};
use crate::number::nat_text;
use crate::scope::reserved;
use crate::value::boolean_of;
use crate::errors::Failure;
use crate::lexer::{lex, lex_step, lemma_run_end, lemma_step_advances, quote_char, special_kind, tokens_of, Run};
use crate::token::{TokenModel, TokenType};
use crate::value::Value;

verus! {

/// Text that holds no `[` and no quote character.
pub open spec fn plain_text(s: Seq<char>) -> bool {
    forall|i: int| 0 <= i < s.len() ==> s[i] != '[' && !quote_char(#[trigger] s[i])
}

proof fn lemma_contents_prepend(a: TokenModel, r: Toks, m: int)
    requires
        0 <= m <= r.len(),
    ensures
        contents(seq![a] + r, 0, m + 1) == a.content + contents(r, 0, m),
    decreases m,
{
    let x = seq![a] + r;
    if m == 0 {
        assert(contents(x, 0, 0) == Seq::<char>::empty());
        assert(contents(r, 0, 0) == Seq::<char>::empty());
        assert(contents(x, 0, 1) == contents(x, 0, 0) + x[0].content);
        assert(a.content + Seq::<char>::empty() =~= Seq::<char>::empty() + a.content);
    } else {
        lemma_contents_prepend(a, r, m - 1);
        assert(x[m] == r[m - 1]);
        assert(contents(x, 0, m + 1) == contents(x, 0, m) + x[m].content);
        assert(contents(r, 0, m) == contents(r, 0, m - 1) + r[m - 1].content);
        assert(a.content + contents(r, 0, m - 1) + r[m - 1].content =~= a.content + (contents(r, 0, m - 1) + r[m - 1].content));
    }
}

proof fn lemma_contents_split(t: Toks, m: int)
    requires
        1 <= m <= t.len(),
    ensures
        contents(t, 0, m) == t[0].content + contents(t, 1, m),
    decreases m,
{
    if m == 1 {
        assert(contents(t, 0, 0) == Seq::<char>::empty());
        assert(contents(t, 1, 1) == Seq::<char>::empty());
        assert(Seq::<char>::empty() + t[0].content =~= t[0].content + Seq::<char>::empty());
    } else {
        lemma_contents_split(t, m - 1);
        assert(t[0].content + contents(t, 1, m - 1) + t[m - 1].content =~= t[0].content + (contents(t, 1, m - 1) + t[m - 1].content));
    }
}

proof fn lemma_no_block_start_end(t: Toks, p: int)
    requires
        0 <= p <= t.len(),
        forall|k: int| 0 <= k < t.len() ==> (#[trigger] t[k]).kind != TokenType::BlockStart,
    ensures
        content_end(t, p) == t.len(),
    decreases t.len() - p,
{
    if p < t.len() {
        lemma_no_block_start_end(t, p + 1);
    }
}

/// Outside a block, plain text lexes into tokens none of which opens a
/// block, whose texts put together give the text back.
proof fn lemma_lex_plain(s: Seq<char>, pos: int)
    requires
        0 <= pos <= s.len(),
        plain_text(s),
    ensures
        forall|k: int| 0 <= k < lex(s, pos, false).len() ==> (#[trigger] lex(s, pos, false)[k]).kind != TokenType::BlockStart,
        contents(lex(s, pos, false), 0, lex(s, pos, false).len() as int) == s.subrange(pos, s.len() as int),
        pos < s.len() ==> lex(s, pos, false).len() > 0,
    decreases s.len() - pos,
{
    if pos == s.len() {
        assert(s.subrange(pos, s.len() as int) =~= Seq::<char>::empty());
    } else {
        lemma_step_advances(s, pos, false);
        lemma_run_end(s, pos + 1, Run::Number);
        lemma_run_end(s, pos + 1, Run::Identifier);
        lemma_run_end(s, pos + 1, Run::Literal);
        let (t, n, b) = lex_step(s, pos, false);
        let c = s[pos];
        assert(c != '[' && !quote_char(c));
        assert(t is Some);
        let tok = t->0;
        assert(tok.kind != TokenType::BlockStart);
        assert(!b);
        if special_kind(c) is Some && !(pos + 1 < s.len() && crate::lexer::double_kind(special_kind(c)->0, s[pos + 1]) is Some) {
            assert(seq![s[pos]] =~= s.subrange(pos, pos + 1));
        }
        assert(tok.content == s.subrange(pos, n));
        lemma_lex_plain(s, n);
        let rest = lex(s, n, false);
        assert(lex(s, pos, false) == seq![tok] + rest);
        lemma_contents_prepend(tok, rest, rest.len() as int);
        assert(s.subrange(pos, n) + s.subrange(n, s.len() as int) =~= s.subrange(pos, s.len() as int));
        assert forall|k: int| 0 <= k < lex(s, pos, false).len() implies (#[trigger] lex(s, pos, false)[k]).kind != TokenType::BlockStart by {
            if k > 0 {
                assert(lex(s, pos, false)[k] == rest[k - 1]);
            }
        }
    }
}

/// A non-empty template without blocks and without quotes is literal text:
/// it parses, and evaluates in any scope to exactly its own text.
pub proof fn law_literal_round_trip(s: Seq<char>, env: Env)
    requires
        s.len() > 0,
        plain_text(s),
    ensures
        parse_tokens(tokens_of(s)) == Ok::<Ast, crate::errors::ParseFailure>(Ast::Content { text: s, next: None }),
        eval(Ast::Content { text: s, next: None }, env).0 == Ok::<Value, crate::errors::Failure>(Value::Text(s)),
{
    let t = tokens_of(s);
    lemma_lex_plain(s, 0);
    assert(s.subrange(0, s.len() as int) =~= s);
    lemma_no_block_start_end(t, 1);
    lemma_contents_split(t, t.len() as int);
    assert(t[0].kind != TokenType::BlockStart);
}

/// A ternary evaluates only the branch that its condition selects: when the
/// condition is true the other branch, whatever it is, changes nothing (it may
/// even name a variable that does not exist).
pub proof fn law_ternary_short_circuit(condition: Ast, left: Ast, right1: Ast, right2: Ast, env: Env)
    requires
        eval(condition, env).0 matches Ok(v) && boolean_of(v) == Ok::<bool, Failure>(true),
    ensures
        eval(Ast::Ternary { condition: Box::new(condition), left: Box::new(left), right: Box::new(right1) }, env)
            == eval(Ast::Ternary { condition: Box::new(condition), left: Box::new(left), right: Box::new(right2) }, env),
        eval(Ast::Ternary { condition: Box::new(condition), left: Box::new(left), right: Box::new(right1) }, env)
            == eval(left, eval(condition, env).1),
{
}

/// `#name`, when not bound itself, resolves through the capture `name`: its
/// text `i` names the positional alias `#i`, whose text is the value.
pub proof fn law_scope_indirection(name: Seq<char>, env: Env)
    requires
        !env.contains_key(seq!['#'] + name),
        env.contains_key(name),
        env.contains_key(seq!['#'] + env[name]),
    ensures
        eval(Ast::Identifier { name: seq!['#'] + name, for_name: false }, env).0
            == Ok::<Value, Failure>(Value::Text(env[seq!['#'] + env[name]])),
        lookup(env, seq!['#'] + name) == lookup(env, seq!['#'] + env[name]),
{
    assert((seq!['#'] + name).drop_first() =~= name);
}

/// The names that the scope of a match binds for captures and diagnostics are
/// reserved, so that no write through `Scope::mutate` or
/// `Interpreter::mutate_scope` reaches them; `#count` holds the number of
/// evaluations before the current one.
pub proof fn law_reserved_bindings(named: Seq<(String, String)>, positional: Seq<String>, count: nat, i: nat)
    ensures
        reserved(count_name()),
        reserved(cap_count_name()),
        reserved(seq!['#'] + nat_text(i)),
        capture_scope(named, positional, count)[count_name()] == nat_text(count),
{
    assert(count_name() != cap_count_name()) by {
        assert(count_name().len() != cap_count_name().len());
    }
}

/// Evaluation is a function of the tree and the scope: evaluating one tree
/// against equal scopes gives equal results and equal scopes after.
pub proof fn law_evaluation_idempotent(a: Ast, env1: Env, env2: Env)
    requires
        env1 == env2,
    ensures
        eval(a, env1) == eval(a, env2),
{
}

} // verus!
