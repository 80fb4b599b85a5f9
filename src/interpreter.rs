//! The interpreter: evaluates a tree against a scope.
use vstd::prelude::*;
use crate::ast::{ast_of, wf_node, Ast, Node};
use crate::errors::{EvalError, Failure};
use crate::number::{
    int_text, nat_text, spec_add, spec_div, spec_log, spec_mul, spec_pow, spec_rem, spec_round_places, spec_sub,
    int_to_text, less_than, same_value, trunc, NNumber, NumError, Ratio,
};
use crate::scope::{reserved, Scope};
use crate::text::{chars_of, push_char, starts_with_char, string_from_chars};
use crate::token::TokenType;
use crate::value::{
    boolean_of, number_of, remove_all, remove_first, text_of, NBoolean, NString, ObjectType, Value,
};

verus! {

/// Variable bindings, name to text.
pub type Env = Map<Seq<char>, Seq<char>>;

/// What an evaluation gives, and the bindings after it.
pub type Outcome = (Result<Value, Failure>, Env);

pub open spec fn lift(r: Result<Ratio, NumError>) -> Result<Value, Failure> {
    match r {
        Ok(x) => Ok(Value::Number(x)),
        Err(e) => Err(Failure::Arithmetic(e)),
    }
}

/// Arithmetic on numbers. `--` on numbers adds, as `+` does.
pub open spec fn arith(op: TokenType, x: Ratio, y: Ratio) -> Result<Value, Failure> {
    if op == TokenType::Addition || op == TokenType::DoubleSubtraction {
        lift(spec_add(x, y))
    } else if op == TokenType::Subtraction {
        lift(spec_sub(x, y))
    } else if op == TokenType::Multiplication {
        lift(spec_mul(x, y))
    } else if op == TokenType::Division {
        lift(spec_div(x, y))
    } else if op == TokenType::Power {
        lift(spec_pow(x, y))
    } else if op == TokenType::Log {
        lift(spec_log(x, y))
    } else if op == TokenType::Modulo {
        lift(spec_rem(x, y))
    } else {
        Err(Failure::UnsupportedOperation)
    }
}

/// Operations on texts: concatenation, removal of the first or of every occurrence.
pub open spec fn text_op(op: TokenType, a: Seq<char>, b: Seq<char>) -> Result<Value, Failure> {
    if op == TokenType::Addition {
        Ok(Value::Text(a + b))
    } else if op == TokenType::Subtraction {
        Ok(Value::Text(remove_first(a, b)))
    } else if op == TokenType::DoubleSubtraction {
        Ok(Value::Text(remove_all(a, b)))
    } else {
        Err(Failure::UnsupportedOperation)
    }
}

/// Equality and inequality, the only comparisons of truth values and texts.
pub open spec fn compare_eq(op: TokenType, same: bool) -> Result<Value, Failure> {
    if op == TokenType::DoubleEqualSign {
        Ok(Value::Boolean(same))
    } else if op == TokenType::NotEqualSign {
        Ok(Value::Boolean(!same))
    } else {
        Err(Failure::UnsupportedComparison)
    }
}

/// The comparisons of numbers.
pub open spec fn compare_num(op: TokenType, x: Ratio, y: Ratio) -> Result<Value, Failure> {
    if op == TokenType::DoubleEqualSign {
        Ok(Value::Boolean(same_value(x, y)))
    } else if op == TokenType::NotEqualSign {
        Ok(Value::Boolean(!same_value(x, y)))
    } else if op == TokenType::LessThanSign {
        Ok(Value::Boolean(less_than(x, y)))
    } else if op == TokenType::LessThanEqualSign {
        Ok(Value::Boolean(!less_than(y, x)))
    } else if op == TokenType::GreaterThanSign {
        Ok(Value::Boolean(less_than(y, x)))
    } else if op == TokenType::GreaterThanEqualSign {
        Ok(Value::Boolean(!less_than(x, y)))
    } else {
        Err(Failure::UnsupportedComparison)
    }
}

/// A variable's value. A reserved name `#n` that is not bound is looked up
/// through the capture `n`: its text `i` names the positional capture `#i`.
pub open spec fn lookup(env: Env, name: Seq<char>) -> Result<Value, Failure> {
    if env.contains_key(name) {
        Ok(Value::Text(env[name]))
    } else if reserved(name) && env.contains_key(name.drop_first())
        && env.contains_key(seq!['#'] + env[name.drop_first()]) {
        Ok(Value::Text(env[seq!['#'] + env[name.drop_first()]]))
    } else {
        Err(Failure::VariableNotFound(name))
    }
}

/// The evaluation of `a` against the bindings `env`.
pub open spec fn eval(a: Ast, env: Env) -> Outcome
    decreases a, 0int,
{
    match a {
        Ast::Content { text, next } => match next {
            None => (Ok(Value::Text(text)), env),
            Some(n) => {
                let (r, e1) = eval(*n, env);
                match r {
                    Ok(v) => (Ok(Value::Text(text + text_of(v))), e1),
                    Err(f) => (Err(f), e1),
                }
            },
        },
        Ast::Block { content, next } => {
            let (r, e1) = eval(*content, env);
            match r {
                Err(f) => (Err(f), e1),
                Ok(v) => match next {
                    None => (Ok(Value::Text(text_of(v))), e1),
                    Some(n) => {
                        let (r2, e2) = eval(*n, e1);
                        match r2 {
                            Ok(v2) => (Ok(Value::Text(text_of(v) + text_of(v2))), e2),
                            Err(f) => (Err(f), e2),
                        }
                    },
                },
            }
        },
        Ast::Binary { op, left, right } => {
            let (l, e1) = eval(*left, env);
            match l {
                Err(f) => (Err(f), e1),
                Ok(Value::Boolean(_)) => (Err(Failure::UnsupportedOperation), e1),
                Ok(Value::Number(x)) => {
                    let (r, e2) = eval(*right, e1);
                    match r {
                        Err(f) => (Err(f), e2),
                        Ok(rv) => match number_of(rv) {
                            Err(f) => (Err(f), e2),
                            Ok(y) => (arith(op, x, y), e2),
                        },
                    }
                },
                Ok(Value::Text(s)) => {
                    let (r, e2) = eval(*right, e1);
                    match r {
                        Err(f) => (Err(f), e2),
                        Ok(rv) => (text_op(op, s, text_of(rv)), e2),
                    }
                },
            }
        },
        Ast::Condition { op, left, right } => {
            let (l, e1) = eval(*left, env);
            match l {
                Err(f) => (Err(f), e1),
                Ok(lv) => {
                    let (r, e2) = eval(*right, e1);
                    match r {
                        Err(f) => (Err(f), e2),
                        Ok(rv) => match lv {
                            Value::Boolean(a) => match boolean_of(rv) {
                                Err(f) => (Err(f), e2),
                                Ok(b) => (compare_eq(op, a == b), e2),
                            },
                            Value::Text(s) => (compare_eq(op, s == text_of(rv)), e2),
                            Value::Number(x) => match number_of(rv) {
                                Err(f) => (Err(f), e2),
                                Ok(y) => (compare_num(op, x, y), e2),
                            },
                        },
                    }
                },
            }
        },
        Ast::Ternary { condition, left, right } => {
            let (c, e1) = eval(*condition, env);
            match c {
                Err(f) => (Err(f), e1),
                Ok(cv) => match boolean_of(cv) {
                    Err(f) => (Err(f), e1),
                    Ok(b) => if b { eval(*left, e1) } else { eval(*right, e1) },
                },
            }
        },
        Ast::Identifier { name, for_name } => if for_name {
            (Ok(Value::Text(name)), env)
        } else {
            (lookup(env, name), env)
        },
        Ast::Text(s) => (Ok(Value::Text(s)), env),
        Ast::Number(x) => (Ok(Value::Number(x)), env),
        Ast::Keyword { kind, content, precision } => {
            if kind == TokenType::KeyNumber {
                let (r, e1) = eval(*content, env);
                match r {
                    Err(f) => (Err(f), e1),
                    Ok(v) => match number_of(v) {
                        Err(f) => (Err(f), e1),
                        Ok(x) => match precision {
                            None => (Ok(Value::Number(x)), e1),
                            Some(p) => {
                                let (rp, e2) = eval(*p, e1);
                                match rp {
                                    Err(f) => (Err(f), e2),
                                    Ok(pv) => match number_of(pv) {
                                        Err(f) => (Err(f), e2),
                                        Ok(y) => (lift(spec_round_places(x, y)), e2),
                                    },
                                }
                            },
                        },
                    },
                }
            } else if kind == TokenType::KeyString {
                let (r, e1) = eval(*content, env);
                match r {
                    Err(f) => (Err(f), e1),
                    Ok(v) => (Ok(Value::Text(text_of(v))), e1),
                }
            } else {
                (Err(Failure::UnsupportedOperation), env)
            }
        },
        Ast::For { identifier, from, to, content } => {
            let (ri, e1) = eval(*identifier, env);
            match ri {
                Err(f) => (Err(f), e1),
                Ok(iv) => {
                    let (rf, e2) = eval(*from, e1);
                    match rf {
                        Err(f) => (Err(f), e2),
                        Ok(fv) => match number_of(fv) {
                            Err(f) => (Err(f), e2),
                            Ok(lo) => {
                                let (rt, e3) = eval(*to, e2);
                                match rt {
                                    Err(f) => (Err(f), e3),
                                    Ok(tv) => match number_of(tv) {
                                        Err(f) => (Err(f), e3),
                                        Ok(hi) => for_loop(text_of(iv), trunc(lo), trunc(hi), *content, e3, Seq::empty()),
                                    },
                                }
                            },
                        },
                    }
                },
            }
        },
    }
}

/// The iterations of a loop from `i` up to `hi`, after the text `acc`.
pub open spec fn for_loop(name: Seq<char>, i: int, hi: int, body: Ast, env: Env, acc: Seq<char>) -> Outcome
    decreases body, hi - i,
{
    if i >= hi {
        (Ok(Value::Text(acc)), env)
    } else if reserved(name) {
        (Err(Failure::ReservedVariable(name)), env)
    } else {
        let (r, e1) = eval(body, env.insert(name, int_text(i)));
        match r {
            Err(f) => (Err(f), e1),
            Ok(v) => for_loop(name, i + 1, hi, body, e1, acc + text_of(v)),
        }
    }
}

/// Binds each named capture, later ones overriding earlier ones.
pub open spec fn bind_named(env: Env, s: Seq<(String, String)>) -> Env
    decreases s.len(),
{
    if s.len() == 0 {
        env
    } else {
        bind_named(env, s.drop_last()).insert(s.last().0@, s.last().1@)
    }
}

/// Binds each positional capture `i` as `#i`.
pub open spec fn bind_positional(env: Env, s: Seq<String>) -> Env
    decreases s.len(),
{
    if s.len() == 0 {
        env
    } else {
        bind_positional(env, s.drop_last()).insert(seq!['#'] + nat_text((s.len() - 1) as nat), s.last()@)
    }
}

pub open spec fn count_name() -> Seq<char> {
    seq!['#', 'c', 'o', 'u', 'n', 't']
}

pub open spec fn cap_count_name() -> Seq<char> {
    seq!['#', 'c', 'a', 'p', '_', 'c', 'o', 'u', 'n', 't']
}

/// The scope of one match: its captures, then `#count` (the evaluations
/// before this one) and `#cap_count` (the number of captures).
pub open spec fn capture_scope(named: Seq<(String, String)>, positional: Seq<String>, count: nat) -> Env {
    bind_positional(bind_named(Map::empty(), named), positional)
        .insert(count_name(), nat_text(count))
        .insert(cap_count_name(), nat_text((named.len() + positional.len()) as nat))
}

pub open spec fn outcome_of(r: Result<ObjectType, EvalError>) -> Result<Value, Failure> {
    match r {
        Ok(v) => Ok(v@),
        Err(e) => Err(e@),
    }
}

/// Evaluates trees against a scope, and counts the evaluations of templates.
pub struct Interpreter {
    scope: Scope,
    count: u64,
}

impl Interpreter {
    /// The current bindings.
    pub closed spec fn env(&self) -> Env {
        self.scope@
    }

    /// How many templates were evaluated so far.
    pub closed spec fn evaluations(&self) -> nat {
        self.count as nat
    }

    pub fn new() -> (r: Interpreter)
        ensures
            r.env() == Map::<Seq<char>, Seq<char>>::empty(),
            r.evaluations() == 0,
    {
        Interpreter { scope: Scope::new(), count: 0 }
    }

    /// Binds `key` to `val` unless `key` is reserved (starts with `#`).
    pub fn mutate_scope(&mut self, key: String, val: String) -> (r: Result<(), EvalError>)
        ensures
            reserved(key@) ==> (r matches Err(EvalError::ReservedVariable(k)) && k@ == key@) && final(self).env() == old(self).env(),
            !reserved(key@) ==> r is Ok && final(self).env() == old(self).env().insert(key@, val@),
            final(self).evaluations() == old(self).evaluations(),
    {
        self.scope.mutate(key, val)
    }

    /// The value of a variable, through the `#name` indirection when needed.
    fn lookup(&self, name: &String) -> (r: Result<ObjectType, EvalError>)
        ensures
            outcome_of(r) == lookup(self.env(), name@),
            r is Ok ==> r->Ok_0.wf(),
    {
        if let Some(v) = self.scope.get(name) {
            return Ok(ObjectType::NString(NString { inner_value: v.clone() }));
        }
        if starts_with_char(name, '#') {
            let chars = chars_of(name.as_str());
            let bare = string_from_chars(&chars, 1, chars.len());
            assert(bare@ == name@.drop_first());
            if let Some(index) = self.scope.get(&bare) {
                let mut key = String::new();
                push_char(&mut key, '#');
                key.append(index.as_str());
                assert(key@ =~= seq!['#'] + index@);
                if let Some(v) = self.scope.get(&key) {
                    return Ok(ObjectType::NString(NString { inner_value: v.clone() }));
                }
            }
        }
        Err(EvalError::VariableNotFound(name.clone()))
    }

    /// Evaluates a template for one match: a fresh scope holds the captures,
    /// `#count` and `#cap_count`; then the evaluation is counted.
    pub fn execute(&mut self, named: &Vec<(String, String)>, positional: &Vec<String>, node: &Node) -> (r: Result<ObjectType, EvalError>)
        requires
            node.wf(),
            named@.len() + positional@.len() <= u64::MAX,
        ensures
            outcome_of(r) == eval(node@, capture_scope(named@, positional@, old(self).evaluations())).0,
            final(self).evaluations() == if old(self).evaluations() < u64::MAX {
                old(self).evaluations() + 1
            } else {
                old(self).evaluations()
            },
            r is Ok ==> r->Ok_0.wf(),
    {
        let mut scope = Scope::new();
        let mut i: usize = 0;
        while i < named.len()
            invariant
                i <= named@.len(),
                scope@ == bind_named(Map::empty(), named@.subrange(0, i as int)),
            decreases named.len() - i,
        {
            scope.set(named[i].0.clone(), named[i].1.clone());
            assert(named@.subrange(0, i + 1).drop_last() =~= named@.subrange(0, i as int));
            i = i + 1;
        }
        assert(named@.subrange(0, named@.len() as int) =~= named@);
        let ghost base = scope@;
        let mut j: usize = 0;
        while j < positional.len()
            invariant
                j <= positional@.len(),
                base == bind_named(Map::empty(), named@),
                scope@ == bind_positional(base, positional@.subrange(0, j as int)),
            decreases positional.len() - j,
        {
            let mut key = String::new();
            push_char(&mut key, '#');
            key.append(int_to_text(j as i128).as_str());
            scope.set(key, positional[j].clone());
            assert(positional@.subrange(0, j + 1).drop_last() =~= positional@.subrange(0, j as int));
            j = j + 1;
        }
        assert(positional@.subrange(0, positional@.len() as int) =~= positional@);
        let count_key = String::from_str("#count");
        let cap_key = String::from_str("#cap_count");
        proof {
            reveal_strlit("#count");
            reveal_strlit("#cap_count");
            assert(count_key@ =~= count_name());
            assert(cap_key@ =~= cap_count_name());
        }
        scope.set(count_key, int_to_text(self.count as i128));
        let caps = named.len() as i128 + positional.len() as i128;
        scope.set(cap_key, int_to_text(caps));
        self.scope = scope;
        let r = self.evaluate(node);
        if self.count < u64::MAX {
            self.count = self.count + 1;
        }
        r
    }

    /// Evaluates `node` against the current scope.
    pub fn evaluate(&mut self, node: &Node) -> (r: Result<ObjectType, EvalError>)
        requires
            node.wf(),
        ensures
            outcome_of(r) == eval(node@, old(self).env()).0,
            final(self).env() == eval(node@, old(self).env()).1,
            final(self).evaluations() == old(self).evaluations(),
            r is Ok ==> r->Ok_0.wf(),
        decreases node, 1int,
    {
        match node {
            Node::Content(_) => self.eval_content(node),
            Node::Block(_) => self.eval_block(node),
            Node::BinaryOperator(_) => self.eval_binary(node),
            Node::Condition(_) => self.eval_condition(node),
            Node::Ternary(_) => self.eval_ternary(node),
            Node::Identifier(i) => {
                if i.use_for_name {
                    Ok(ObjectType::NString(NString { inner_value: i.content.clone() }))
                } else {
                    self.lookup(&i.content)
                }
            },
            Node::String(s) => Ok(ObjectType::NString(NString { inner_value: s.content.clone() })),
            Node::Number(x) => Ok(ObjectType::NNumber(x.content)),
            Node::Keyword(_) => self.eval_keyword(node),
            Node::For(_) => self.eval_for(node),
        }
    }

    /// Evaluates literal text and what follows it.
    fn eval_content(&mut self, node: &Node) -> (r: Result<ObjectType, EvalError>)
        requires
            node.wf(),
            node is Content,
        ensures
            outcome_of(r) == eval(node@, old(self).env()).0,
            final(self).env() == eval(node@, old(self).env()).1,
            final(self).evaluations() == old(self).evaluations(),
            r is Ok ==> r->Ok_0.wf(),
        decreases node, 0int,
    {
        let c = match node { Node::Content(x) => x, _ => { return Err(EvalError::UnsupportedOperation); } };
        let mut text = c.content.clone();
        match &c.next {
            None => Ok(ObjectType::NString(NString { inner_value: text })),
            Some(n) => match self.evaluate(n) {
                Err(e) => Err(e),
                Ok(v) => {
                    let t = v.into_string();
                    let t = match t { Ok(t) => t, Err(e) => return Err(e) };
                    text.append(t.inner_value.as_str());
                    Ok(ObjectType::NString(NString { inner_value: text }))
                },
            },
    }
    }

    /// Evaluates a computed fragment and what follows it.
    fn eval_block(&mut self, node: &Node) -> (r: Result<ObjectType, EvalError>)
        requires
            node.wf(),
            node is Block,
        ensures
            outcome_of(r) == eval(node@, old(self).env()).0,
            final(self).env() == eval(node@, old(self).env()).1,
            final(self).evaluations() == old(self).evaluations(),
            r is Ok ==> r->Ok_0.wf(),
        decreases node, 0int,
    {
        let b = match node { Node::Block(x) => x, _ => { return Err(EvalError::UnsupportedOperation); } };
        let v = match self.evaluate(&b.content) { Ok(v) => v, Err(e) => return Err(e) };
        let t = match v.into_string() { Ok(t) => t, Err(e) => return Err(e) };
        let mut text = t.inner_value;
        match &b.next {
            None => Ok(ObjectType::NString(NString { inner_value: text })),
            Some(n) => match self.evaluate(n) {
                Err(e) => Err(e),
                Ok(v2) => {
                    let t2 = match v2.into_string() { Ok(t) => t, Err(e) => return Err(e) };
                    text.append(t2.inner_value.as_str());
                    Ok(ObjectType::NString(NString { inner_value: text }))
                },
            },
    }
    }

    /// Evaluates the branch that the condition selects, and only that one.
    fn eval_ternary(&mut self, node: &Node) -> (r: Result<ObjectType, EvalError>)
        requires
            node.wf(),
            node is Ternary,
        ensures
            outcome_of(r) == eval(node@, old(self).env()).0,
            final(self).env() == eval(node@, old(self).env()).1,
            final(self).evaluations() == old(self).evaluations(),
            r is Ok ==> r->Ok_0.wf(),
        decreases node, 0int,
    {
        let t = match node { Node::Ternary(x) => x, _ => { return Err(EvalError::UnsupportedOperation); } };
        let cv = match self.evaluate(&t.condition) { Ok(v) => v, Err(e) => return Err(e) };
        let b = match cv.into_boolean() { Ok(b) => b, Err(e) => return Err(e) };
        if b.inner_value {
            self.evaluate(&t.left)
        } else {
            self.evaluate(&t.right)
    }
    }

    /// Evaluates an arithmetic or text operation.
    fn eval_binary(&mut self, node: &Node) -> (r: Result<ObjectType, EvalError>)
        requires
            node.wf(),
            node is BinaryOperator,
        ensures
            outcome_of(r) == eval(node@, old(self).env()).0,
            final(self).env() == eval(node@, old(self).env()).1,
            final(self).evaluations() == old(self).evaluations(),
            r is Ok ==> r->Ok_0.wf(),
        decreases node, 0int,
    {
        let b = match node { Node::BinaryOperator(x) => x, _ => { return Err(EvalError::UnsupportedOperation); } };
        let left = match self.evaluate(&b.left) { Ok(v) => v, Err(e) => return Err(e) };
        match left {
            ObjectType::NBoolean(_) => Err(EvalError::UnsupportedOperation),
            ObjectType::NNumber(x) => {
                let rv = match self.evaluate(&b.right) { Ok(v) => v, Err(e) => return Err(e) };
                let y = match rv.into_number() { Ok(y) => y, Err(e) => return Err(e) };
                let res = match b.operator {
                    TokenType::Addition => x.add(&y),
                    TokenType::DoubleSubtraction => x.add(&y),
                    TokenType::Subtraction => x.sub(&y),
                    TokenType::Multiplication => x.mul(&y),
                    TokenType::Division => x.div(&y),
                    TokenType::Power => x.pow(&y),
                    TokenType::Log => x.log(&y),
                    TokenType::Modulo => x.rem(&y),
                    _ => return Err(EvalError::UnsupportedOperation),
                };
                match res {
                    Ok(n) => Ok(ObjectType::NNumber(n)),
                    Err(e) => Err(EvalError::Arithmetic(e)),
                }
            },
            ObjectType::NString(a) => {
                let rv = match self.evaluate(&b.right) { Ok(v) => v, Err(e) => return Err(e) };
                let bs = match rv.into_string() { Ok(t) => t, Err(e) => return Err(e) };
                match b.operator {
                    TokenType::Addition => {
                        let mut text = a.inner_value;
                        text.append(bs.inner_value.as_str());
                        Ok(ObjectType::NString(NString { inner_value: text }))
                    },
                    TokenType::Subtraction => Ok(ObjectType::NString(a.sub(&bs))),
                    TokenType::DoubleSubtraction => Ok(ObjectType::NString(a.sub_multiple(&bs))),
                    _ => Err(EvalError::UnsupportedOperation),
                }
            },
    }
    }

    /// Evaluates a comparison.
    fn eval_condition(&mut self, node: &Node) -> (r: Result<ObjectType, EvalError>)
        requires
            node.wf(),
            node is Condition,
        ensures
            outcome_of(r) == eval(node@, old(self).env()).0,
            final(self).env() == eval(node@, old(self).env()).1,
            final(self).evaluations() == old(self).evaluations(),
            r is Ok ==> r->Ok_0.wf(),
        decreases node, 0int,
    {
        let c = match node { Node::Condition(x) => x, _ => { return Err(EvalError::UnsupportedOperation); } };
        let lv = match self.evaluate(&c.left) { Ok(v) => v, Err(e) => return Err(e) };
        let rv = match self.evaluate(&c.right) { Ok(v) => v, Err(e) => return Err(e) };
        let same = match lv {
            ObjectType::NBoolean(a) => {
                let b = match rv.into_boolean() { Ok(b) => b, Err(e) => return Err(e) };
                a.inner_value == b.inner_value
            },
            ObjectType::NString(a) => {
                let b = match rv.into_string() { Ok(b) => b, Err(e) => return Err(e) };
                a.inner_value == b.inner_value
            },
            ObjectType::NNumber(x) => {
                let y = match rv.into_number() { Ok(y) => y, Err(e) => return Err(e) };
                let inner_value = match c.operator {
                    TokenType::DoubleEqualSign => x.equals(&y),
                    TokenType::NotEqualSign => !x.equals(&y),
                    TokenType::LessThanSign => x.less(&y),
                    TokenType::LessThanEqualSign => !y.less(&x),
                    TokenType::GreaterThanSign => y.less(&x),
                    TokenType::GreaterThanEqualSign => !x.less(&y),
                    _ => return Err(EvalError::UnsupportedComparison),
                };
                return Ok(ObjectType::NBoolean(NBoolean { inner_value }));
            },
        };
        match c.operator {
            TokenType::DoubleEqualSign => Ok(ObjectType::NBoolean(NBoolean { inner_value: same })),
            TokenType::NotEqualSign => Ok(ObjectType::NBoolean(NBoolean { inner_value: !same })),
            _ => Err(EvalError::UnsupportedComparison),
    }
    }

    /// Evaluates `number(...)` or `string(...)`.
    fn eval_keyword(&mut self, node: &Node) -> (r: Result<ObjectType, EvalError>)
        requires
            node.wf(),
            node is Keyword,
        ensures
            outcome_of(r) == eval(node@, old(self).env()).0,
            final(self).env() == eval(node@, old(self).env()).1,
            final(self).evaluations() == old(self).evaluations(),
            r is Ok ==> r->Ok_0.wf(),
        decreases node, 0int,
    {
        let k = match node { Node::Keyword(x) => x, _ => { return Err(EvalError::UnsupportedOperation); } };
        match k.keyword {
            TokenType::KeyNumber => {
                let v = match self.evaluate(&k.content) { Ok(v) => v, Err(e) => return Err(e) };
                let x = match v.into_number() { Ok(x) => x, Err(e) => return Err(e) };
                match &k.precision {
                    None => Ok(ObjectType::NNumber(x)),
                    Some(p) => {
                        let pv = match self.evaluate(p) { Ok(v) => v, Err(e) => return Err(e) };
                        let y = match pv.into_number() { Ok(y) => y, Err(e) => return Err(e) };
                        match x.round(&y) {
                            Ok(n) => Ok(ObjectType::NNumber(n)),
                            Err(e) => Err(EvalError::Arithmetic(e)),
                        }
                    },
                }
            },
            TokenType::KeyString => {
                let v = match self.evaluate(&k.content) { Ok(v) => v, Err(e) => return Err(e) };
                match v.into_string() {
                    Ok(t) => Ok(ObjectType::NString(t)),
                    Err(e) => Err(e),
                }
            },
            _ => Err(EvalError::UnsupportedOperation),
    }
    }

    /// Evaluates a loop.
    fn eval_for(&mut self, node: &Node) -> (r: Result<ObjectType, EvalError>)
        requires
            node.wf(),
            node is For,
        ensures
            outcome_of(r) == eval(node@, old(self).env()).0,
            final(self).env() == eval(node@, old(self).env()).1,
            final(self).evaluations() == old(self).evaluations(),
            r is Ok ==> r->Ok_0.wf(),
        decreases node, 0int,
    {
        let f = match node { Node::For(x) => x, _ => { return Err(EvalError::UnsupportedOperation); } };
        let iv = match self.evaluate(&f.identifer) { Ok(v) => v, Err(e) => return Err(e) };
        let name = match iv.into_string() { Ok(t) => t.inner_value, Err(e) => return Err(e) };
        let fv = match self.evaluate(&f.from) { Ok(v) => v, Err(e) => return Err(e) };
        let lo = match fv.into_number() { Ok(x) => x, Err(e) => return Err(e) };
        let tv = match self.evaluate(&f.to) { Ok(v) => v, Err(e) => return Err(e) };
        let hi = match tv.into_number() { Ok(x) => x, Err(e) => return Err(e) };
        let mut i = lo.trunc();
        let end = hi.trunc();
        let mut acc = String::new();
        let ghost name_v = name@;
        let ghost body = ast_of(*f.content);
        let ghost target = for_loop(name@, i as int, end as int, body, self.env(), Seq::empty());
        assert(eval(node@, old(self).env()) == target);
        while i < end
            invariant
                node.wf(),
                node == Node::For(*f),
                name@ == name_v,
                for_loop(name_v, i as int, end as int, body, self.env(), acc@) == target,
                eval(node@, old(self).env()) == target,
                body == ast_of(*f.content),
                wf_node(*f.content),
                self.evaluations() == old(self).evaluations(),
                -0x8000_0000_0000_0000 <= i,
                end <= 0x8000_0000_0000_0000,
            decreases end - i,
        {
            let text = int_to_text(i);
            let ghost env_before = self.env();
            match self.mutate_scope(name.clone(), text) {
                Ok(()) => {},
                Err(e) => {
                    assert(reserved(name_v));
                    assert(for_loop(name_v, i as int, end as int, body, env_before, acc@)
                        == (Err::<Value, Failure>(Failure::ReservedVariable(name_v)), env_before));
                    return Err(e);
                },
            }
            let v = match self.evaluate(&f.content) { Ok(v) => v, Err(e) => return Err(e) };
            let t = match v.into_string() { Ok(t) => t, Err(e) => return Err(e) };
            acc.append(t.inner_value.as_str());
            i = i + 1;
        }
        Ok(ObjectType::NString(NString { inner_value: acc }))
    }
}

} // verus!
