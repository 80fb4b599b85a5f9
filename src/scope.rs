//! Variable scopes: names bound to texts. Names that start with `#` are
//! reserved for captures and diagnostics and cannot be written through
//! `mutate`.
use vstd::prelude::*;
use crate::errors::EvalError;
use crate::text::starts_with_char;

verus! {

/// The bindings that a list of entries makes, later entries overriding earlier ones.
pub open spec fn bindings(s: Seq<(String, String)>) -> Map<Seq<char>, Seq<char>>
    decreases s.len(),
{
    if s.len() == 0 {
        Map::empty()
    } else {
        bindings(s.drop_last()).insert(s.last().0@, s.last().1@)
    }
}

/// Whether a variable name is reserved.
pub open spec fn reserved(name: Seq<char>) -> bool {
    name.len() > 0 && name[0] == '#'
}

/// A scope: the bindings of its entries.
#[derive(Debug, Clone)]
pub struct Scope {
    entries: Vec<(String, String)>,
}

proof fn lemma_bindings_prefix(s: Seq<(String, String)>, i: int, key: Seq<char>)
    requires
        0 <= i <= s.len(),
        forall|j: int| i <= j < s.len() ==> (#[trigger] s[j]).0@ != key,
    ensures
        bindings(s).contains_key(key) == bindings(s.subrange(0, i)).contains_key(key),
        bindings(s).contains_key(key) ==> bindings(s)[key] == bindings(s.subrange(0, i))[key],
    decreases s.len() - i,
{
    if i < s.len() {
        let t = s.drop_last();
        assert(t.subrange(0, i) =~= s.subrange(0, i));
        assert(forall|j: int| i <= j < t.len() ==> t[j] == s[j]);
        lemma_bindings_prefix(t, i, key);
    } else {
        assert(s.subrange(0, i) =~= s);
    }
}

impl View for Scope {
    type V = Map<Seq<char>, Seq<char>>;

    closed spec fn view(&self) -> Map<Seq<char>, Seq<char>> {
        bindings(self.entries@)
    }
}

impl Scope {
    pub fn new() -> (r: Scope)
        ensures
            r@ == Map::<Seq<char>, Seq<char>>::empty(),
    {
        Scope { entries: Vec::new() }
    }

    /// The text bound to `key`, if any.
    pub fn get(&self, key: &String) -> (r: Option<&String>)
        ensures
            r is Some <==> self@.contains_key(key@),
            r matches Some(v) ==> v@ == self@[key@],
    {
        let mut i = self.entries.len();
        while i > 0
            invariant
                i <= self.entries@.len(),
                forall|j: int| i <= j < self.entries@.len() ==> (#[trigger] self.entries@[j]).0@ != key@,
            decreases i,
        {
            i = i - 1;
            if self.entries[i].0 == *key {
                proof {
                    let s = self.entries@;
                    lemma_bindings_prefix(s, i + 1, key@);
                    assert(s.subrange(0, i + 1).drop_last() =~= s.subrange(0, i as int));
                }
                return Some(&self.entries[i].1);
            }
        }
        proof {
            lemma_bindings_prefix(self.entries@, 0, key@);
            assert(self.entries@.subrange(0, 0) =~= Seq::<(String, String)>::empty());
        }
        None
    }

    /// Binds `key` to `val`, reserved or not.
    pub fn set(&mut self, key: String, val: String)
        ensures
            final(self)@ == old(self)@.insert(key@, val@),
    {
        let ghost before = self.entries@;
        self.entries.push((key, val));
        assert(self.entries@.drop_last() =~= before);
    }

    /// Binds `key` to `val` unless `key` is reserved.
    pub fn mutate(&mut self, key: String, val: String) -> (r: Result<(), EvalError>)
        ensures
            reserved(key@) ==> (r matches Err(EvalError::ReservedVariable(k)) && k@ == key@) && final(self)@ == old(self)@,
            !reserved(key@) ==> r is Ok && final(self)@ == old(self)@.insert(key@, val@),
    {
        if starts_with_char(&key, '#') {
            return Err(EvalError::ReservedVariable(key));
        }
        self.set(key, val);
        Ok(())
    }
}

} // verus!
