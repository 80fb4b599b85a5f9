//! The values of the template language and the conversions between them.
use vstd::prelude::*;
use crate::errors::{EvalError, Failure};
use crate::number::{decimal_text, parse_decimal, decimal_value, checked, same_value, NNumber, NumError, Ratio};
use crate::text::{chars_of, string_of};

verus! {

/// A truth value.
#[derive(Debug, Clone, Copy)]
pub struct NBoolean {
    pub inner_value: bool,
}

/// A text value.
#[derive(Debug, Clone)]
pub struct NString {
    pub inner_value: String,
}

/// A value: a truth value, a text or a number.
#[derive(Debug, Clone)]
pub enum ObjectType {
    NBoolean(NBoolean),
    NString(NString),
    NNumber(NNumber),
}

/// The mathematical view of a value.
pub enum Value {
    Boolean(bool),
    Text(Seq<char>),
    Number(Ratio),
}

impl View for ObjectType {
    type V = Value;

    open spec fn view(&self) -> Value {
        match self {
            ObjectType::NBoolean(b) => Value::Boolean(b.inner_value),
            ObjectType::NString(s) => Value::Text(s.inner_value@),
            ObjectType::NNumber(n) => Value::Number(n@),
        }
    }
}

pub open spec fn true_text() -> Seq<char> {
    seq!['t', 'r', 'u', 'e']
}

pub open spec fn false_text() -> Seq<char> {
    seq!['f', 'a', 'l', 's', 'e']
}

/// A value as text: this never fails.
pub open spec fn text_of(v: Value) -> Seq<char> {
    match v {
        Value::Boolean(b) => if b { true_text() } else { false_text() },
        Value::Text(s) => s,
        Value::Number(x) => decimal_text(x.0, x.1),
    }
}

/// A value as a number: truth values are one and zero, text must be decimal.
pub open spec fn number_of(v: Value) -> Result<Ratio, Failure> {
    match v {
        Value::Boolean(b) => Ok((if b { 1int } else { 0int }, 1int)),
        Value::Text(s) => match decimal_value(s) {
            None => Err(Failure::NotNumeric(s)),
            Some(x) => match checked(x.0, x.1) {
                Ok(y) => Ok(y),
                Err(e) => Err(Failure::Arithmetic(e)),
            },
        },
        Value::Number(x) => Ok(x),
    }
}

/// A value as a truth value: only one and zero among numbers, no text.
pub open spec fn boolean_of(v: Value) -> Result<bool, Failure> {
    match v {
        Value::Boolean(b) => Ok(b),
        Value::Number(x) => if same_value(x, (1, 1)) {
            Ok(true)
        } else if x.0 == 0 {
            Ok(false)
        } else {
            Err(Failure::NotBoolean)
        },
        Value::Text(_) => Err(Failure::TextNotBoolean),
    }
}

pub open spec fn failure_of<T>(r: Result<T, EvalError>) -> Failure {
    match r {
        Err(e) => e@,
        Ok(_) => Failure::UnsupportedOperation,
    }
}

impl NBoolean {
    pub fn new(inner_value: bool) -> (r: NBoolean)
        ensures
            r.inner_value == inner_value,
    {
        NBoolean { inner_value }
    }
}

impl ObjectType {
    pub open spec fn wf(&self) -> bool {
        match self {
            ObjectType::NNumber(n) => n.wf(),
            _ => true,
        }
    }

    pub fn into_string(self) -> (r: Result<NString, EvalError>)
        requires
            self.wf(),
        ensures
            r is Ok,
            r->Ok_0.inner_value@ == text_of(self@),
    {
        match self {
            ObjectType::NBoolean(b) => {
                let inner_value = if b.inner_value { String::from_str("true") } else { String::from_str("false") };
                proof {
                    reveal_strlit("true");
                    reveal_strlit("false");
                }
                Ok(NString { inner_value })
            },
            ObjectType::NString(s) => Ok(s),
            ObjectType::NNumber(n) => Ok(NString { inner_value: n.to_text() }),
        }
    }

    pub fn into_number(self) -> (r: Result<NNumber, EvalError>)
        requires
            self.wf(),
        ensures
            number_of(self@) is Ok <==> r is Ok,
            r matches Ok(n) ==> n@ == number_of(self@)->Ok_0 && n.wf(),
            r is Err ==> failure_of(r) == number_of(self@)->Err_0,
    {
        match self {
            ObjectType::NBoolean(b) => Ok(NNumber::from_bool(b.inner_value)),
            ObjectType::NString(s) => {
                let chars = chars_of(s.inner_value.as_str());
                match parse_decimal(&chars) {
                    None => Err(EvalError::NotNumeric(s.inner_value)),
                    Some(Ok(n)) => Ok(n),
                    Some(Err(e)) => Err(EvalError::Arithmetic(e)),
                }
            },
            ObjectType::NNumber(n) => Ok(n),
        }
    }

    pub fn into_boolean(self) -> (r: Result<NBoolean, EvalError>)
        requires
            self.wf(),
        ensures
            boolean_of(self@) is Ok <==> r is Ok,
            r matches Ok(b) ==> b.inner_value == boolean_of(self@)->Ok_0,
            r is Err ==> failure_of(r) == boolean_of(self@)->Err_0,
    {
        match self {
            ObjectType::NBoolean(b) => Ok(b),
            ObjectType::NNumber(n) => {
                if n.equals(&NNumber::from_int(1)) {
                    Ok(NBoolean { inner_value: true })
                } else if n.num == 0 {
                    Ok(NBoolean { inner_value: false })
                } else {
                    Err(EvalError::NotBoolean)
                }
            },
            ObjectType::NString(_) => Err(EvalError::TextNotBoolean),
        }
    }
}

/// Whether `p` occurs in `s` at position `i`.
pub open spec fn occurs_at(s: Seq<char>, p: Seq<char>, i: int) -> bool {
    0 <= i && i + p.len() <= s.len() && s.subrange(i, i + p.len()) == p
}

/// The first position at or after `i` where `p` occurs in `s`.
pub open spec fn find_from(s: Seq<char>, p: Seq<char>, i: int) -> Option<int>
    decreases s.len() + 1 - i,
{
    if i < 0 || i > s.len() || i + p.len() > s.len() {
        None
    } else if occurs_at(s, p, i) {
        Some(i)
    } else {
        find_from(s, p, i + 1)
    }
}

/// `s` without the first occurrence of `p` (unchanged when there is none).
pub open spec fn remove_first(s: Seq<char>, p: Seq<char>) -> Seq<char> {
    match find_from(s, p, 0) {
        Some(i) => s.subrange(0, i) + s.subrange(i + p.len(), s.len() as int),
        None => s,
    }
}

/// `s` without every occurrence of `p`, taken left to right without overlap.
pub open spec fn remove_all(s: Seq<char>, p: Seq<char>) -> Seq<char>
    decreases s.len(),
{
    if p.len() == 0 || s.len() < p.len() {
        s
    } else if s.subrange(0, p.len() as int) == p {
        remove_all(s.subrange(p.len() as int, s.len() as int), p)
    } else {
        seq![s[0]] + remove_all(s.drop_first(), p)
    }
}

/// Whether `p` occurs in `s` at position `i`.
fn occurs_at_exec(s: &Vec<char>, p: &Vec<char>, i: usize) -> (r: bool)
    ensures
        r == occurs_at(s@, p@, i as int),
{
    if i > s.len() || p.len() > s.len() - i {
        return false;
    }
    let mut j: usize = 0;
    while j < p.len()
        invariant
            j <= p@.len(),
            i <= s@.len(),
            i + p@.len() <= s@.len(),
            s@.len() <= usize::MAX,
            forall|k: int| 0 <= k < j ==> s@[i + k] == p@[k],
        decreases p.len() - j,
    {
        if s[i + j] != p[j] {
            assert(s@.subrange(i as int, i + p@.len())[j as int] != p@[j as int]);
            return false;
        }
        j = j + 1;
    }
    assert(s@.subrange(i as int, i + p@.len()) =~= p@);
    true
}

impl NString {
    /// The text without the first occurrence of `other`.
    pub fn sub(&self, other: &NString) -> (r: NString)
        ensures
            r.inner_value@ == remove_first(self.inner_value@, other.inner_value@),
    {
        let s = chars_of(self.inner_value.as_str());
        let p = chars_of(other.inner_value.as_str());
        if p.len() == 0 {
            assert(s@.subrange(0, 0) =~= p@);
            assert(occurs_at(s@, p@, 0));
            assert(s@.subrange(0, 0) + s@.subrange(0, s@.len() as int) =~= s@);
            return NString { inner_value: self.inner_value.clone() };
        }
        let mut i: usize = 0;
        while i <= s.len() && p.len() <= s.len() - i
            invariant
                find_from(s@, p@, 0) == find_from(s@, p@, i as int),
                s@ == self.inner_value@,
                p@ == other.inner_value@,
                i <= s@.len() + 1,
                p@.len() >= 1,
            decreases s.len() + 1 - i,
        {
            if occurs_at_exec(&s, &p, i) {
                assert(find_from(s@, p@, i as int) == Some(i as int));
                let mut out: Vec<char> = Vec::new();
                let mut k: usize = 0;
                while k < i
                    invariant
                        k <= i <= s@.len(),
                        out@ == s@.subrange(0, k as int),
                        find_from(s@, p@, 0) == Some(i as int),
                        s@ == self.inner_value@,
                        p@ == other.inner_value@,
                    decreases i - k,
                {
                    out.push(s[k]);
                    assert(s@.subrange(0, k + 1) == s@.subrange(0, k as int).push(s@[k as int]));
                    k = k + 1;
                }
                let mut k = i + p.len();
                while k < s.len()
                    invariant
                        i + p@.len() <= k <= s@.len(),
                        out@ == s@.subrange(0, i as int) + s@.subrange(i + p@.len(), k as int),
                        find_from(s@, p@, 0) == Some(i as int),
                        s@ == self.inner_value@,
                        p@ == other.inner_value@,
                    decreases s.len() - k,
                {
                    out.push(s[k]);
                    assert(s@.subrange(i + p@.len(), k + 1) == s@.subrange(i + p@.len(), k as int).push(s@[k as int]));
                    k = k + 1;
                }
                assert(out@ == s@.subrange(0, i as int) + s@.subrange(i + p@.len(), s@.len() as int));
                assert(remove_first(s@, p@) == out@);
                return NString { inner_value: string_of(&out) };
            }
            i = i + 1;
        }
        NString { inner_value: self.inner_value.clone() }
    }

    /// The text without every occurrence of `other`.
    pub fn sub_multiple(&self, other: &NString) -> (r: NString)
        ensures
            r.inner_value@ == remove_all(self.inner_value@, other.inner_value@),
    {
        let s = chars_of(self.inner_value.as_str());
        let p = chars_of(other.inner_value.as_str());
        if p.len() == 0 {
            return NString { inner_value: self.inner_value.clone() };
        }
        let mut out: Vec<char> = Vec::new();
        let mut i: usize = 0;
        assert(s@.subrange(0, s@.len() as int) =~= s@);
        while i < s.len()
            invariant
                i <= s@.len(),
                p@.len() > 0,
                s@ == self.inner_value@,
                p@ == other.inner_value@,
                remove_all(s@, p@) == out@ + remove_all(s@.subrange(i as int, s@.len() as int), p@),
            decreases s.len() - i,
        {
            let ghost rest = s@.subrange(i as int, s@.len() as int);
            if occurs_at_exec(&s, &p, i) {
                assert(rest.subrange(0, p@.len() as int) =~= s@.subrange(i as int, i + p@.len()));
                assert(rest.subrange(p@.len() as int, rest.len() as int) =~= s@.subrange(i + p@.len(), s@.len() as int));
                i = i + p.len();
            } else {
                proof {
                    if rest.len() >= p@.len() {
                        assert(rest.subrange(0, p@.len() as int) =~= s@.subrange(i as int, i + p@.len()));
                    }
                }
                assert(rest.drop_first() =~= s@.subrange(i + 1, s@.len() as int));
                let ghost before = out@;
                out.push(s[i]);
                assert(out@ + remove_all(s@.subrange(i + 1, s@.len() as int), p@) =~= before + (seq![s@[i as int]] + remove_all(rest.drop_first(), p@)));
                i = i + 1;
            }
        }
        assert(s@.subrange(i as int, s@.len() as int) =~= Seq::<char>::empty());
        assert(out@ + Seq::<char>::empty() =~= out@);
        NString { inner_value: string_of(&out) }
    }
}

} // verus!
