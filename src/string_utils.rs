//! Character classes and string joining.
use vstd::prelude::*;

verus! {

/// What `char::is_alphanumeric` answers for `c` (Unicode alphabetic or numeric).
pub uninterp spec fn alphanumeric_char(c: char) -> bool;

/// What `char::is_numeric` answers for `c` (Unicode categories Nd, Nl, No).
pub uninterp spec fn numeric_char(c: char) -> bool;

/// Relies on `char::is_alphanumeric`; ASCII letters and digits are alphanumeric.
#[verifier::external_body]
fn is_alphanumeric(c: char) -> (r: bool)
    ensures
        r == alphanumeric_char(c),
        ('0' <= c <= '9' || 'a' <= c <= 'z' || 'A' <= c <= 'Z') ==> r,
{
    c.is_alphanumeric()
}

/// Relies on `char::is_numeric`; ASCII digits are numeric.
#[verifier::external_body]
pub fn is_numeric(c: char) -> (r: bool)
    ensures
        r == numeric_char(c),
        '0' <= c <= '9' ==> r,
{
    c.is_numeric()
}

/// Whether `c` may stand in an identifier.
pub open spec fn identifier_char(c: char) -> bool {
    alphanumeric_char(c) || c == '_' || c == '#'
}

pub fn is_identifer(c: char) -> (r: bool)
    ensures
        r == identifier_char(c),
{
    is_alphanumeric(c) || c == '_' || c == '#'
}

/// The items of `v` with `sep` between each two.
pub open spec fn joined(v: Seq<Seq<char>>, sep: Seq<char>) -> Seq<char>
    decreases v.len(),
{
    if v.len() == 0 {
        Seq::empty()
    } else if v.len() == 1 {
        v[0]
    } else {
        joined(v.drop_last(), sep) + sep + v.last()
    }
}

pub fn join_vec(v: &Vec<String>, sep: &str) -> (r: String)
    ensures
        r@ == joined(v@.map_values(|s: String| s@), sep@),
{
    let ghost views = v@.map_values(|s: String| s@);
    if v.len() == 0 {
        return String::new();
    }
    let mut s = v[0].clone();
    let mut i: usize = 1;
    assert(views.subrange(0, 1).drop_last() =~= Seq::<Seq<char>>::empty());
    while i < v.len()
        invariant
            1 <= i <= v@.len(),
            views == v@.map_values(|s: String| s@),
            s@ == joined(views.subrange(0, i as int), sep@),
        decreases v.len() - i,
    {
        s.append(sep);
        s.append(v[i].as_str());
        assert(views.subrange(0, i + 1).drop_last() =~= views.subrange(0, i as int));
        i = i + 1;
    }
    assert(views.subrange(0, v@.len() as int) =~= views);
    s
}

} // verus!
