//! Small string helpers: character-wise equality and containment, proved
//! through vstd's `String` specifications, and trusted boundaries to the two
//! std text operations the rendering engine needs (`str::replace` and
//! integer-to-decimal conversion).
use vstd::prelude::*;

verus! {

/// The views of a sequence of string slices.
pub open spec fn strs(v: Seq<&str>) -> Seq<Seq<char>> {
    v.map_values(|s: &str| s@)
}

/// The views of a sequence of owned strings.
pub open spec fn strings(v: Seq<String>) -> Seq<Seq<char>> {
    v.map_values(|s: String| s@)
}

/// Character-wise equality of two string slices.
pub fn str_eq(a: &str, b: &str) -> (r: bool)
    ensures
        r == (a@ == b@),
{
    let x = a.to_owned();
    let y = b.to_owned();
    x == y
}

/// Whether one of the slices in `v` has exactly the characters of `s`.
pub fn contains_str(v: &Vec<&str>, s: &str) -> (r: bool)
    ensures
        r == strs(v@).contains(s@),
{
    let mut i: usize = 0;
    while i < v.len()
        invariant
            i <= v@.len(),
            forall|j: int| 0 <= j < i ==> strs(v@)[j] != s@,
        decreases v@.len() - i,
    {
        if str_eq(v[i], s) {
            assert(strs(v@)[i as int] == s@);
            return true;
        }
        i += 1;
    }
    assert(forall|j: int| 0 <= j < strs(v@).len() ==> strs(v@)[j] != s@);
    false
}

/// Whether one of the owned strings in `v` has exactly the characters of
/// `s`.
pub fn contains_string(v: &Vec<String>, s: &str) -> (r: bool)
    ensures
        r == strings(v@).contains(s@),
{
    let mut i: usize = 0;
    while i < v.len()
        invariant
            i <= v@.len(),
            forall|j: int| 0 <= j < i ==> strings(v@)[j] != s@,
        decreases v@.len() - i,
    {
        if str_eq(v[i].as_str(), s) {
            assert(strings(v@)[i as int] == s@);
            return true;
        }
        i += 1;
    }
    assert(forall|j: int| 0 <= j < strings(v@).len() ==> strings(v@)[j] != s@);
    false
}

/// What `str::replace` returns: `s` with every occurrence of `from`
/// replaced by `to`, found left to right.
pub uninterp spec fn replace_of(s: Seq<char>, from: Seq<char>, to: Seq<char>) -> Seq<char>;

/// Relies on str::replace: the result is a function of the three arguments
/// alone, named `replace_of`.
#[verifier::external_body]
pub(crate) fn str_replace(s: &str, from: &str, to: &str) -> (r: String)
    ensures
        r@ == replace_of(s@, from@, to@),
{
    s.replace(from, to)
}

/// The decimal rendering of an `i32` value, as `i32`'s `Display` writes it.
pub uninterp spec fn dec_i32(n: int) -> Seq<char>;

/// Relies on i32's ToString (through Display): the decimal digits of `n`,
/// a function of `n` alone, named `dec_i32`.
#[verifier::external_body]
pub(crate) fn i32_to_string(n: i32) -> (r: String)
    ensures
        r@ == dec_i32(n as int),
{
    n.to_string()
}

} // verus!
