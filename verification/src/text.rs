//! Small verified helpers on strings.

use vstd::prelude::*;

verus! {

broadcast use vstd::string::group_string_axioms;

/// Whether two strings hold the same characters.
pub fn str_eq(a: &str, b: &str) -> (r: bool)
    ensures
        r == (a@ == b@),
{
    let a_owned = a.to_owned();
    let b_owned = b.to_owned();
    a_owned == b_owned
}

/// Whether `s` holds the character `c`.
pub fn contains_char(s: &str, c: char) -> (r: bool)
    ensures
        r == s@.contains(c),
{
    for ch in it: s.chars()
        invariant
            it.seq() == s@,
            forall|j: int| 0 <= j < it.index() ==> it.seq()[j] != c,
    {
        if ch == c {
            assert(s@[it.index() as int] == c);
            return true;
        }
    }
    false
}

/// The characters of each string of a slice.
pub open spec fn strs_view(v: Seq<&str>) -> Seq<Seq<char>> {
    v.map_values(|s: &str| s@)
}

/// Whether one of `items` holds the same characters as `s`.
pub fn contains_str(items: &[&str], s: &str) -> (r: bool)
    ensures
        r == strs_view(items@).contains(s@),
{
    for i in 0..items.len()
        invariant
            forall|j: int| 0 <= j < i ==> items@[j]@ != s@,
    {
        if str_eq(items[i], s) {
            assert(strs_view(items@)[i as int] == s@);
            return true;
        }
    }
    false
}

} // verus!
