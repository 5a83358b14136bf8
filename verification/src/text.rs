//! Small helpers for moving between strings and sequences of characters.

use vstd::prelude::*;

verus! {

/// `String::push` appends exactly one character to the end of the string.
pub assume_specification[ std::string::String::push ](s: &mut std::string::String, ch: char)
    ensures
        final(s)@ == old(s)@.push(ch),
;

/// Every type converts into itself: `From<T> for T` hands its argument back.
pub assume_specification<Same>[ <Same as std::convert::From<Same>>::from ](given: Same) -> (same: Same)
    ensures
        same == given,
;

/// Equality of string slices, as `str`'s `PartialEq` decides it: the two
/// slices hold the same characters in the same order.
#[verifier::external_body]
pub(crate) fn str_eq(a: &str, b: &str) -> (same: bool)
    ensures
        same == (a@ == b@),
{
    a == b
}

/// The characters of `s`, in order.
pub fn chars_of(s: &str) -> (chars: Vec<char>)
    ensures
        chars@ == s@,
{
    broadcast use vstd::string::group_string_axioms;

    let mut chars: Vec<char> = Vec::new();
    for c in it: s.chars()
        invariant
            it.seq() == s@,
            chars@ == it.seq().take(it.index() as int),
    {
        chars.push(c);
    }
    chars
}

/// The string `prefix` followed by the characters of `chars`.
pub fn push_chars(prefix: String, chars: &Vec<char>) -> (s: String)
    ensures
        s@ == prefix@ + chars@,
{
    let mut s = prefix;
    let mut i: usize = 0;
    while i < chars.len()
        invariant
            i <= chars@.len(),
            s@ == prefix@ + chars@.take(i as int),
        decreases chars@.len() - i,
    {
        s.push(chars[i]);
        i += 1;
    }
    s
}

} // verus!
