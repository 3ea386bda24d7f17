//! Small string utilities: character-wise equality of string slices and a
//! pair of helpers that reset a string to the empty value.

use vstd::prelude::*;

verus! {

/// Character-wise equality of two string slices.
pub fn str_eq(a: &str, b: &str) -> (r: bool)
    ensures
        r == (a@ == b@),
{
    let la = a.unicode_len();
    let lb = b.unicode_len();
    if la != lb {
        return false;
    }
    let mut i: usize = 0;
    while i < la
        invariant
            i <= la,
            la == a@.len(),
            la == b@.len(),
            forall|j: int| 0 <= j < i ==> a@[j] == b@[j],
        decreases la - i,
    {
        if a.get_char(i) != b.get_char(i) {
            return false;
        }
        i = i + 1;
    }
    proof {
        assert(a@ =~= b@);
    }
    true
}

/// Reset the string behind the reference to the empty string.
pub fn use_string_mutable(s: &mut String)
    ensures
        final(s)@ == Seq::<char>::empty(),
{
    *s = String::new();
}

/// Consume a string and hand back the empty string in its place.
pub fn change_string(s: String) -> (r: String)
    ensures
        r@ == Seq::<char>::empty(),
{
    let mut s = s;
    s = String::new();
    s
}

} // verus!
