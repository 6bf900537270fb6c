//! Character-level helpers shared by the URL, path and state-file logic.

use vstd::prelude::*;

verus! {

/// True when `s` ends with the suffix `suffix`.
pub open spec fn seq_ends_with(s: Seq<char>, suffix: Seq<char>) -> bool {
    suffix.len() <= s.len() && s.skip(s.len() - suffix.len()) == suffix
}

/// Collect the characters of a string slice into a vector.
pub fn str_chars(s: &str) -> (r: Vec<char>)
    ensures
        r@ == s@,
{
    let n = s.unicode_len();
    let mut v: Vec<char> = Vec::new();
    let mut i: usize = 0;
    while i < n
        invariant
            i <= n,
            n == s@.len(),
            v@ == s@.subrange(0, i as int),
        decreases n - i,
    {
        let c = s.get_char(i);
        v.push(c);
        proof {
            assert(v@ =~= s@.subrange(0, i + 1 as int));
        }
        i = i + 1;
    }
    proof {
        assert(v@ =~= s@);
    }
    v
}

/// Relies on `String`'s `FromIterator<char>` implementation: collecting
/// an iterator of characters yields a string of exactly those characters.
#[verifier::external_body]
pub fn chars_to_string(v: &Vec<char>) -> (r: String)
    ensures
        r@ == v@,
{
    v.iter().collect()
}

/// True when the two string slices hold the same characters.
pub fn str_eq(a: &str, b: &str) -> (r: bool)
    ensures
        r == (a@ == b@),
{
    let sa = a.to_owned();
    let sb = b.to_owned();
    sa == sb
}

/// True when the character vector `s` ends with `suffix`.
pub fn chars_end_with(s: &Vec<char>, suffix: &Vec<char>) -> (r: bool)
    ensures
        r == seq_ends_with(s@, suffix@),
{
    if suffix.len() > s.len() {
        return false;
    }
    let off: usize = s.len() - suffix.len();
    let mut j: usize = 0;
    while j < suffix.len()
        invariant
            suffix.len() <= s.len(),
            off == s.len() - suffix.len(),
            j <= suffix.len(),
            forall|k: int| 0 <= k < j ==> s@[off + k] == suffix@[k],
        decreases suffix.len() - j,
    {
        if s[off + j] != suffix[j] {
            proof {
                assert(s@.skip(s@.len() - suffix@.len())[j as int] != suffix@[j as int]);
            }
            return false;
        }
        j = j + 1;
    }
    proof {
        assert(s@.skip(s@.len() - suffix@.len()) =~= suffix@);
    }
    true
}

} // verus!
