//! Pattern-based asset lookup over the names of a release's assets.

use vstd::prelude::*;

use crate::errors::Error;

verus! {

/// Whether `pattern` is a well-formed regular expression; compilation
/// succeeds exactly on these.
pub uninterp spec fn regex_valid(pattern: Seq<char>) -> bool;

/// Whether `text` contains a match of `pattern`; a function of the pattern
/// and the text alone.
pub uninterp spec fn regex_matches(pattern: Seq<char>, text: Seq<char>) -> bool;

/// Relies on regex::Regex::new: compilation succeeds exactly on
/// well-formed patterns, deterministically in the pattern.
#[verifier::external_body]
fn compile_pattern_check(pattern: &str) -> (r: Result<(), Error>)
    ensures
        r is Ok <==> regex_valid(pattern@),
        r is Err ==> r->Err_0 is Parse,
{
    match regex::Regex::new(pattern) {
        Ok(_) => Ok(()),
        Err(e) => Err(Error::Parse(e.to_string())),
    }
}

/// Relies on regex::Regex::new and regex::Regex::is_match: whether the
/// text contains a match of the pattern, a function of the two alone.
#[verifier::external_body]
fn pattern_matches(pattern: &str, text: &str) -> (r: Result<bool, Error>)
    ensures
        r is Ok <==> regex_valid(pattern@),
        r is Ok ==> r->Ok_0 == regex_matches(pattern@, text@),
        r is Err ==> r->Err_0 is Parse,
{
    match regex::Regex::new(pattern) {
        Ok(re) => Ok(re.is_match(text)),
        Err(e) => Err(Error::Parse(e.to_string())),
    }
}

/// Check a pattern before any other work — in particular before any
/// network call: success exactly on well-formed regular expressions, a
/// parse error otherwise.
pub fn pattern_is_well_formed(pattern: &str) -> (r: Result<(), Error>)
    ensures
        r is Ok <==> regex_valid(pattern@),
        r is Err ==> r->Err_0 is Parse,
{
    compile_pattern_check(pattern)
}

/// Find the first asset name that the pattern matches: a parse error on a
/// malformed pattern, the first matching name when one exists, and the
/// no-matching-asset error when none does.
pub fn find_matching_asset(pattern: &str, names: &Vec<String>) -> (r: Result<String, Error>)
    ensures
        !regex_valid(pattern@) ==> r is Err && r->Err_0 is Parse,
        regex_valid(pattern@) ==> match r {
            Result::Ok(name) => exists|i: int|
                0 <= i < names@.len() && names@[i]@ == name@ && #[trigger] regex_matches(
                    pattern@,
                    names@[i]@,
                ) && (forall|j: int| 0 <= j < i ==> !regex_matches(pattern@, names@[j]@)),
            Result::Err(e) => e is NoMatchingAsset && forall|i: int|
                0 <= i < names@.len() ==> !regex_matches(pattern@, names@[i]@),
        },
{
    match compile_pattern_check(pattern) {
        Ok(_) => {},
        Err(e) => {
            return Err(e);
        },
    }
    let mut i: usize = 0;
    while i < names.len()
        invariant
            regex_valid(pattern@),
            i <= names@.len(),
            forall|j: int| 0 <= j < i ==> !regex_matches(pattern@, names@[j]@),
        decreases names@.len() - i,
    {
        let hit = match pattern_matches(pattern, names[i].as_str()) {
            Ok(b) => b,
            Err(e) => {
                return Err(e);
            },
        };
        if hit {
            let found = names[i].clone();
            proof {
                assert(names@[i as int]@ == found@ && regex_matches(pattern@, names@[i as int]@)
                    && (forall|j: int| 0 <= j < i ==> !regex_matches(pattern@, names@[j]@)));
            }
            return Ok(found);
        }
        i = i + 1;
    }
    Err(Error::NoMatchingAsset)
}

} // verus!
