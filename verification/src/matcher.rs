//! The answer matcher: compares user-supplied text against a question's
//! accepted answers under a case-sensitivity policy. The submitted text is
//! trimmed of surrounding whitespace in all cases; when matching is
//! case-insensitive, both sides are lower-cased before comparison.

use vstd::prelude::*;

verus! {

/// The text that `str::to_lowercase` returns for a given text. It depends
/// on the characters alone, so it can carry a name.
pub uninterp spec fn lower_of(s: Seq<char>) -> Seq<char>;

/// The text that `str::trim` returns for a given text: the text without
/// its leading and trailing whitespace. It depends on the characters alone.
pub uninterp spec fn trim_of(s: Seq<char>) -> Seq<char>;

/// Relies on `str::to_lowercase`: the result is a function of the
/// characters of `s` alone.
#[verifier::external_body]
fn lowercase(s: &str) -> (r: String)
    ensures
        r@ == lower_of(s@),
{
    s.to_lowercase()
}

/// Relies on `str::trim`: the result is a function of the characters of
/// `s` alone.
#[verifier::external_body]
fn trim(s: &str) -> (r: &str)
    ensures
        r@ == trim_of(s@),
{
    s.trim()
}

/// Whether a line of input carries anything besides whitespace: blank
/// submissions are not answers, and the prompt asks again.
pub fn input_acceptable(s: &str) -> (r: bool)
    ensures
        r == (trim_of(s@).len() != 0),
{
    let t = trim(s);
    !t.is_empty()
}

/// The key under which a text takes part in a comparison: the text itself
/// when matching is case-sensitive, its lower-cased form otherwise.
pub open spec fn match_key(t: Seq<char>, case_sensitive: bool) -> Seq<char> {
    if case_sensitive {
        t
    } else {
        lower_of(t)
    }
}

/// Whether the trimmed submission matches some member of `accepted` under
/// the given case policy.
pub open spec fn spec_matches(
    submitted: Seq<char>,
    accepted: Seq<Seq<char>>,
    case_sensitive: bool,
) -> bool {
    exists|i: int|
        0 <= i < accepted.len() && match_key(trim_of(submitted), case_sensitive) == match_key(
            #[trigger] accepted[i],
            case_sensitive,
        )
}

/// Compares submitted text against the accepted answers: the submission is
/// trimmed first in all cases; when `case_sensitive` is false both sides
/// are lower-cased before the comparison.
pub fn matches(submitted: &str, accepted: &Vec<String>, case_sensitive: bool) -> (r: bool)
    ensures
        r == spec_matches(submitted@, accepted.deep_view(), case_sensitive),
{
    let trimmed: String = if case_sensitive {
        trim(submitted).to_owned()
    } else {
        lowercase(trim(submitted))
    };
    let ghost key = match_key(trim_of(submitted@), case_sensitive);
    assert(trimmed@ == key);
    let mut i: usize = 0;
    while i < accepted.len()
        invariant
            i <= accepted@.len(),
            trimmed@ == key,
            key == match_key(trim_of(submitted@), case_sensitive),
            forall|j: int|
                0 <= j < i ==> key != match_key(#[trigger] accepted.deep_view()[j], case_sensitive),
        decreases accepted@.len() - i,
    {
        let candidate: String = if case_sensitive {
            accepted[i].clone()
        } else {
            lowercase(accepted[i].as_str())
        };
        proof {
            assert(accepted.deep_view()[i as int] == accepted@[i as int]@);
        }
        if trimmed == candidate {
            assert(key == match_key(accepted.deep_view()[i as int], case_sensitive));
            return true;
        }
        i = i + 1;
    }
    false
}

} // verus!
