//! Random identifiers.
use crate::text;
use vstd::prelude::*;

verus! {

/// Whether `c` is a lower-case hexadecimal digit.
pub open spec fn is_lower_hex(c: char) -> bool {
    '0' <= c <= '9' || 'a' <= c <= 'f'
}

/// Whether `s` has the form of a random UUID in its hyphenated notation:
/// thirty-two lower-case hexadecimal digits in five groups, with the version
/// digit 4 and one of the variant digits 8, 9, a and b in their places.
pub open spec fn is_random_uuid(s: Seq<char>) -> bool {
    &&& s.len() == 36
    &&& forall|i: int|
        0 <= i < 36 ==> if i == 8 || i == 13 || i == 18 || i == 23 {
            #[trigger] s[i] == '-'
        } else {
            is_lower_hex(s[i])
        }
    &&& s[14] == '4'
    &&& (s[19] == '8' || s[19] == '9' || s[19] == 'a' || s[19] == 'b')
}

/// `Uuid::new_v4` in the hyphenated notation of its `Display`. Which identifier
/// comes back is left to chance; its form is not.
#[verifier::external_body]
pub(crate) fn random_uuid() -> (r: String)
    ensures
        is_random_uuid(r@),
{
    uuid::Uuid::new_v4().to_string()
}

/// A random identifier travels in a URL as it is: no character of it needs an
/// escape.
pub proof fn a_random_uuid_needs_no_escape(s: Seq<char>)
    requires
        is_random_uuid(s),
    ensures
        text::percent::component(s) == s,
{
    text::percent::plain_text_is_left_alone(s);
}

} // verus!
