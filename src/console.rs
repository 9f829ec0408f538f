//! Reading a yes/no style confirmation from the user.

use vstd::prelude::*;

verus! {

/// What `str::trim` leaves of a text.
pub uninterp spec fn trimmed(s: Seq<char>) -> Seq<char>;

/// Relies on `str::trim`: the text without leading and trailing Unicode
/// white space.
#[verifier::external_body]
fn trim(s: &str) -> (r: &str)
    ensures
        r@ == trimmed(s@),
{
    s.trim()
}

/// Whether an answer, already trimmed, is exactly the expected token (case
/// matters).
pub fn answer_matches(trimmed_answer: &str, expected: &str) -> (r: bool)
    ensures
        r == (trimmed_answer@ == expected@),
{
    String::from_str(trimmed_answer) == String::from_str(expected)
}

/// Whether a line typed by the user confirms: without its surrounding white
/// space it must be exactly the expected token.
pub fn is_confirmed(answer: &str, expected: &str) -> (r: bool)
    ensures
        r == (trimmed(answer@) == expected@),
{
    answer_matches(trim(answer), expected)
}

} // verus!
