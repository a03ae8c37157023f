//! Where the random text of the documents comes from.
//!
//! The two functions below hand the work to the `rand` and `fake` crates.
//! Their contracts say what holds of every string that can come back; they
//! are taken on trust, and two calls need not agree.

use vstd::prelude::*;
use fake::Fake;
use rand::distributions::DistString;

verus! {

/// A letter of either case or a digit, in ASCII.
pub open spec fn is_alphanumeric(c: char) -> bool {
    ('A' <= c <= 'Z') || ('a' <= c <= 'z') || ('0' <= c <= '9')
}

/// Text made of ASCII letters and digits alone.
pub open spec fn alphanumeric_text(s: Seq<char>) -> bool {
    forall|i: int| 0 <= i < s.len() ==> is_alphanumeric(#[trigger] s[i])
}

/// A word as the placeholder vocabulary has them: at least one letter, and
/// lower-case ASCII letters only.
pub open spec fn lorem_word(s: Seq<char>) -> bool {
    &&& s.len() >= 1
    &&& forall|i: int| 0 <= i < s.len() ==> 'a' <= #[trigger] s[i] <= 'z'
}

/// `Alphanumeric.sample_string` of `rand`, on the thread's generator: a
/// string of `len` characters, each drawn from the upper-case letters, the
/// lower-case letters and the digits of ASCII.
#[verifier::external_body]
pub(crate) fn sample_alphanumeric(len: usize) -> (chunk: String)
    ensures
        chunk@.len() == len,
        alphanumeric_text(chunk@),
{
    rand::distributions::Alphanumeric.sample_string(&mut rand::thread_rng(), len)
}

/// `Word` of `fake`'s English lorem faker: one entry of the crate's fixed
/// list of Latin placeholder words, every one of which is a non-empty run of
/// lower-case ASCII letters.
#[verifier::external_body]
pub(crate) fn sample_word() -> (word: String)
    ensures
        lorem_word(word@),
{
    fake::faker::lorem::en::Word().fake::<String>()
}

} // verus!
