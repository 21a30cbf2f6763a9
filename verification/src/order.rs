//! The two string operations that the library takes from elsewhere: natural
//! comparison, from the `natord` crate, and Unicode lower-casing, from the
//! standard library. Their results are named here and believed, not proved.

use vstd::prelude::*;

verus! {

/// The verdict of `natord::compare` on `a` and `b`: -1 where `a` sorts before
/// `b`, 1 where it sorts after, 0 where the comparison puts neither first.
/// The crate sets runs of digits against each other as numbers, not
/// character by character; its rules are its own and are not restated here.
pub uninterp spec fn natural_order(a: Seq<char>, b: Seq<char>) -> int;

/// The result of `str::to_lowercase` on `s`.
pub uninterp spec fn lowercase(s: Seq<char>) -> Seq<char>;

/// Calls `natord::compare` and gives its verdict as a number. Trusted: the
/// number is that of the named verdict, one of -1, 0 and 1. The call returns
/// for every pair of strings.
#[verifier::external_body]
pub(crate) fn natural_compare(a: &str, b: &str) -> (r: i8)
    ensures
        r == natural_order(a@, b@),
        -1 <= r <= 1,
{
    match natord::compare(a, b) {
        std::cmp::Ordering::Less => -1,
        std::cmp::Ordering::Equal => 0,
        std::cmp::Ordering::Greater => 1,
    }
}

/// Calls `str::to_lowercase`. Trusted: the string that comes back is the
/// named lower-case form of the argument.
#[verifier::external_body]
pub(crate) fn to_lowercase(s: &str) -> (r: String)
    ensures
        r@ == lowercase(s@),
{
    s.to_lowercase()
}

/// Whether `a` sorts strictly before `b` in natural order.
pub fn sorts_before(a: &str, b: &str) -> (r: bool)
    ensures
        r == (natural_order(a@, b@) < 0),
{
    natural_compare(a, b) < 0
}

} // verus!
