//! Human-readable pseudonyms for rooms, unique among live rooms.
use vstd::prelude::*;

use crate::rooms::RoomStore;

verus! {

/// How many random names are tried before falling back to lengthening one.
pub const CODENAME_ATTEMPTS: u32 = 1000;

/// Whether `s` is two words joined by one space: exactly one space, neither
/// first nor last.
pub open spec fn is_two_words(s: Seq<char>) -> bool {
    exists|k: int|
        0 < k < s.len() - 1 && #[trigger] s[k] == ' ' && (forall|i: int|
            0 <= i < s.len() && i != k ==> s[i] != ' ')
}

/// Whether `s` is two words joined by one space, possibly followed by
/// trailing `'` marks.
pub open spec fn is_codename(s: Seq<char>) -> bool {
    exists|m: int|
        0 <= m <= s.len() && is_two_words(#[trigger] s.subrange(0, m)) && (forall|i: int|
            m <= i < s.len() ==> s[i] == '\'')
}

/// Relies on petname::petname with two words and a space: an adjective and a
/// name drawn at random from its default word lists, joined by the space.
/// The lists are split on whitespace and none is empty, so each word is
/// non-empty and holds no space. Which words come back is left to chance.
#[verifier::external_body]
fn petname() -> (r: String)
    ensures
        is_two_words(r@),
{
    petname::petname(2, " ")
}

/// The length of the longest live codename.
fn longest_codename(store: &RoomStore) -> (r: usize)
    ensures
        forall|i: int| 0 <= i < store@.len() ==> #[trigger] store@[i].codename@.len() <= r,
{
    let mut longest: usize = 0;
    let mut i: usize = 0;
    while i < store.len()
        invariant
            i <= store@.len(),
            forall|k: int| 0 <= k < i ==> #[trigger] store@[k].codename@.len() <= longest,
        decreases store@.len() - i,
    {
        let n = store.room_at(i).codename.as_str().unicode_len();
        if n > longest {
            longest = n;
        }
        i = i + 1;
    }
    longest
}

/// Lengthens `name` with trailing marks until it is longer than every live
/// codename, and so differs from all of them.
fn lengthen_past(store: &RoomStore, name: String) -> (r: String)
    ensures
        !store.has_codename(r@),
        name@.len() <= r@.len(),
        r@.subrange(0, name@.len() as int) == name@,
        forall|i: int| name@.len() <= i < r@.len() ==> r@[i] == '\'',
{
    let longest = longest_codename(store);
    let mut r = name;
    while r.as_str().unicode_len() <= longest
        invariant
            forall|i: int| 0 <= i < store@.len() ==> #[trigger] store@[i].codename@.len() <= longest,
            name@.len() <= r@.len(),
            r@.subrange(0, name@.len() as int) == name@,
            forall|i: int| name@.len() <= i < r@.len() ==> r@[i] == '\'',
        decreases longest + 1 - r@.len(),
    {
        proof { reveal_strlit("'"); }
        let ghost before = r@;
        r.append("'");
        assert(r@.subrange(0, name@.len() as int) =~= before.subrange(0, name@.len() as int));
    }
    r
}

/// Draws random two-word names until one is not a live codename. After
/// `CODENAME_ATTEMPTS` draws that were all taken, the last draw is lengthened
/// past every live codename instead, so the search always ends.
///
/// The default word lists give 449 adjectives and 456 names, so 204,744
/// names. With `n` live rooms one draw is taken with probability
/// `n / 204744`, and the fallback is reached with probability
/// `(n / 204744)^1000`: negligible until the rooms come near the number of
/// names.
pub fn generate_codename(store: &RoomStore) -> (r: String)
    ensures
        !store.has_codename(r@),
        is_codename(r@),
{
    let mut last = String::new();
    let mut attempt: u32 = 0;
    while attempt < CODENAME_ATTEMPTS
        invariant
            attempt <= CODENAME_ATTEMPTS,
            attempt > 0 ==> is_two_words(last@),
        decreases CODENAME_ATTEMPTS - attempt,
    {
        let candidate = petname();
        if !store.exists_by_codename(candidate.as_str()) {
            assert(candidate@.subrange(0, candidate@.len() as int) =~= candidate@);
            return candidate;
        }
        last = candidate;
        attempt = attempt + 1;
    }
    let r = lengthen_past(store, last);
    assert(is_two_words(r@.subrange(0, last@.len() as int)));
    r
}

} // verus!
