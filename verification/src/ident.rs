//! Stable 64-bit identifiers for path strings.
use std::collections::hash_map::DefaultHasher;
use std::hash::{Hash, Hasher};
use vstd::prelude::*;
use vstd::std_specs::hash::DefaultHasherAdditionalSpecFns;

verus! {

/// The byte chunks that hashing a string writes into a hasher, in order.
pub uninterp spec fn hashed_form(text: Seq<char>) -> Seq<Seq<u8>>;

/// The identifier of a path: the digest that the standard hasher, freshly
/// created, gives after the path has been hashed into it.
pub open spec fn path_id(path: Seq<char>) -> u64 {
    DefaultHasher::spec_finish(hashed_form(path))
}

/// Calls `<str as Hash>::hash` on a `DefaultHasher`.
///
/// Trusted: the writes that reach the hasher depend on the text alone, and
/// they are appended to the writes the hasher has already seen.
#[verifier::external_body]
fn feed_str(text: &str, state: &mut DefaultHasher)
    ensures
        final(state)@ == old(state)@ + hashed_form(text@),
{
    text.hash(state);
}

/// Maps a path string to its identifier.
///
/// The result depends on the characters of `path` alone: no filesystem
/// access, no per-process seed.
pub fn identify(path: &str) -> (id: u64)
    ensures
        id == path_id(path@),
{
    let mut hasher = DefaultHasher::new();
    feed_str(path, &mut hasher);
    assert(hasher@ =~= hashed_form(path@));
    hasher.finish()
}

/// Identity is determined by the path: equal paths have equal identifiers.
pub proof fn lemma_identity_is_determined(p: Seq<char>, q: Seq<char>)
    requires
        p == q,
    ensures
        path_id(p) == path_id(q),
{
}

} // verus!
