//! The trusted seam around the rapidhash streaming hasher.
//!
//! The generator's whole state is one `rapidhash::RapidHasher`.  That type is
//! opaque here, so its abstract content is modelled by [`absorbed`], the
//! sequence of byte chunks written into it — one chunk per `write` call —
//! since it was created, and the value its `finish` returns is named
//! [`digest_of`], a pure function of that chunk sequence.  The model keeps
//! the chunks apart rather than concatenating them because rapidhash folds
//! each `write` call as a unit: the state, and hence the digest, depends on
//! how the bytes were split across calls, not only on the bytes themselves.
//! Everything the rest of the crate proves about determinism rests on these
//! three wrappers.

use vstd::prelude::*;

verus! {

#[verifier::external_type_specification]
#[verifier::external_body]
pub struct ExRapidHasher(rapidhash::RapidHasher);

/// The chunks a hasher has absorbed since it was created with the default
/// seed, one per `write` call, in call order.  `rapidhash::RapidHasher` is a
/// plain value type whose state is a deterministic fold over the write
/// calls, so the wrappers below can describe each operation in terms of this
/// sequence.
pub uninterp spec fn absorbed(h: rapidhash::RapidHasher) -> Seq<Seq<u8>>;

/// The 64-bit digest rapidhash derives from a hasher that has absorbed the
/// given chunk sequence.  `RapidHasher::finish` is a pure function of the
/// hasher's state (fixed default seed, no entropy source), and the state is
/// a pure function of the write calls made, so the digest is a function of
/// the absorbed chunk sequence alone.  No further property of the mixing
/// function is assumed: which concrete value comes out is deliberately
/// unspecified.
pub uninterp spec fn digest_of(s: Seq<Seq<u8>>) -> u64;

/// Relies on `RapidHasher::default`, which builds a hasher from the fixed
/// constant seed `RAPID_SEED` with empty accumulator words; it has absorbed
/// nothing.
#[verifier::external_body]
pub(crate) fn hasher_new() -> (h: rapidhash::RapidHasher)
    ensures
        absorbed(h) == Seq::<Seq<u8>>::empty(),
{
    rapidhash::RapidHasher::default()
}

/// Relies on `Hasher::write` for `RapidHasher`: a deterministic in-place
/// fold of the given bytes, as one unit, into the hasher's state, with no
/// other effect.  The byte count the hasher keeps is a `u64`; a total beyond
/// that is out of reach of any execution (it would take over 2^64 absorbed
/// bytes), like allocation failure.
#[verifier::external_body]
pub(crate) fn hasher_write(h: &mut rapidhash::RapidHasher, bytes: &[u8])
    ensures
        absorbed(*final(h)) == absorbed(*old(h)).push(bytes@),
{
    core::hash::Hasher::write(h, bytes)
}

/// Relies on `Hasher::finish` for `RapidHasher`: it computes the digest from
/// the current state through `&self`, so the hasher is left unchanged and
/// repeated calls return the same value.
#[verifier::external_body]
pub(crate) fn hasher_finish(h: &rapidhash::RapidHasher) -> (r: u64)
    ensures
        r == digest_of(absorbed(*h)),
{
    core::hash::Hasher::finish(h)
}

} // verus!
