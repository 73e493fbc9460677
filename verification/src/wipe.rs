//! Overwriting secrets in place before their memory is reused.
use vstd::prelude::*;
use zeroize::Zeroize;

verus! {

/// Calls `zeroize::Zeroize::zeroize` of `Vec<u8>`: afterwards the vector is empty. That the
/// old contents, spare capacity included, are overwritten with zeros first, and that the
/// allocation is kept, are effects on memory that no contract speaks of.
#[verifier::external_body]
pub(crate) fn wipe_bytes(bytes: &mut Vec<u8>)
    ensures
        final(bytes)@ == Seq::<u8>::empty(),
    opens_invariants none
    no_unwind
{
    bytes.zeroize()
}

/// Calls `zeroize::Zeroize::zeroize` of `String`, which wipes the bytes of the string as
/// [`wipe_bytes`] does: afterwards the string is empty.
#[verifier::external_body]
pub(crate) fn wipe_string(text: &mut String)
    ensures
        final(text)@ == Seq::<char>::empty(),
    opens_invariants none
    no_unwind
{
    text.zeroize()
}

/// Calls `zeroize::Zeroize::zeroize` of `[u8; 32]`: afterwards every byte is zero.
#[verifier::external_body]
pub(crate) fn wipe_key(key: &mut [u8; 32])
    ensures
        final(key)@ == Seq::new(32, |i: int| 0u8),
    opens_invariants none
    no_unwind
{
    key.zeroize()
}

} // verus!
