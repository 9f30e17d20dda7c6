use vstd::prelude::*;

verus! {

/// Draws a byte from `rand::random`, which samples the thread-local generator
/// of the `rand` crate. Nothing is claimed of the byte: any value may come
/// back, and two calls may differ.
#[verifier::external_body]
pub(crate) fn random_byte() -> (byte: u8) {
    rand::random::<u8>()
}

} // verus!
