//! The source of random bytes for `CXNN`.
use vstd::prelude::*;

verus! {

/// One byte from `rand::random`, which draws from the thread-local generator.
/// Any byte may come back; nothing is claimed about it.
#[verifier::external_body]
pub(crate) fn random_byte() -> (r: u8) {
    rand::random::<u8>()
}

} // verus!
