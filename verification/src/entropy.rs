//! The source of random bytes.

use vstd::prelude::*;

verus! {

/// One byte from `rand::random`, which draws it from the thread-local
/// generator of the `rand` crate. Nothing is claimed of its value: any byte
/// may come back, and two calls need not agree. The generator is seeded from
/// the operating system on a thread's first call, and panics if the system
/// cannot seed it.
#[verifier::external_body]
pub(crate) fn random_byte() -> (byte: u8) {
    rand::random::<u8>()
}

} // verus!
