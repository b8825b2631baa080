use vstd::prelude::*;

verus! {

/// Draws one byte from `rand::random::<u8>()`, the thread-local generator of
/// the `rand` crate.
///
/// Nothing is claimed about the byte: every value from 0 to 255 may come
/// back, and two calls need not agree.
///
/// The call returns unless the operating system lets the generator down, in
/// which case it panics: when the system's entropy source fails as the
/// generator is seeded on a thread's first use or reseeded later on, or
/// when the handler that reseeds after a fork cannot be registered.  No
/// argument decides any of this, so no precondition can rule it out.
#[verifier::external_body]
pub(crate) fn random_byte() -> (byte: u8) {
    rand::random::<u8>()
}

} // verus!
