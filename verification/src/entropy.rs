//! Random bytes from the thread-local generator of the `rand` crate.

use vstd::prelude::*;

verus! {

/// `rand::rngs::ThreadRng`, the handle to the generator of a thread.
#[verifier::external_type_specification]
#[verifier::external_body]
pub struct ExThreadRng(rand::rngs::ThreadRng);

/// `rand::thread_rng` hands out the generator of the current thread, seeded by
/// the system. Nothing is claimed of it.
pub assume_specification[ rand::thread_rng ]() -> (generator: rand::rngs::ThreadRng);

/// One byte drawn with `Rng::gen`. Nothing is claimed of the byte.
#[verifier::external_body]
pub(crate) fn random_byte(generator: &mut rand::rngs::ThreadRng) -> (byte: u8) {
    rand::Rng::gen::<u8>(generator)
}

/// `count` bytes drawn one after another from the generator of this thread.
pub fn random_bytes(count: usize) -> (bytes: Vec<u8>)
    ensures
        bytes@.len() == count,
{
    let mut generator = rand::thread_rng();
    let mut bytes: Vec<u8> = Vec::new();
    while bytes.len() < count
        invariant
            bytes@.len() <= count,
        decreases count - bytes@.len(),
    {
        let byte: u8 = random_byte(&mut generator);
        bytes.push(byte);
    }
    bytes
}

} // verus!
