//! Fresh Ed25519 secret keys from the operating system's random source.

use vstd::prelude::*;

verus! {

/// Relies on `ed25519_dalek::SigningKey::generate`, fed by rand's `OsRng`, and
/// on `SigningKey::to_bytes`: the 32 bytes of a freshly drawn secret key.
#[verifier::external_body]
fn fresh_secret_key() -> (r: [u8; 32]) {
    ed25519_dalek::SigningKey::generate(&mut rand::rngs::OsRng).to_bytes()
}

/// A fresh random Ed25519 secret key, as its 32 bytes.
pub fn genkey() -> (r: Vec<u8>)
    ensures
        r@.len() == 32,
{
    let key = fresh_secret_key();
    let mut r: Vec<u8> = Vec::new();
    let mut i: usize = 0;
    while i < 32
        invariant
            i <= 32,
            r@ == key@.subrange(0, i as int),
        decreases 32 - i,
    {
        r.push(key[i]);
        i += 1;
        assert(r@ =~= key@.subrange(0, i as int));
    }
    r
}

} // verus!
