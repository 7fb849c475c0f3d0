//! The checked part of deterministic Falcon-1024 key generation: output
//! buffers of the exact key sizes, and the reading of the native generator's
//! status code. The generator itself is native code outside this crate; it
//! fills the buffers in place from a context derived from the seed.

use vstd::prelude::*;

verus! {

/// Length in bytes of a deterministic Falcon-1024 public key.
pub const PUBLIC_KEY_SIZE: usize = 1793;

/// Length in bytes of a deterministic Falcon-1024 private key.
pub const PRIVATE_KEY_SIZE: usize = 2305;

/// A deterministic Falcon-1024 key pair.
#[derive(Debug, PartialEq, Eq)]
pub struct FalconKeyPair {
    /// The public key
    pub public_key: Vec<u8>,
    /// The private key
    pub private_key: Vec<u8>,
}

/// The failure of a key generation.
#[derive(Debug, Clone, Copy, PartialEq, Eq)]
pub enum FalconError {
    /// The native generator returned this nonzero status code.
    FalconKeygenFailed(i32),
}

/// The two output buffers of one key generation, which the native generator
/// fills in place.
pub struct KeygenBuffers {
    pub public_key: Vec<u8>,
    pub private_key: Vec<u8>,
}

impl KeygenBuffers {
    /// Both buffers have exactly the key sizes.
    pub open spec fn sized(&self) -> bool {
        &&& self.public_key@.len() == PUBLIC_KEY_SIZE
        &&& self.private_key@.len() == PRIVATE_KEY_SIZE
    }

    /// Zero-filled buffers of exactly the key sizes.
    pub fn new() -> (r: Self)
        ensures
            r.sized(),
            forall|i: int| 0 <= i < PUBLIC_KEY_SIZE ==> r.public_key@[i] == 0,
            forall|i: int| 0 <= i < PRIVATE_KEY_SIZE ==> r.private_key@[i] == 0,
    {
        KeygenBuffers { public_key: zeroed(PUBLIC_KEY_SIZE), private_key: zeroed(PRIVATE_KEY_SIZE) }
    }

    /// Whether both buffers have exactly the key sizes; the native generator
    /// writes that many bytes into each, so this must hold before it runs.
    pub fn has_key_sizes(&self) -> (r: bool)
        ensures
            r == self.sized(),
    {
        self.public_key.len() == PUBLIC_KEY_SIZE && self.private_key.len() == PRIVATE_KEY_SIZE
    }
}

/// `len` zero bytes.
fn zeroed(len: usize) -> (r: Vec<u8>)
    ensures
        r@.len() == len,
        forall|i: int| 0 <= i < len ==> r@[i] == 0,
{
    let mut r: Vec<u8> = Vec::new();
    let mut i: usize = 0;
    while i < len
        invariant
            i <= len,
            r@.len() == i,
            forall|k: int| 0 <= k < i ==> r@[k] == 0,
        decreases len - i,
    {
        r.push(0);
        i += 1;
    }
    r
}

/// The outcome of a key generation whose native call returned `status` after
/// filling `buffers`: the key pair they hold when `status` is `0`, else
/// `FalconKeygenFailed(status)`, the buffers being discarded.
pub fn keygen_result(status: i32, buffers: KeygenBuffers) -> (r: Result<FalconKeyPair, FalconError>)
    requires
        buffers.sized(),
    ensures
        status == 0 <==> r is Ok,
        r matches Ok(pair) ==> {
            &&& pair.public_key@ == buffers.public_key@
            &&& pair.private_key@ == buffers.private_key@
            &&& pair.public_key@.len() == PUBLIC_KEY_SIZE
            &&& pair.private_key@.len() == PRIVATE_KEY_SIZE
        },
        status != 0 ==> r == Err::<FalconKeyPair, FalconError>(FalconError::FalconKeygenFailed(status)),
{
    if status != 0 {
        return Err(FalconError::FalconKeygenFailed(status));
    }
    let KeygenBuffers { public_key, private_key } = buffers;
    Ok(FalconKeyPair { public_key, private_key })
}

} // verus!
