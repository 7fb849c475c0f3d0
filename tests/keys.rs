use playground::falcon::{PRIVATE_KEY_SIZE, PUBLIC_KEY_SIZE};
use playground::{genkey, greeting, keygen_result, FalconError, KeygenBuffers};

#[test]
fn buffers_have_key_sizes() {
    let b = KeygenBuffers::new();
    assert!(b.has_key_sizes());
    assert_eq!(b.public_key.len(), 1793);
    assert_eq!(b.private_key.len(), 2305);
    assert!(b.public_key.iter().all(|&x| x == 0));
}

#[test]
fn wrongly_sized_buffers_are_detected() {
    let mut b = KeygenBuffers::new();
    b.private_key.pop();
    assert!(!b.has_key_sizes());
}

#[test]
fn status_zero_gives_the_filled_buffers() {
    let mut b = KeygenBuffers::new();
    b.public_key[0] = 0x0a;
    b.private_key[PRIVATE_KEY_SIZE - 1] = 0x5f;
    let pair = keygen_result(0, b).unwrap();
    assert_eq!(pair.public_key.len(), PUBLIC_KEY_SIZE);
    assert_eq!(pair.private_key.len(), PRIVATE_KEY_SIZE);
    assert_eq!(pair.public_key[0], 0x0a);
    assert_eq!(pair.private_key[PRIVATE_KEY_SIZE - 1], 0x5f);
}

#[test]
fn nonzero_status_is_kept_in_the_error() {
    assert_eq!(keygen_result(-4, KeygenBuffers::new()), Err(FalconError::FalconKeygenFailed(-4)));
    assert_eq!(keygen_result(1, KeygenBuffers::new()), Err(FalconError::FalconKeygenFailed(1)));
}

#[test]
fn ed25519_keys_are_fresh() {
    let a = genkey();
    let b = genkey();
    assert_eq!(a.len(), 32);
    assert_eq!(b.len(), 32);
    assert_ne!(a, b);
}

#[test]
fn greeting_names_the_caller() {
    assert_eq!(greeting("World"), "Hello, World!");
    assert_eq!(greeting(""), "Hello, !");
}
