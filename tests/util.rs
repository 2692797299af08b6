use aether_lib::util::{compile_u16, compile_u32, gen_nonce, jitter, xor};

#[test]
fn compile_integers_big_endian() {
    assert_eq!(compile_u32(32), vec![0, 0, 0, 32]);
    assert_eq!(compile_u32(0x0102_0304), vec![1, 2, 3, 4]);
    assert_eq!(compile_u16(3242), vec![0x0C, 0xAA]);
}

#[test]
fn xor_is_bytewise_and_as_long_as_the_shorter() {
    assert_eq!(xor(vec![0xFF, 0x0F, 0xAA], vec![0x0F, 0x0F]), vec![0xF0, 0x00]);
    let a = vec![1, 2, 3];
    let b = vec![7, 7, 7];
    assert_eq!(xor(a.clone(), b.clone()), xor(b, a));
}

#[test]
fn nonce_has_requested_size() {
    assert_eq!(gen_nonce(32).len(), 32);
    assert!(gen_nonce(0).is_empty());
    let a = gen_nonce(32);
    let b = gen_nonce(32);
    assert_ne!(a, b);
}

#[test]
fn jitter_stays_below_bound() {
    assert_eq!(jitter(0), 0);
    for _ in 0..100 {
        assert!(jitter(5) < 5);
    }
}
