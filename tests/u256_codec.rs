use tfhe::u256::{
    u256_big_endian_bytes, u256_from_big_endian_bytes, u256_from_little_endian_bytes,
    u256_from_words, u256_little_endian_bytes, U256,
};

fn sample_bytes() -> [u8; 32] {
    let mut b = [0u8; 32];
    for (i, x) in b.iter_mut().enumerate() {
        *x = (i as u8).wrapping_mul(37).wrapping_add(11);
    }
    b
}

#[test]
fn from_words_places_each_word() {
    let v = u256_from_words(&[1, 2, 3, 4]);
    assert_eq!(v.low, 1u128 + (2u128 << 64));
    assert_eq!(v.high, 3u128 + (4u128 << 64));
}

#[test]
fn little_endian_round_trip() {
    let b = sample_bytes();
    let v = u256_from_little_endian_bytes(&b);
    let mut out = [0u8; 32];
    u256_little_endian_bytes(&v, &mut out);
    assert_eq!(out, b);
}

#[test]
fn big_endian_round_trip() {
    let b = sample_bytes();
    let v = u256_from_big_endian_bytes(&b);
    let mut out = [0u8; 32];
    u256_big_endian_bytes(&v, &mut out);
    assert_eq!(out, b);
}

#[test]
fn reversed_big_endian_equals_little_endian() {
    let b = sample_bytes();
    let mut r = b;
    r.reverse();
    assert_eq!(u256_from_little_endian_bytes(&b), u256_from_big_endian_bytes(&r));
}

#[test]
fn byte_images_of_a_known_value() {
    let v = U256 { low: 0x0102, high: 0xff << 120 };
    let mut le = [0u8; 32];
    u256_little_endian_bytes(&v, &mut le);
    assert_eq!(le[0], 0x02);
    assert_eq!(le[1], 0x01);
    assert_eq!(le[31], 0xff);
    assert!(le[2..31].iter().all(|&x| x == 0));
    let mut be = [0u8; 32];
    u256_big_endian_bytes(&v, &mut be);
    assert_eq!(be[31], 0x02);
    assert_eq!(be[30], 0x01);
    assert_eq!(be[0], 0xff);
    let mut le_bytes = [0u8; 32];
    le_bytes[16] = 1;
    assert_eq!(u256_from_little_endian_bytes(&le_bytes), U256 { low: 0, high: 1 });
}

#[test]
fn extreme_values() {
    let zero = u256_from_little_endian_bytes(&[0u8; 32]);
    assert_eq!(zero, U256 { low: 0, high: 0 });
    let max = u256_from_big_endian_bytes(&[0xffu8; 32]);
    assert_eq!(max, U256 { low: u128::MAX, high: u128::MAX });
    assert_eq!(u256_from_words(&[u64::MAX; 4]), max);
}
