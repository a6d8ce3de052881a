use proofs::field::Fe;

fn fe(x: u64) -> Fe {
    Fe::from_u64(x)
}

// The group order, little-endian.
const ORDER: [u8; 32] = [
    0xed, 0xd3, 0xf5, 0x5c, 0x1a, 0x63, 0x12, 0x58, 0xd6, 0x9c, 0xf7, 0xa2, 0xde, 0xf9, 0xde, 0x14,
    0x00, 0x00, 0x00, 0x00, 0x00, 0x00, 0x00, 0x00, 0x00, 0x00, 0x00, 0x00, 0x00, 0x00, 0x00, 0x10,
];

#[test]
fn arithmetic_on_small_values() {
    assert_eq!(fe(3).add(&fe(4)), fe(7));
    assert_eq!(fe(3).mul(&fe(4)), fe(12));
    assert_eq!(fe(9).sub(&fe(4)), fe(5));
    assert!(fe(7).equals(&fe(7)));
    assert!(!fe(7).equals(&fe(8)));
}

#[test]
fn subtraction_wraps_around_the_group_order() {
    // 0 - 1 is the order minus one.
    let mut expected = ORDER;
    expected[0] -= 1;
    assert_eq!(fe(0).sub(&fe(1)).to_bytes(), expected);
    assert_eq!(fe(0).sub(&fe(1)).add(&fe(1)), Fe::zero());
}

#[test]
fn canonical_bytes_are_checked() {
    assert!(Fe::from_canonical_bytes(ORDER).is_none());
    let mut below = ORDER;
    below[0] -= 1;
    assert!(Fe::from_canonical_bytes(below).is_some());
    assert!(Fe::from_canonical_bytes([0xff; 32]).is_none());
    let mut five = [0u8; 32];
    five[0] = 5;
    assert_eq!(Fe::from_canonical_bytes(five), Some(fe(5)));
}

#[test]
fn wide_reduction() {
    let mut wide = [0u8; 64];
    wide[..32].copy_from_slice(&ORDER);
    assert_eq!(Fe::from_bytes_mod_order_wide(&wide), Fe::zero());
    wide[0] += 2;
    assert_eq!(Fe::from_bytes_mod_order_wide(&wide), fe(2));
    let mut high = [0u8; 64];
    high[8] = 1;
    assert_eq!(Fe::from_bytes_mod_order_wide(&high), fe(1 << 0).mul(&fe(1 << 32)).mul(&fe(1 << 32)));
}
