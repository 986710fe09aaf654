use zero_bin::words::{BlockHash, Word};

#[test]
fn small_words_fit() {
    assert_eq!(Word { limbs: [7, 0, 0, 0] }.to_u64(), Some(7));
    assert_eq!(Word { limbs: [u64::MAX, 0, 0, 0] }.to_u64(), Some(u64::MAX));
    assert_eq!(Word { limbs: [7, 0, 0, 0] }.as_u64(), 7);
    assert_eq!(Word { limbs: [9, 0, 0, 0] }.as_usize(), 9);
}

#[test]
fn large_words_do_not_fit() {
    assert_eq!(Word { limbs: [0, 1, 0, 0] }.to_u64(), None);
    assert_eq!(Word { limbs: [5, 0, 1, 0] }.to_u64(), None);
    assert_eq!(Word { limbs: [5, 0, 0, 1] }.to_u64(), None);
}

#[test]
fn bytes_are_read_most_significant_first() {
    assert_eq!(Word::from_big_endian(&[]), Word::zero());
    assert_eq!(Word::from_big_endian(&[1, 2]), Word { limbs: [258, 0, 0, 0] });
    let mut bytes = [0u8; 32];
    bytes[0] = 0x80;
    bytes[31] = 1;
    bytes[23] = 2;
    bytes[15] = 3;
    assert_eq!(Word::from_big_endian(&bytes), Word { limbs: [1, 2, 3, 0x8000_0000_0000_0000] });
}

#[test]
fn zeros_are_zero() {
    assert_eq!(Word::zero().limbs, [0, 0, 0, 0]);
    assert_eq!(BlockHash::zero().bytes, [0u8; 32]);
}
