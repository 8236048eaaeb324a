use gas_miner::Uint256;

fn word(low: u128) -> Uint256 {
    let mut bytes = [0u8; 32];
    bytes[16..].copy_from_slice(&low.to_be_bytes());
    Uint256::from_be_bytes(bytes)
}

#[test]
fn bytes_round_trip() {
    let mut bytes = [0u8; 32];
    for (i, b) in bytes.iter_mut().enumerate() {
        *b = i as u8;
    }
    assert_eq!(Uint256::from_be_bytes(bytes).to_be_bytes(), bytes);
}

#[test]
fn from_u32_is_big_endian() {
    let mut expected = [0u8; 32];
    expected[28] = 0x12;
    expected[29] = 0x34;
    expected[30] = 0x56;
    expected[31] = 0x78;
    assert_eq!(Uint256::from_u32(0x1234_5678).to_be_bytes(), expected);
    assert_eq!(Uint256::from_u32(0).to_be_bytes(), [0u8; 32]);
    let mut top = [0u8; 32];
    top[28..].copy_from_slice(&[0xff; 4]);
    assert_eq!(Uint256::from_u32(u32::MAX).to_be_bytes(), top);
    assert_eq!(Uint256::from_u32(42), word(42));
}

#[test]
fn max_value_is_all_ones() {
    assert_eq!(Uint256::max_value().to_be_bytes(), [0xffu8; 32]);
}

#[test]
fn is_zero_reads_every_byte() {
    assert!(Uint256::from_be_bytes([0u8; 32]).is_zero());
    for i in 0..32 {
        let mut bytes = [0u8; 32];
        bytes[i] = 1;
        assert!(!Uint256::from_be_bytes(bytes).is_zero());
    }
}

#[test]
fn ge_orders_by_value() {
    assert!(word(5).ge(&word(5)));
    assert!(word(6).ge(&word(5)));
    assert!(!word(5).ge(&word(6)));
    // The most significant byte decides, whatever follows.
    let mut high = [0u8; 32];
    high[0] = 1;
    let high = Uint256::from_be_bytes(high);
    assert!(high.ge(&word(u128::MAX)));
    assert!(!word(u128::MAX).ge(&high));
    assert!(word(0x0100).ge(&word(0x00ff)));
    assert!(!word(0x00ff).ge(&word(0x0100)));
    assert!(Uint256::max_value().ge(&word(0)));
    assert!(word(0).ge(&word(0)));
}

#[test]
fn xor_is_bytewise() {
    let a = word(0xff00_f0f0);
    let b = word(0x0ff0_ffff);
    assert_eq!(a.xor(&b), word(0xf0f0_0f0f));
    assert_eq!(a.xor(&a), word(0));
    assert_eq!(a.xor(&word(0)), a);
    assert_eq!(Uint256::max_value().xor(&Uint256::max_value()), word(0));
}

#[test]
fn checked_div_rounds_down() {
    assert_eq!(word(100).checked_div(&word(7)), Some(word(14)));
    assert_eq!(word(7).checked_div(&word(100)), Some(word(0)));
    assert_eq!(word(100).checked_div(&word(100)), Some(word(1)));
    assert_eq!(word(100).checked_div(&word(1)), Some(word(100)));
    let half = Uint256::max_value().checked_div(&word(2)).unwrap();
    let mut expected = [0xffu8; 32];
    expected[0] = 0x7f;
    assert_eq!(half.to_be_bytes(), expected);
    assert_eq!(
        Uint256::max_value().checked_div(&Uint256::max_value()),
        Some(word(1))
    );
}

#[test]
fn checked_div_by_zero_is_none() {
    assert_eq!(word(100).checked_div(&word(0)), None);
    assert_eq!(word(0).checked_div(&word(0)), None);
    assert_eq!(Uint256::max_value().checked_div(&word(0)), None);
}
