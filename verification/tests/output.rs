use gas_miner::{gas_price, MiningOutput, Uint256};
use std::time::Duration;

#[test]
fn gas_price_is_prefixed_lower_case_hex() {
    let mut bytes = [0u8; 32];
    for (i, b) in bytes.iter_mut().enumerate() {
        *b = (i as u8) * 8 + 7;
    }
    assert_eq!(
        gas_price(&Uint256::from_be_bytes(bytes)),
        "0x070f171f272f373f474f575f676f777f878f979fa7afb7bfc7cfd7dfe7eff7ff"
    );
}

#[test]
fn gas_price_keeps_leading_zeros() {
    assert_eq!(
        gas_price(&Uint256::from_u32(0x7018)),
        "0x0000000000000000000000000000000000000000000000000000000000007018"
    );
    assert_eq!(
        gas_price(&Uint256::from_u32(0)),
        "0x0000000000000000000000000000000000000000000000000000000000000000"
    );
    assert_eq!(
        gas_price(&Uint256::max_value()),
        "0xffffffffffffffffffffffffffffffffffffffffffffffffffffffffffffffff"
    );
}

#[test]
fn gas_price_has_sixty_six_characters() {
    for n in [0u32, 1, 0xabcd_ef01, u32::MAX] {
        let text = gas_price(&Uint256::from_u32(n));
        assert_eq!(text.len(), 66);
        assert!(text.starts_with("0x"));
        assert!(text[2..].chars().all(|c| c.is_ascii_hexdigit() && !c.is_ascii_uppercase()));
    }
}

#[test]
fn output_holds_duration_and_gas_price() {
    let duration = Duration::new(3, 250_000_000);
    let output = MiningOutput::new(duration, &Uint256::from_u32(0xdead_beef));
    assert_eq!(output.duration, duration);
    assert_eq!(
        output.gas_price,
        "0x00000000000000000000000000000000000000000000000000000000deadbeef"
    );
    assert_eq!(output.duration.as_secs_f64() * 1000.0, 3250.0);
}

#[test]
fn distinct_candidates_have_distinct_gas_prices() {
    let mut seen = Vec::new();
    for n in [0u32, 1, 15, 16, 255, 256, 0x7018, u32::MAX] {
        let text = gas_price(&Uint256::from_u32(n));
        assert!(!seen.contains(&text));
        seen.push(text);
    }
    let mut high = [0u8; 32];
    high[0] = 1;
    assert!(!seen.contains(&gas_price(&Uint256::from_be_bytes(high))));
}
