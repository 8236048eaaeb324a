use alloy_primitives::AddressError;
use gas_miner::{address_from_parse, parse_address, Address, MiningError};

const SAMPLE: [u8; 20] = [
    0x74, 0x2d, 0x35, 0xcc, 0x66, 0x34, 0xc0, 0x53, 0x29, 0x25, 0xa3, 0xb8, 0x44, 0xbc, 0x45, 0x4e,
    0x44, 0x38, 0xf4, 0x4e,
];

#[test]
fn parses_a_checksummed_address() {
    let parsed = parse_address("0x742d35Cc6634C0532925a3b844Bc454e4438f44e");
    assert_eq!(parsed, Ok(Address { bytes: SAMPLE }));
}

#[test]
fn parses_an_address_of_digits_only() {
    let parsed = parse_address("0x1234567890123456789012345678901234567890");
    let expected = [
        0x12, 0x34, 0x56, 0x78, 0x90, 0x12, 0x34, 0x56, 0x78, 0x90, 0x12, 0x34, 0x56, 0x78, 0x90,
        0x12, 0x34, 0x56, 0x78, 0x90,
    ];
    assert_eq!(parsed, Ok(Address { bytes: expected }));
}

#[test]
fn rejects_a_wrong_shape_as_invalid_address() {
    assert_eq!(parse_address("0x12345"), Err(MiningError::InvalidAddress));
    assert_eq!(parse_address("not_an_address"), Err(MiningError::InvalidAddress));
    assert_eq!(parse_address(""), Err(MiningError::InvalidAddress));
    assert_eq!(
        parse_address("742d35Cc6634C0532925a3b844Bc454e4438f44e"),
        Err(MiningError::InvalidAddress)
    );
}

#[test]
fn rejects_a_wrong_checksum_as_invalid_format() {
    assert_eq!(
        parse_address("0x742d35cc6634c0532925a3b844bc454e4438f44e"),
        Err(MiningError::InvalidAddressFormat)
    );
    assert_eq!(
        parse_address("0x742D35CC6634C0532925A3B844BC454E4438F44E"),
        Err(MiningError::InvalidAddressFormat)
    );
    // One letter of the checksummed form flipped.
    assert_eq!(
        parse_address("0x742d35cc6634C0532925a3b844Bc454e4438f44e"),
        Err(MiningError::InvalidAddressFormat)
    );
}

#[test]
fn maps_the_parse_outcome() {
    assert_eq!(address_from_parse(Ok(SAMPLE)), Ok(Address { bytes: SAMPLE }));
    assert_eq!(
        address_from_parse(Err(AddressError::InvalidChecksum)),
        Err(MiningError::InvalidAddressFormat)
    );
}

#[test]
fn error_messages() {
    assert_eq!(MiningError::InvalidAddress.message(), "Invalid Address");
    assert_eq!(MiningError::InvalidAddressFormat.message(), "Invalid address format");
    assert_eq!(MiningError::NoSolutionFound.message(), "No solution found");
}
