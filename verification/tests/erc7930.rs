use alloy_primitives::Address;
use ensip25::erc7930::{minimal_be_bytes, InteropAddress};
use ensip25::error::{Error, HexError};

fn registry() -> [u8; 20] {
    let addr: Address = "0x8004A169FB4a3325136EB29fA0ceB6D2e539a432"
        .parse()
        .expect("valid address");
    addr.into_array()
}

/// ERC-7930 Example 1: Ethereum mainnet address (chain ID 1).
#[test]
fn encode_evm_mainnet() {
    let addr: Address = "0x8004A169FB4a3325136EB29fA0ceB6D2e539a432"
        .parse()
        .expect("valid address");
    let ia = InteropAddress::evm(1, addr.into_array());
    assert_eq!(
        ia.to_hex(),
        "0x000100000101148004a169fb4a3325136eb29fa0ceb6d2e539a432"
    );
}

/// ERC-7930 Example 3: EVM address without chain reference.
#[test]
fn encode_evm_no_chain() {
    let addr: Address = "0xd8dA6BF26964aF9D7eEd9e03E53415D37aA96045"
        .parse()
        .expect("valid address");
    let ia = InteropAddress::evm_no_chain(addr.into_array());
    assert_eq!(
        ia.to_hex(),
        "0x000100000014d8da6bf26964af9d7eed9e03e53415d37aa96045"
    );
}

/// Roundtrip: encode, decode, encode produces identical output.
#[test]
fn roundtrip() {
    let addr: Address = "0x8004A169FB4a3325136EB29fA0ceB6D2e539a432"
        .parse()
        .expect("valid address");
    let original = InteropAddress::evm(1, addr.into_array());
    let bytes = original.encode();
    let decoded = InteropAddress::decode(&bytes).expect("decode ok");
    assert_eq!(original, decoded);
    assert_eq!(original.to_hex(), decoded.to_hex());
}

/// Decode from hex text with a 0x prefix.
#[test]
fn from_hex_with_prefix() {
    let ia = InteropAddress::from_hex("0x000100000101148004a169fb4a3325136eb29fa0ceb6d2e539a432")
        .expect("decode ok");
    assert_eq!(ia.version, 0x0001);
    assert_eq!(ia.chain_type, 0x0000);
    assert_eq!(ia.evm_chain_id(), Some(1));
    let expected: Address = "0x8004A169FB4a3325136EB29fA0ceB6D2e539a432"
        .parse()
        .expect("valid");
    assert_eq!(ia.evm_address(), Some(expected.into_array()));
}

/// `FromStr` works.
#[test]
fn from_str() {
    let ia: InteropAddress = "0x000100000101148004a169fb4a3325136eb29fa0ceb6d2e539a432"
        .parse()
        .expect("parse ok");
    assert!(ia.is_evm());
}

/// The display form is the same hex as `to_hex`.
#[test]
fn display() {
    let addr: Address = "0x8004A169FB4a3325136EB29fA0ceB6D2e539a432"
        .parse()
        .expect("valid address");
    let ia = InteropAddress::evm(1, addr.into_array());
    assert_eq!(ia.to_string(), ia.to_hex());
}

/// A too-short buffer is rejected.
#[test]
fn decode_too_short() {
    assert!(InteropAddress::decode(&[0, 1, 0]).is_err());
}

/// An unsupported version is rejected.
#[test]
fn decode_unsupported_version() {
    let err = InteropAddress::decode(&[0, 2, 0, 0, 0, 1, 0xFF]).unwrap_err();
    assert!(err.to_string().contains("unsupported version"));
}

/// Both lengths zero is rejected.
#[test]
fn decode_empty_address() {
    let err = InteropAddress::decode(&[0, 1, 0, 0, 0, 0]).unwrap_err();
    assert!(err.to_string().contains("empty"));
}

/// ENSIP-25 example: ERC-8004 `IdentityRegistry` on Ethereum mainnet.
#[test]
fn ensip25_example_registry() {
    let registry: Address = "0x8004A169FB4a3325136EB29fA0ceB6D2e539a432"
        .parse()
        .expect("valid");
    let ia = InteropAddress::evm(1, registry.into_array());
    assert_eq!(
        ia.to_hex(),
        "0x000100000101148004a169fb4a3325136eb29fa0ceb6d2e539a432"
    );
}

/// Minimal big-endian encoding for various chain ids.
#[test]
fn minimal_be_encoding() {
    assert_eq!(minimal_be_bytes(0), vec![0]);
    assert_eq!(minimal_be_bytes(1), vec![1]);
    assert_eq!(minimal_be_bytes(255), vec![255]);
    assert_eq!(minimal_be_bytes(256), vec![1, 0]);
    assert_eq!(minimal_be_bytes(11_155_111), vec![0xAA, 0x36, 0xA7]);
}

#[test]
fn minimal_be_encoding_extremes() {
    assert_eq!(minimal_be_bytes(u64::MAX), vec![0xff; 8]);
    assert_eq!(minimal_be_bytes(1 << 56), vec![1, 0, 0, 0, 0, 0, 0, 0]);
    assert_eq!(minimal_be_bytes(65_535), vec![0xff, 0xff]);
}

#[test]
fn encode_exact_bytes() {
    let ia = InteropAddress {
        version: 0x0102,
        chain_type: 0xabcd,
        chain_ref: vec![7, 8],
        address: vec![9],
    };
    assert_eq!(ia.encode(), vec![0x01, 0x02, 0xab, 0xcd, 2, 7, 8, 1, 9]);
    assert_eq!(ia.to_hex(), "0x0102abcd0207080109");
}

#[test]
fn decode_exact_fields_and_ignores_trailing_bytes() {
    let ia = InteropAddress::decode(&[0, 1, 0x12, 0x34, 2, 0xaa, 0xbb, 1, 0xcc, 0xdd, 0xee]).unwrap();
    assert_eq!(ia.version, 1);
    assert_eq!(ia.chain_type, 0x1234);
    assert_eq!(ia.chain_ref, vec![0xaa, 0xbb]);
    assert_eq!(ia.address, vec![0xcc]);
    assert_eq!(ia.encode(), vec![0, 1, 0x12, 0x34, 2, 0xaa, 0xbb, 1, 0xcc]);
}

#[test]
fn decode_error_variants() {
    assert_eq!(InteropAddress::decode(&[0, 1, 0]), Err(Error::BufferTooShort { len: 3 }));
    assert_eq!(
        InteropAddress::decode(&[0, 2, 0, 0, 0, 1, 0xFF]),
        Err(Error::UnsupportedVersion { version: 2 })
    );
    // chain reference length runs past the buffer
    assert_eq!(
        InteropAddress::decode(&[0, 1, 0, 0, 5, 1]),
        Err(Error::TruncatedPayload { expected: 11, available: 6 })
    );
    // address length runs past the buffer
    assert_eq!(
        InteropAddress::decode(&[0, 1, 0, 0, 0, 3, 1]),
        Err(Error::TruncatedPayload { expected: 9, available: 7 })
    );
    assert_eq!(InteropAddress::decode(&[0, 1, 0, 0, 0, 0]), Err(Error::EmptyAddress));
}

#[test]
fn error_messages() {
    assert_eq!(
        Error::BufferTooShort { len: 3 }.to_string(),
        "erc7930: buffer too short (need at least 6 bytes, got 3)"
    );
    assert_eq!(
        Error::UnsupportedVersion { version: 2 }.to_string(),
        "erc7930: unsupported version 0x0002"
    );
    assert_eq!(
        Error::UnsupportedVersion { version: 0xbeef }.to_string(),
        "erc7930: unsupported version 0xbeef"
    );
    assert_eq!(
        Error::TruncatedPayload { expected: 11, available: 6 }.to_string(),
        "erc7930: truncated payload (expected 11 bytes, have 6)"
    );
    assert_eq!(
        Error::EmptyAddress.to_string(),
        "erc7930: both chain reference and address are empty"
    );
    assert_eq!(
        Error::Hex(HexError::OddLength).to_string(),
        "hex decode error: odd number of digits"
    );
    assert_eq!(
        Error::Hex(HexError::InvalidHexCharacter { c: 'g', index: 4 }).to_string(),
        "hex decode error: invalid character 'g' at position 4"
    );
    assert_eq!(
        Error::Hex(HexError::InvalidStringLength).to_string(),
        "hex decode error: invalid string length"
    );
    assert_eq!(
        Error::InvalidAgentId { agent_id: "a[b".to_string() }.to_string(),
        "agent id must not contain '[' or ']': \"a[b\""
    );
    assert_eq!(Error::Ens("boom".to_string()).to_string(), "ens error: boom");
    assert_eq!(Error::Erc8004("bad".to_string()).to_string(), "erc8004 error: bad");
}

#[test]
fn from_hex_errors() {
    assert_eq!(InteropAddress::from_hex("0x123"), Err(Error::Hex(HexError::OddLength)));
    assert_eq!(
        InteropAddress::from_hex("0x0001zz"),
        Err(Error::Hex(HexError::InvalidHexCharacter { c: 'z', index: 4 }))
    );
    // valid hex, malformed payload
    assert_eq!(InteropAddress::from_hex("000100"), Err(Error::BufferTooShort { len: 3 }));
}

#[test]
fn from_hex_accepts_upper_case_and_no_prefix() {
    let a = InteropAddress::from_hex("000100000101148004A169FB4A3325136EB29FA0CEB6D2E539A432").unwrap();
    let b = InteropAddress::from_hex("0X000100000101148004a169fb4a3325136eb29fa0ceb6d2e539a432").unwrap();
    assert_eq!(a, b);
    assert_eq!(a, InteropAddress::evm(1, registry()));
}

#[test]
fn evm_chain_id_and_address_edges() {
    let mut ia = InteropAddress::evm(11_155_111, registry());
    assert_eq!(ia.chain_ref, vec![0xAA, 0x36, 0xA7]);
    assert_eq!(ia.evm_chain_id(), Some(11_155_111));
    assert_eq!(ia.evm_address(), Some(registry()));
    ia.chain_ref = vec![0; 9];
    assert_eq!(ia.evm_chain_id(), None);
    ia.chain_ref = vec![];
    assert_eq!(ia.evm_chain_id(), None);
    ia.chain_ref = vec![0xff; 8];
    assert_eq!(ia.evm_chain_id(), Some(u64::MAX));
    ia.address = vec![1, 2, 3];
    assert_eq!(ia.evm_address(), None);
    ia.chain_type = 2;
    assert!(!ia.is_evm());
}

#[test]
fn evm_round_trips_every_chain_id_shape() {
    for id in [0u64, 1, 255, 256, 65_536, 11_155_111, u64::MAX] {
        let ia = InteropAddress::evm(id, registry());
        let back = InteropAddress::from_hex(&ia.to_hex()).unwrap();
        assert_eq!(back, ia);
        assert_eq!(back.evm_chain_id(), Some(id));
        assert_eq!(back.evm_address(), Some(registry()));
    }
}

#[test]
fn debug_text_shows_hex_fields() {
    let ia = InteropAddress::evm(1, registry());
    assert_eq!(
        ia.debug_text(),
        "InteropAddress { version: 0x0001, chain_type: 0x0000, chain_ref: \"01\", address: \"8004a169fb4a3325136eb29fa0ceb6d2e539a432\" }"
    );
    let other = InteropAddress { version: 0xbeef, chain_type: 2, chain_ref: vec![], address: vec![0x0a] };
    assert_eq!(
        other.debug_text(),
        "InteropAddress { version: 0xbeef, chain_type: 0x0002, chain_ref: \"\", address: \"0a\" }"
    );
}
