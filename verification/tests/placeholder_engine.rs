use contract_offsets::config::PlaceholderConfig;
use contract_offsets::contract::EthereumContract;
use contract_offsets::error::Error;
use contract_offsets::fit::Address;
use contract_offsets::fit::BitcoinTimestamp;
use contract_offsets::fit::EthereumTimestamp;
use contract_offsets::fit::FitIntoPlaceholderSlice;
use contract_offsets::fit::PublicKeyHash;
use contract_offsets::fit::SecretHash;
use contract_offsets::fit::TokenQuantity;
use contract_offsets::hex::decode_hex;
use contract_offsets::locator::locate;
use contract_offsets::locator::Placeholder;
use contract_offsets::report::placeholder_offsets;

fn placeholder(name: &str, pattern: Vec<u8>) -> Placeholder {
    Placeholder { name: String::from(name), pattern }
}

#[test]
fn locate_missing_pattern_fails_not_found() {
    let buffer = vec![1u8, 2, 3, 4, 5];
    let result = locate(&placeholder("redeem_address", vec![9u8, 9]), &buffer);
    match result {
        Err(Error::PlaceholderNotFound { name }) => assert_eq!(name, "redeem_address"),
        _ => panic!("expected a not-found error"),
    }
}

#[test]
fn locate_unique_pattern_returns_its_range_and_is_idempotent() {
    let buffer = vec![0xAAu8, 0x10, 0x01, 0xBB];
    let ph = placeholder("marker", vec![0x10u8, 0x01]);
    let range = locate(&ph, &buffer).unwrap();
    assert_eq!(range.start, 1);
    assert_eq!(range.excluded_end, 3);
    assert_eq!(&buffer[range.start..range.excluded_end], &[0x10u8, 0x01][..]);
    let again = locate(&ph, &buffer).unwrap();
    assert_eq!(again, range);
}

#[test]
fn locate_repeated_pattern_fails_ambiguous() {
    let buffer = vec![7u8, 7, 0, 7, 7];
    let result = locate(&placeholder("timeout", vec![7u8, 7]), &buffer);
    match result {
        Err(Error::AmbiguousPlaceholder { name, occurrences }) => {
            assert_eq!(name, "timeout");
            assert_eq!(occurrences, 2);
        },
        _ => panic!("expected an ambiguity error"),
    }
}

#[test]
fn locate_counts_overlapping_occurrences() {
    let buffer = vec![7u8, 7, 7];
    let result = locate(&placeholder("timeout", vec![7u8, 7]), &buffer);
    match result {
        Err(Error::AmbiguousPlaceholder { occurrences, .. }) => assert_eq!(occurrences, 2),
        _ => panic!("expected an ambiguity error"),
    }
}

#[test]
fn header_marker_patched_with_header_length() {
    // Header [0xAA, 0xAA, <"1001" marker>, 0xBB] is 5 bytes long, so the
    // marker's two bytes must decode big-endian as 0x0005 after patching.
    let mut header = vec![0xAAu8, 0xAA, 0x10, 0x01, 0xBB];
    let header_len = header.len();
    EthereumContract::replace_offset_parameter_in_header(
        "1001",
        "start of contract when loading into memory",
        header_len,
        &mut header,
    )
    .unwrap();
    assert_eq!(header, vec![0xAAu8, 0xAA, 0x00, 0x05, 0xBB]);
}

#[test]
fn all_three_header_fields_decode_to_their_lengths() {
    let mut header = vec![0x10u8, 0x01, 0x20, 0x02, 0x30, 0x03];
    let body = vec![1u8, 2, 3];
    EthereumContract::replace_contract_offset_parameters_in_header(&mut header, &body).unwrap();
    assert_eq!(header.len(), 6);
    assert_eq!(header, vec![0x00u8, 0x06, 0x00, 0x03, 0x00, 0x03]);
}

#[test]
fn oversized_body_fails_with_overflow_not_truncation() {
    let mut header = vec![0x10u8, 0x01, 0x20, 0x02, 0x30, 0x03];
    let body = vec![0xCCu8; 65536];
    let result = EthereumContract::replace_contract_offset_parameters_in_header(&mut header, &body);
    match result {
        Err(Error::IntegerOverflow { field, value }) => {
            assert_eq!(field, "end of contract when loading into memory");
            assert_eq!(value, 65536);
        },
        _ => panic!("expected an overflow error"),
    }
    // The start field was patched before the failure; no truncated body
    // length was ever written over the other two markers.
    assert_eq!(header, vec![0x00u8, 0x06, 0x20, 0x02, 0x30, 0x03]);
}

#[test]
fn missing_header_marker_aborts_the_patch() {
    let mut header = vec![0x10u8, 0x01, 0xFF, 0xFF, 0x30, 0x03];
    let body = vec![1u8];
    let result = EthereumContract::replace_contract_offset_parameters_in_header(&mut header, &body);
    match result {
        Err(Error::PlaceholderNotFound { name }) => {
            assert_eq!(name, "end of contract when loading into memory");
        },
        _ => panic!("expected a not-found error"),
    }
}

fn secret_hash_config() -> PlaceholderConfig {
    PlaceholderConfig {
        protocol_name: String::from("swap"),
        placeholders: vec![placeholder("secret_hash", vec![0u8; 32])],
    }
}

#[test]
fn report_finds_secret_hash_run_at_forty() {
    // Patched header (6 bytes) + 34 filler bytes put the 32-zero run at
    // byte 40 of the final contract, ending (exclusive) at 72.
    let header = vec![0x10u8, 0x01, 0x20, 0x02, 0x30, 0x03];
    let mut body = vec![0x01u8; 34];
    body.extend_from_slice(&[0u8; 32]);
    body.extend_from_slice(&[0x01u8; 4]);
    let contract = EthereumContract::new(header, body, secret_hash_config()).unwrap();
    let report = placeholder_offsets(&contract).unwrap();
    assert_eq!(report.len(), 1);
    assert_eq!(report[0].name, "secret_hash");
    assert_eq!(report[0].range.start, 40);
    assert_eq!(report[0].range.excluded_end, 72);
}

#[test]
fn reported_ranges_slice_back_to_their_patterns() {
    let header = vec![0x10u8, 0x01, 0x20, 0x02, 0x30, 0x03];
    let mut body = vec![0x01u8; 10];
    body.extend_from_slice(&[0xEEu8, 0xDD]);
    body.extend_from_slice(&[0x02u8; 5]);
    body.extend_from_slice(&[0xBBu8, 0xBB, 0xBB]);
    let config = PlaceholderConfig {
        protocol_name: String::from("swap"),
        placeholders: vec![
            placeholder("redeem", vec![0xEEu8, 0xDD]),
            placeholder("refund", vec![0xBBu8, 0xBB, 0xBB]),
        ],
    };
    let contract = EthereumContract::new(header, body, config).unwrap();
    let report = placeholder_offsets(&contract).unwrap();
    assert_eq!(report.len(), 2);
    let bytes = contract.bytes();
    for (row, expected) in report.iter().zip([&[0xEEu8, 0xDD][..], &[0xBBu8, 0xBB, 0xBB][..]]) {
        assert_eq!(&bytes[row.range.start..row.range.excluded_end], expected);
    }
}

#[test]
fn identical_patterns_under_two_names_each_locate_independently() {
    let buffer = vec![0x01u8, 0x02, 0xEE, 0xDD, 0x03];
    let first = placeholder("redeem_address", vec![0xEEu8, 0xDD]);
    let second = placeholder("refund_address", vec![0xEEu8, 0xDD]);
    let a = locate(&first, &buffer).unwrap();
    let b = locate(&second, &buffer).unwrap();
    assert_eq!(a, b);
    assert_eq!(a.start, 2);
    // But the same pattern occurring twice for one placeholder is
    // ambiguous, never resolved to its first occurrence.
    let doubled = vec![0xEEu8, 0xDD, 0x00, 0xEE, 0xDD];
    assert!(matches!(
        locate(&first, &doubled),
        Err(Error::AmbiguousPlaceholder { .. })
    ));
}

#[test]
fn metadata_snapshots_protocol_name_and_final_bytes() {
    let header = vec![0x10u8, 0x01, 0x20, 0x02, 0x30, 0x03];
    let body = vec![9u8, 8, 7];
    let contract = EthereumContract::new(header, body, secret_hash_config()).unwrap();
    let metadata = contract.metadata();
    assert_eq!(metadata.protocol_name, "swap");
    assert_eq!(metadata.contract, contract.bytes().to_vec());
    assert_eq!(
        contract.bytes(),
        &[0x00u8, 0x06, 0x00, 0x03, 0x00, 0x03, 9, 8, 7][..]
    );
    assert_eq!(contract.placeholder_config().protocol_name, "swap");
    assert_eq!(contract.placeholder_config().placeholders.len(), 1);
}

#[test]
fn decode_hex_round_trips_sentinel_text() {
    assert_eq!(decode_hex("1001").unwrap(), vec![0x10u8, 0x01]);
    assert_eq!(decode_hex("deadBEEF").unwrap(), vec![0xDEu8, 0xAD, 0xBE, 0xEF]);
    assert_eq!(decode_hex("").unwrap(), Vec::<u8>::new());
    assert!(matches!(decode_hex("abc"), Err(Error::ConfigurationError)));
    assert!(matches!(decode_hex("zz"), Err(Error::ConfigurationError)));
}

#[test]
fn raw_values_fit_only_their_exact_width() {
    let address = Address([0x11u8; 20]);
    let mut buf = vec![0u8; 20];
    address.fit_into_placeholder_slice(&mut buf).unwrap();
    assert_eq!(buf, vec![0x11u8; 20]);

    let mut wrong = vec![0u8; 19];
    match Address([0x11u8; 20]).fit_into_placeholder_slice(&mut wrong) {
        Err(Error::ValueWidthMismatch { expected, actual }) => {
            assert_eq!(expected, 20);
            assert_eq!(actual, 19);
        },
        _ => panic!("expected a width mismatch"),
    }
    assert_eq!(wrong, vec![0u8; 19]);

    let mut quantity_buf = vec![0u8; 32];
    TokenQuantity([0x22u8; 32]).fit_into_placeholder_slice(&mut quantity_buf).unwrap();
    assert_eq!(quantity_buf, vec![0x22u8; 32]);

    let mut secret_buf = vec![0u8; 32];
    SecretHash([0x33u8; 32]).fit_into_placeholder_slice(&mut secret_buf).unwrap();
    assert_eq!(secret_buf, vec![0x33u8; 32]);

    let mut pubkey_buf = vec![0u8; 20];
    PublicKeyHash([0x44u8; 20]).fit_into_placeholder_slice(&mut pubkey_buf).unwrap();
    assert_eq!(pubkey_buf, vec![0x44u8; 20]);
}

#[test]
fn timestamp_endianness_is_a_per_chain_policy() {
    let mut ethereum_buf = vec![0u8; 4];
    EthereumTimestamp(0x0102_0304).fit_into_placeholder_slice(&mut ethereum_buf).unwrap();
    assert_eq!(ethereum_buf, vec![1u8, 2, 3, 4]);

    let mut bitcoin_buf = vec![0u8; 4];
    BitcoinTimestamp(0x0102_0304).fit_into_placeholder_slice(&mut bitcoin_buf).unwrap();
    assert_eq!(bitcoin_buf, vec![4u8, 3, 2, 1]);

    let mut wrong = vec![0u8; 2];
    assert!(matches!(
        EthereumTimestamp(5).fit_into_placeholder_slice(&mut wrong),
        Err(Error::ValueWidthMismatch { expected: 4, actual: 2 })
    ));
}
