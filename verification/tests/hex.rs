use xmss_batch::hashsig_export::{
    domains_to_bytes, export_public_key, export_signature, field_array_to_bytes,
    HashsigExportError, RawPublicKey, RawSignature, POSEIDON_FE_BYTES, POSEIDON_HASH_LEN_FE,
    POSEIDON_PARAMETER_LEN_FE, POSEIDON_RANDOMNESS_LEN_FE, WINTERNITZ_TREE_HEIGHT,
    WINTERNITZ_W1_NUM_CHAINS,
};
use xmss_batch::hex::{
    bytes_to_words, decode_hex, decode_input_words, input_json, strip_hex_prefix, to_hex,
    words_to_bytes, InputError,
};

#[test]
fn to_hex_writes_two_lower_case_digits_per_byte() {
    assert_eq!(to_hex(&[]), "");
    assert_eq!(to_hex(&[0x00, 0x0f, 0xa0, 0xff, 0x9c]), "000fa0ff9c");
}

#[test]
fn decode_hex_reads_pairs_in_either_case() {
    assert_eq!(decode_hex(b"000fA0Ff9c"), Some(vec![0x00, 0x0f, 0xa0, 0xff, 0x9c]));
    assert_eq!(decode_hex(b""), Some(vec![]));
    // A digit without a partner is left out, whatever it is.
    assert_eq!(decode_hex(b"abc"), Some(vec![0xab]));
    assert_eq!(decode_hex(b"abz"), Some(vec![0xab]));
    assert_eq!(decode_hex(b"z"), Some(vec![]));
    assert_eq!(decode_hex(b"ag"), None);
    assert_eq!(decode_hex(b"0x10"), None);
    assert_eq!(decode_hex(b"10 2"), None);
    let all: Vec<u8> = (0..=255).collect();
    assert_eq!(decode_hex(to_hex(&all).as_bytes()), Some(all));
}

#[test]
fn words_and_bytes_convert_little_endian() {
    assert_eq!(words_to_bytes(&[0x0403_0201, 0xffee_ddcc]), vec![1, 2, 3, 4, 0xcc, 0xdd, 0xee, 0xff]);
    assert_eq!(words_to_bytes(&[]), Vec::<u8>::new());
    assert_eq!(
        bytes_to_words(&[1, 2, 3, 4, 0xcc, 0xdd, 0xee, 0xff]),
        Some(vec![0x0403_0201, 0xffee_ddcc])
    );
    assert_eq!(bytes_to_words(&[]), Some(vec![]));
    assert_eq!(bytes_to_words(&[1, 2, 3]), None);
    assert_eq!(bytes_to_words(&[1, 2, 3, 4, 5]), None);
    let words = vec![0, 1, u32::MAX, 0x8000_0000, 0x1234_5678];
    assert_eq!(bytes_to_words(&words_to_bytes(&words)), Some(words));
}

#[test]
fn input_text_wraps_hex_in_json() {
    assert_eq!(input_json(&[0x0403_0201]), "{\n  \"input\": [\"0x0101020304\"]\n}\n");
    assert_eq!(input_json(&[]), "{\n  \"input\": [\"0x01\"]\n}\n");
}

#[test]
fn input_words_are_read_from_hex_text() {
    assert_eq!(strip_hex_prefix(b"0x1234"), b"1234");
    assert_eq!(strip_hex_prefix(b"1234"), b"1234");
    assert_eq!(strip_hex_prefix(b"0X1234"), b"0X1234");
    assert_eq!(strip_hex_prefix(b"0"), b"0");
    assert_eq!(strip_hex_prefix(b"0x"), b"");
    assert_eq!(decode_input_words(b"0x01020304ccddeeff"), Ok(vec![0x0403_0201, 0xffee_ddcc]));
    assert_eq!(decode_input_words(b"01020304"), Ok(vec![0x0403_0201]));
    assert_eq!(decode_input_words(b"0x"), Ok(vec![]));
    assert_eq!(decode_input_words(b"0x010203"), Err(InputError::NotWords));
    assert_eq!(decode_input_words(b"0x0101020304"), Err(InputError::NotWords));
    assert_eq!(decode_input_words(b"0x0102030g"), Err(InputError::NotHex));
    assert_eq!(decode_input_words(b"0x01g2"), Err(InputError::NotHex));
}

#[test]
fn exported_signature_has_expected_lengths() {
    let raw_sig = RawSignature {
        co_path: vec![[3u32; 7]; WINTERNITZ_TREE_HEIGHT],
        rho: [2u32; 5],
        hashes: vec![[1u32; 7]; WINTERNITZ_W1_NUM_CHAINS],
    };
    let raw_pk = RawPublicKey { root: [4u32; 7], parameter: [5u32; 5] };

    let exported_sig = export_signature(&raw_sig).expect("signature exports");
    assert_eq!(
        exported_sig.randomness.len(),
        POSEIDON_RANDOMNESS_LEN_FE * POSEIDON_FE_BYTES
    );
    assert_eq!(exported_sig.chain_hashes.len(), WINTERNITZ_W1_NUM_CHAINS);
    assert!(exported_sig
        .chain_hashes
        .iter()
        .all(|c| c.len() == POSEIDON_HASH_LEN_FE * POSEIDON_FE_BYTES));
    assert_eq!(exported_sig.auth_path.len(), WINTERNITZ_TREE_HEIGHT);
    assert!(exported_sig
        .auth_path
        .iter()
        .all(|node| node.len() == POSEIDON_HASH_LEN_FE * POSEIDON_FE_BYTES));

    let exported_pk = export_public_key(&raw_pk);
    assert_eq!(
        exported_pk.root.len(),
        POSEIDON_HASH_LEN_FE * POSEIDON_FE_BYTES
    );
    assert_eq!(
        exported_pk.parameter.len(),
        POSEIDON_PARAMETER_LEN_FE * POSEIDON_FE_BYTES
    );
}

#[test]
fn export_writes_field_elements_little_endian() {
    assert_eq!(field_array_to_bytes(&[0x7f00_0001, 2]), vec![1, 0, 0, 0x7f, 2, 0, 0, 0]);
    let rows = domains_to_bytes(&[[1, 2, 3, 4, 5, 6, 0x0102_0304], [0; 7]]);
    assert_eq!(rows.len(), 2);
    assert_eq!(
        rows[0],
        vec![1, 0, 0, 0, 2, 0, 0, 0, 3, 0, 0, 0, 4, 0, 0, 0, 5, 0, 0, 0, 6, 0, 0, 0, 4, 3, 2, 1]
    );
    assert_eq!(rows[1], vec![0u8; 28]);
    let pk = export_public_key(&RawPublicKey { root: [9; 7], parameter: [0x0a0b_0c0d; 5] });
    assert_eq!(pk.root, [9u8, 0, 0, 0].repeat(7));
    assert_eq!(pk.parameter, [0x0du8, 0x0c, 0x0b, 0x0a].repeat(5));
    let mut hashes = vec![[0u32; 7]; WINTERNITZ_W1_NUM_CHAINS];
    hashes[162][6] = 0xff;
    let sig = export_signature(&RawSignature { co_path: vec![[7; 7]], rho: [1, 2, 3, 4, 5], hashes })
        .unwrap();
    assert_eq!(sig.randomness, vec![1, 0, 0, 0, 2, 0, 0, 0, 3, 0, 0, 0, 4, 0, 0, 0, 5, 0, 0, 0]);
    assert_eq!(sig.chain_hashes[162][24..], [0xff, 0, 0, 0]);
    assert_eq!(sig.auth_path, vec![[7u8, 0, 0, 0].repeat(7)]);
}

#[test]
fn export_refuses_other_chain_counts() {
    let raw = RawSignature {
        co_path: vec![],
        rho: [0; 5],
        hashes: vec![[0; 7]; WINTERNITZ_W1_NUM_CHAINS - 1],
    };
    match export_signature(&raw) {
        Err(HashsigExportError::UnexpectedChainCount { expected, actual }) => {
            assert_eq!(expected, 163);
            assert_eq!(actual, 162);
        }
        _ => panic!("expected a chain count error"),
    }
    let err = HashsigExportError::UnexpectedChainCount { expected: 163, actual: 1200 };
    assert_eq!(err.message(), "unexpected chain count 1200 (expected 163)");
    let err = HashsigExportError::Serialization("broken".to_string());
    assert_eq!(err.message(), "failed to serialize hash-sig object: broken");
}
