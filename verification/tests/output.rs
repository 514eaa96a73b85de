use sha2::Digest;
use xmss_batch::hash::{NODE_BYTES, PARAMETER_BYTES};
use xmss_batch::output::{
    check_output, output_words, revealed_commitment, run_batch, OutputMismatch,
};
use xmss_batch::transcript::parse_output_words;
use xmss_batch::types::{PublicKey, Signature, Statement, TslParams, VerificationBatch, Witness};
use xmss_batch::xmss_verify::statement_commitment;

fn sample_batch(flip: bool) -> VerificationBatch {
    let mut e = [0x33u8; NODE_BYTES];
    let digest = sha2::Sha256::digest(e);
    if flip {
        e[0] ^= 0x10;
    }
    VerificationBatch {
        params: TslParams { w: 2, v: 1, d0: 1, security_bits: 128, tree_height: 0 },
        statement: Statement {
            k: 1,
            ep: 9,
            m: b"words".to_vec(),
            public_keys: vec![PublicKey {
                root: digest[..NODE_BYTES].to_vec(),
                parameter: vec![1u8; PARAMETER_BYTES],
            }],
        },
        witness: Witness {
            signatures: vec![Signature {
                leaf_index: 0,
                randomness: vec![],
                wots_chain_ends: vec![e.to_vec()],
                auth_path: vec![],
            }],
        },
    }
}

#[test]
fn output_words_lay_out_verdict_count_and_commitment() {
    let mut commitment = [0u8; 32];
    for (i, b) in commitment.iter_mut().enumerate() {
        *b = i as u8;
    }
    let words = output_words(true, 5, &commitment);
    assert_eq!(
        words,
        [
            1, 5, 0x0302_0100, 0x0706_0504, 0x0b0a_0908, 0x0f0e_0d0c, 0x1312_1110, 0x1716_1514,
            0x1b1a_1918, 0x1f1e_1d1c
        ]
    );
    let words = output_words(false, u32::MAX, &[0xff; 32]);
    assert_eq!(words[0], 0);
    assert_eq!(words[1], u32::MAX);
    assert!(words[2..].iter().all(|&w| w == u32::MAX));
}

#[test]
fn revealed_commitment_reads_words_back() {
    let mut commitment = [0u8; 32];
    for (i, b) in commitment.iter_mut().enumerate() {
        *b = (i as u8).wrapping_mul(37).wrapping_add(200);
    }
    let words = output_words(true, 3, &commitment);
    assert_eq!(revealed_commitment(&words), commitment);
    let mut words = [0u32; 10];
    words[0] = 0xdead_beef;
    words[1] = 0xdead_beef;
    words[2] = 0x0403_0201;
    let mut expected = [0u8; 32];
    expected[..4].copy_from_slice(&[1, 2, 3, 4]);
    assert_eq!(revealed_commitment(&words), expected);
}

#[test]
fn run_batch_reveals_verdict_count_and_commitment() {
    let batch = sample_batch(false);
    let words = run_batch(&batch);
    assert_eq!(words[0], 1);
    assert_eq!(words[1], 1);
    let commitment = statement_commitment(&batch.statement);
    for i in 0..8 {
        let mut w = [0u8; 4];
        w.copy_from_slice(&commitment[4 * i..4 * i + 4]);
        assert_eq!(words[2 + i], u32::from_le_bytes(w));
    }
    let bad = sample_batch(true);
    let words = run_batch(&bad);
    assert_eq!(words[0], 0);
    assert_eq!(words[1], 1);
    assert_eq!(revealed_commitment(&words), commitment);
    let mut short = sample_batch(false);
    short.statement.k = 2;
    let words = run_batch(&short);
    assert_eq!(words[0], 0);
    assert_eq!(words[1], 0);
    assert_eq!(revealed_commitment(&words), statement_commitment(&short.statement));
}

#[test]
fn check_output_judges_count_and_commitment() {
    let batch = sample_batch(false);
    let words = run_batch(&batch);
    assert_eq!(check_output(&words, &batch.statement), Ok(()));
    // The verdict is not judged.
    let rejected = run_batch(&sample_batch(true));
    assert_eq!(check_output(&rejected, &batch.statement), Ok(()));
    let mut wrong_count = words;
    wrong_count[1] = 2;
    assert_eq!(check_output(&wrong_count, &batch.statement), Err(OutputMismatch::Count));
    let mut wrong_commit = words;
    wrong_commit[9] ^= 1 << 31;
    assert_eq!(check_output(&wrong_commit, &batch.statement), Err(OutputMismatch::Commitment));
    let mut other = batch.statement.clone();
    other.ep += 1;
    assert_eq!(check_output(&words, &other), Err(OutputMismatch::Commitment));
    other.k = 7;
    assert_eq!(check_output(&words, &other), Err(OutputMismatch::Count));
}

#[test]
fn parse_output_words_reads_a_printed_line() {
    let bytes: Vec<u8> = (0..40).map(|i| (i * 5 + 1) as u8).collect();
    let listed: Vec<String> = bytes.iter().map(|b| format!("{}", b)).collect();
    let line = format!("Execution output: [{}]", listed.join(", "));
    let mut expected = [0u32; 10];
    for i in 0..10 {
        let mut w = [0u8; 4];
        w.copy_from_slice(&bytes[4 * i..4 * i + 4]);
        expected[i] = u32::from_le_bytes(w);
    }
    assert_eq!(parse_output_words(&line), Some(expected));
    // More than forty bytes: the first forty count.
    let line = format!("x[{},9,9,9]", listed.join(","));
    assert_eq!(parse_output_words(&line), Some(expected));
    // Empty fields and white space of any kind are passed over; a sign and zeros are taken.
    let line = format!("[ ,{},, \u{a0}\u{2003} ]", listed.join(" ,\t+00"));
    assert_eq!(parse_output_words(&line), Some(expected));
    // The outermost brackets count.
    let line = format!("[{}] trailing ] text", listed.join(","));
    assert_eq!(parse_output_words(&line), None);
}

#[test]
fn parse_output_words_refuses_what_is_no_list_of_bytes() {
    let forty = vec!["7"; 40].join(",");
    assert!(parse_output_words(&format!("[{}]", forty)).is_some());
    assert_eq!(parse_output_words(""), None);
    assert_eq!(parse_output_words("no brackets"), None);
    assert_eq!(parse_output_words(&format!("[{}", forty)), None);
    assert_eq!(parse_output_words(&format!("{}]", forty)), None);
    assert_eq!(parse_output_words(&format!("]{}[", forty)), None);
    assert_eq!(parse_output_words("[]"), None);
    assert_eq!(parse_output_words(&format!("[{}]", vec!["7"; 39].join(","))), None);
    assert_eq!(parse_output_words(&format!("[{},256]", forty)), None);
    assert_eq!(parse_output_words(&format!("[{},255]", forty)), parse_output_words(&format!("[{}]", forty)));
    assert_eq!(parse_output_words(&format!("[{},-1]", forty)), None);
    assert_eq!(parse_output_words(&format!("[{},+]", forty)), None);
    assert_eq!(parse_output_words(&format!("[{},1 2]", forty)), None);
    assert_eq!(parse_output_words(&format!("[{},0x10]", forty)), None);
    assert_eq!(parse_output_words(&format!("[{},99999999999999999999999]", forty)), None);
    assert!(parse_output_words(&format!("[{},0000000000000000000000012]", forty)).is_some());
}

#[test]
fn parse_output_words_agrees_with_std_parsing() {
    let fields = ["0", "255", "256", "+1", "++1", " 12 ", "", "  ", "1a", "\u{3000}9", "٣", "007", "-0"];
    for field in fields {
        let t = field.trim();
        let expected: Option<Option<u8>> = if t.is_empty() { Some(None) } else { t.parse::<u8>().ok().map(Some) };
        let line = format!("[{}{}]", "1,".repeat(40), field);
        let got = parse_output_words(&line);
        match expected {
            Some(_) => assert_eq!(got, Some([0x0101_0101; 10]), "field {:?}", field),
            None => assert_eq!(got, None, "field {:?}", field),
        }
    }
}
