use sha2::Digest;
use xmss_batch::tsl::{digest_index, encode_vertex, integer_to_vertex, map_to_layer, MappingError};
use xmss_batch::types::TslParams;

fn rec(out: &mut Vec<Vec<u16>>, cur: &mut Vec<u16>, w: usize, pos: usize, v: usize, sum: usize, d0: usize) {
    if pos == v {
        if sum == d0 {
            out.push(cur.clone());
        }
        return;
    }
    for x in 0..=core::cmp::min(w - 1, d0.saturating_sub(sum)) {
        cur.push(x as u16);
        rec(out, cur, w, pos + 1, v, sum + x, d0);
        cur.pop();
    }
}

fn enumerate_layer(w: usize, v: usize, d0: usize) -> Vec<Vec<u16>> {
    let mut out = Vec::new();
    let mut cur = Vec::with_capacity(v);
    rec(&mut out, &mut cur, w, 0, v, 0, d0);
    out
}

#[test]
fn integer_to_vertex_small_params() {
    let w = 3;
    let v = 3;
    let d0 = 3;
    let all = enumerate_layer(w, v, d0);
    assert!(!all.is_empty());
    for i in 0..(all.len() * 2) {
        let got = integer_to_vertex(i as u64, w, v, d0).unwrap();
        let exp = &all[i % all.len()];
        assert_eq!(&got, exp);
        assert_eq!(got.len(), v);
        assert!(got.iter().all(|&a| a < w as u16));
        let s: usize = got.iter().map(|&a| a as usize).sum();
        assert_eq!(s, d0);
    }
}

#[test]
fn encode_vertex_deterministic() {
    let params = TslParams { w: 4, v: 4, d0: 4, security_bits: 128, tree_height: 0 };
    let msg = b"hello";
    let rnd = [7u8; 32];
    let a = encode_vertex(msg, &rnd, &params).unwrap();
    let b = encode_vertex(msg, &rnd, &params).unwrap();
    assert_eq!(a, b);
    assert_eq!(a.len(), params.v as usize);
    assert_eq!(a.iter().map(|&x| x as usize).sum::<usize>(), params.d0 as usize);
}

#[test]
fn integer_to_vertex_exact_vectors() {
    // w = 3, v = 3, d0 = 3: the seven vectors in lexicographic order.
    let expected: Vec<Vec<u16>> = vec![
        vec![0, 1, 2],
        vec![0, 2, 1],
        vec![1, 0, 2],
        vec![1, 1, 1],
        vec![1, 2, 0],
        vec![2, 0, 1],
        vec![2, 1, 0],
    ];
    for (i, exp) in expected.iter().enumerate() {
        assert_eq!(&integer_to_vertex(i as u64, 3, 3, 3).unwrap(), exp);
    }
    assert_eq!(integer_to_vertex(7, 3, 3, 3).unwrap(), vec![0, 1, 2]);
}

#[test]
fn integer_to_vertex_enumerates_layer_without_gaps() {
    for &(w, v, d0) in &[(2usize, 4usize, 2usize), (4, 3, 5), (5, 2, 8), (3, 4, 0), (2, 1, 1), (6, 3, 7)] {
        let all = enumerate_layer(w, v, d0);
        let mut sorted = all.clone();
        sorted.sort();
        sorted.dedup();
        assert_eq!(sorted, all);
        for (i, exp) in all.iter().enumerate() {
            assert_eq!(&integer_to_vertex(i as u64, w, v, d0).unwrap(), exp);
        }
    }
}

#[test]
fn integer_to_vertex_is_periodic() {
    let size = enumerate_layer(4, 4, 6).len() as u64;
    for &index in &[0u64, 1, 17, 43, 44, 1000, u64::MAX, u64::MAX - 3, 1 << 40] {
        assert_eq!(
            integer_to_vertex(index, 4, 4, 6).unwrap(),
            integer_to_vertex(index % size, 4, 4, 6).unwrap()
        );
    }
}

#[test]
fn integer_to_vertex_rejects_invalid_params() {
    assert!(matches!(integer_to_vertex(0, 3, 0, 0), Err(MappingError::InvalidParams)));
    assert!(matches!(integer_to_vertex(0, 1, 3, 0), Err(MappingError::InvalidParams)));
    assert!(matches!(integer_to_vertex(0, 0, 3, 0), Err(MappingError::InvalidParams)));
    assert!(matches!(integer_to_vertex(0, 3, 3, 7), Err(MappingError::InvalidParams)));
    assert!(integer_to_vertex(0, 3, 3, 6).is_ok());
    assert_eq!(integer_to_vertex(5, 3, 3, 6).unwrap(), vec![2, 2, 2]);
    assert_eq!(integer_to_vertex(5, 3, 3, 0).unwrap(), vec![0, 0, 0]);
}

#[test]
fn integer_to_vertex_handles_layers_beyond_128_bits() {
    let w = 16;
    let v = 80;
    let d0 = 600;
    let first = integer_to_vertex(0, w, v, d0).unwrap();
    let mut expected = vec![0u16; 40];
    expected.extend(vec![15u16; 40]);
    assert_eq!(first, expected);
    let second = integer_to_vertex(1, w, v, d0).unwrap();
    let mut expected = vec![0u16; 39];
    expected.extend(vec![1u16, 14]);
    expected.extend(vec![15u16; 39]);
    assert_eq!(second, expected);
    let far = integer_to_vertex(u64::MAX, w, v, d0).unwrap();
    assert_eq!(far.len(), v);
    assert!(far.iter().all(|&a| (a as usize) < w));
    assert_eq!(far.iter().map(|&a| a as usize).sum::<usize>(), d0);
}

#[test]
fn map_to_layer_follows_params() {
    let params = TslParams { w: 3, v: 3, d0: 3, security_bits: 128, tree_height: 0 };
    assert_eq!(map_to_layer(4, &params).unwrap(), vec![1, 2, 0]);
    assert_eq!(map_to_layer(4 + 7 * 1_000_000_007, &params).unwrap(), vec![1, 2, 0]);
    let out_of_reach = TslParams { w: 3, v: 3, d0: u32::MAX, security_bits: 128, tree_height: 0 };
    assert!(matches!(map_to_layer(4, &out_of_reach), Err(MappingError::InvalidParams)));
    let no_chain = TslParams { w: 3, v: 0, d0: 0, security_bits: 128, tree_height: 0 };
    assert!(matches!(map_to_layer(4, &no_chain), Err(MappingError::InvalidParams)));
    let base_one = TslParams { w: 1, v: 3, d0: 0, security_bits: 128, tree_height: 0 };
    assert!(matches!(map_to_layer(4, &base_one), Err(MappingError::InvalidParams)));
}

#[test]
fn digest_index_reads_first_eight_bytes_little_endian() {
    let mut digest = [0u8; 32];
    for (i, b) in digest.iter_mut().enumerate() {
        *b = (i as u8) + 1;
    }
    assert_eq!(digest_index(&digest), 0x0807_0605_0403_0201);
    assert_eq!(digest_index(&[0xff; 32]), u64::MAX);
    assert_eq!(digest_index(&[0u8; 32]), 0);
}

#[test]
fn encode_vertex_hashes_message_then_randomness() {
    let params = TslParams { w: 4, v: 5, d0: 7, security_bits: 128, tree_height: 0 };
    let msg = b"hello";
    let rnd = [7u8; 32];
    let mut hasher = sha2::Sha256::new();
    hasher.update(msg);
    hasher.update(rnd);
    let digest: [u8; 32] = hasher.finalize().into();
    let mut first = [0u8; 8];
    first.copy_from_slice(&digest[..8]);
    let index = u64::from_le_bytes(first);
    assert_eq!(
        encode_vertex(msg, &rnd, &params).unwrap(),
        integer_to_vertex(index, 4, 5, 7).unwrap()
    );
    let invalid = TslParams { w: 4, v: 5, d0: 16, security_bits: 128, tree_height: 0 };
    assert!(matches!(encode_vertex(msg, &rnd, &invalid), Err(MappingError::InvalidParams)));
}
