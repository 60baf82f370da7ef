use hashcc::algo::Algorithm;
use hashcc::digest::{digest_bytes, digest_chunks, StreamHasher};
use sha2::Digest;

const ALGOS: [Algorithm; 5] = [
    Algorithm::Md5,
    Algorithm::Sha1,
    Algorithm::Sha256,
    Algorithm::Sha512,
    Algorithm::Blake3,
];

#[test]
fn md5_known_answer() {
    assert_eq!(
        digest_bytes(b"hello", &Algorithm::Md5),
        "5d41402abc4b2a76b9719d911017c592"
    );
}

#[test]
fn sha1_known_answer() {
    assert_eq!(
        digest_bytes(b"hello", &Algorithm::Sha1),
        "aaf4c61ddcc5e8a2dabede0f3b482cd9aea9434d"
    );
}

#[test]
fn sha256_known_answer() {
    assert_eq!(
        digest_bytes(b"hello", &Algorithm::Sha256),
        "2cf24dba5fb0a30e26e83b2ac5b9e29e1b161e5c1fa7425e73043362938b9824"
    );
}

#[test]
fn sha512_known_answer() {
    assert_eq!(
        digest_bytes(b"hello", &Algorithm::Sha512),
        "9b71d224bd62f3785d96d46ad3ea3d73319bfbc2890caadae2dff72519673ca72323c3d99ba5c11d7c7acc6e14b8c5da0c4663475c2e5c3adef46f73bcdec043"
    );
}

#[test]
fn blake3_known_answer() {
    assert_eq!(
        digest_bytes(b"hello", &Algorithm::Blake3),
        "ea8f163db38682925e4491c5e58d4bb3506ef8c14eb78a86e908c5624a67200f"
    );
}

#[test]
fn empty_input_digests() {
    assert_eq!(
        digest_bytes(b"", &Algorithm::Md5),
        "d41d8cd98f00b204e9800998ecf8427e"
    );
    assert_eq!(
        digest_bytes(b"", &Algorithm::Sha256),
        "e3b0c44298fc1c149afbf4c8996fb92427ae41e4649b934ca495991b7852b855"
    );
}

#[test]
fn digest_matches_outside_crates_directly() {
    let data = b"some bytes to hash";
    assert_eq!(
        digest_bytes(data, &Algorithm::Sha256),
        hex::encode(sha2::Sha256::digest(data))
    );
    assert_eq!(
        digest_bytes(data, &Algorithm::Blake3),
        blake3::hash(data).to_hex().to_string()
    );
}

#[test]
fn streamed_equals_buffered_every_algorithm() {
    let data: Vec<u8> = (0u16..2000).map(|i| (i % 251) as u8).collect();
    for algo in ALGOS {
        let buffered = digest_bytes(&data, &algo);
        let mut h = StreamHasher::new(&algo);
        for chunk in data.chunks(7) {
            h.update(chunk);
        }
        assert_eq!(h.finalize(), buffered);
    }
}

#[test]
fn chunked_vec_equals_buffered() {
    let chunks: Vec<Vec<u8>> = vec![b"he".to_vec(), b"l".to_vec(), b"".to_vec(), b"lo".to_vec()];
    for algo in ALGOS {
        assert_eq!(digest_chunks(&chunks, &algo), digest_bytes(b"hello", &algo));
    }
}

#[test]
fn hashing_is_deterministic() {
    for algo in ALGOS {
        let a = digest_bytes(b"determinism", &algo);
        let b = digest_bytes(b"determinism", &algo);
        assert_eq!(a, b);
    }
}

#[test]
fn emitted_length_matches_expected_hex_len() {
    for algo in ALGOS {
        let d = digest_bytes(b"abc", &algo);
        assert_eq!(d.len(), algo.expected_hex_len());
        assert!(d.chars().all(|c| c.is_ascii_hexdigit() && !c.is_ascii_uppercase()));
    }
    assert_eq!(Algorithm::Md5.expected_hex_len(), 32);
    assert_eq!(Algorithm::Sha1.expected_hex_len(), 40);
    assert_eq!(Algorithm::Sha256.expected_hex_len(), 64);
    assert_eq!(Algorithm::Sha512.expected_hex_len(), 128);
    assert_eq!(Algorithm::Blake3.expected_hex_len(), 64);
}
