use rebuild::digest::{content_digest, is_hex, xof_hex, ContentDigest};

fn reference_xof_hex(data: &[u8], len: usize) -> String {
    let mut hasher = blake3::Hasher::new();
    hasher.update(data);
    let mut out = vec![0u8; len];
    hasher.finalize_xof().fill(&mut out);
    hex::encode(out)
}

#[test]
fn digest_of_empty_content() {
    let d = content_digest(b"");
    assert_eq!(
        d.as_str(),
        "af1349b9f5f9a1a6a0404dea36dcc9499bcb25c9adc112b7cc9a93cae41f3262"
    );
}

#[test]
fn digest_of_hello() {
    assert_eq!(
        content_digest(b"hello").as_str(),
        "ea8f163db38682925e4491c5e58d4bb3506ef8c14eb78a86e908c5624a67200f"
    );
}

#[test]
fn digest_matches_one_shot_hash() {
    let data = b"hello";
    let expected = hex::encode(blake3::hash(data).as_bytes());
    assert_eq!(content_digest(data).as_str(), expected);
    assert_ne!(content_digest(data).as_str(), hex::encode(data));
}

#[test]
fn digest_is_sixty_four_lowercase_hex_characters() {
    for data in [&b""[..], b"a", b"hello world", &[0u8; 5000][..]] {
        let d = content_digest(data);
        assert_eq!(d.as_str().len(), 64);
        assert!(d.as_str().chars().all(is_hex));
    }
}

#[test]
fn digest_of_large_content() {
    let data: Vec<u8> = (0..200_000u32).map(|i| (i % 251) as u8).collect();
    let expected = hex::encode(blake3::hash(&data).as_bytes());
    assert_eq!(content_digest(&data).as_str(), expected);
}

#[test]
fn digest_changes_with_one_byte() {
    assert_ne!(content_digest(b"hello"), content_digest(b"hellox"));
    assert_ne!(content_digest(b"hello"), content_digest(b"hellp"));
    assert_eq!(content_digest(b"hello"), content_digest(b"hello"));
}

#[test]
fn xof_hex_of_zero_bytes_is_empty() {
    assert_eq!(xof_hex(b"abc", 0), "");
}

#[test]
fn xof_hex_reads_whole_and_partial_blocks() {
    for len in [1usize, 31, 32, 63, 64, 65, 128, 200] {
        let got = xof_hex(b"abc", len as u64);
        assert_eq!(got.len(), 2 * len);
        assert_eq!(got, reference_xof_hex(b"abc", len));
    }
}

#[test]
fn xof_hex_short_output_is_prefix_of_long() {
    let short = xof_hex(b"prefix", 32);
    let long = xof_hex(b"prefix", 100);
    assert!(long.starts_with(&short));
    assert_eq!(short, content_digest(b"prefix").as_str());
}

#[test]
fn from_hex_accepts_digest_text() {
    let text = "af1349b9f5f9a1a6a0404dea36dcc9499bcb25c9adc112b7cc9a93cae41f3262";
    let parsed = ContentDigest::from_hex(text).expect("a digest");
    assert_eq!(parsed.as_str(), text);
    assert_eq!(parsed, content_digest(b""));
}

#[test]
fn from_hex_refuses_other_text() {
    let good = "af1349b9f5f9a1a6a0404dea36dcc9499bcb25c9adc112b7cc9a93cae41f3262";
    assert!(ContentDigest::from_hex("").is_none());
    assert!(ContentDigest::from_hex(&good[..63]).is_none());
    assert!(ContentDigest::from_hex(&format!("{}0", good)).is_none());
    assert!(ContentDigest::from_hex(&good.to_uppercase()).is_none());
    assert!(ContentDigest::from_hex(&good.replace('a', "g")).is_none());
    assert!(ContentDigest::from_hex(&good.replace('a', "\n")).is_none());
    assert!(ContentDigest::from_hex(&good.replace('a', "\u{e9}")).is_none());
}

#[test]
fn is_hex_tells_lowercase_digits() {
    for c in "0123456789abcdef".chars() {
        assert!(is_hex(c));
    }
    for c in "ABCDEFg/:`G \n".chars() {
        assert!(!is_hex(c));
    }
}
