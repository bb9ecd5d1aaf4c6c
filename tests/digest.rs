use wasm_pkg::digest::ContentDigest;
use wasm_pkg::error::Error;

const INPUT_SHA256: &str = "c96c6d5be8d08a12e7b5cdc1b207fa6b2430974c86803d8891675e76fd992c20";

fn chunks(data: &[u8], size: usize) -> Vec<Result<Vec<u8>, Error>> {
    data.chunks(size).map(|c| Ok(c.to_vec())).collect()
}

fn collect(items: Vec<Result<Vec<u8>, Error>>) -> Result<Vec<u8>, Error> {
    let mut out = Vec::new();
    for item in items {
        out.extend(item?);
    }
    Ok(out)
}

#[test]
fn test_validating_stream() {
    let input = b"input";
    let digest = ContentDigest::sha256_of(input);
    let validating = digest.validating_stream(chunks(input, 2));
    assert_eq!(collect(validating).unwrap(), &input[..]);
}

#[test]
fn test_invalidating_stream() {
    let input = b"input";
    let digest = ContentDigest::Sha256 { hex: "doesn't match anything!".to_string() };
    let validating = digest.validating_stream(chunks(input, 2));
    assert!(matches!(collect(validating), Err(Error::InvalidContent)));
}

#[test]
fn mismatch_error_comes_after_every_chunk() {
    let input = b"hello world";
    let other = ContentDigest::sha256_of(b"something else");
    let out = other.validating_stream(chunks(input, 4));
    assert_eq!(out.len(), 4);
    assert_eq!(out[0], Ok(b"hell".to_vec()));
    assert_eq!(out[1], Ok(b"o wo".to_vec()));
    assert_eq!(out[2], Ok(b"rld".to_vec()));
    assert_eq!(out[3], Err(Error::InvalidContent));
}

#[test]
fn validator_feeds_and_checks() {
    let d = ContentDigest::sha256_of(b"hello world");
    let mut v = d.validator();
    v.feed(b"hello ");
    v.feed(b"world");
    assert_eq!(v.finish(), Ok(()));
    let mut v = d.validator();
    v.feed(b"hello");
    assert_eq!(v.finish(), Err(Error::InvalidContent));
}

#[test]
fn sha256_of_known_values() {
    assert_eq!(ContentDigest::sha256_of(b"input").to_string(), format!("sha256:{INPUT_SHA256}"));
    assert_eq!(
        ContentDigest::sha256_of(b"").to_string(),
        "sha256:e3b0c44298fc1c149afbf4c8996fb92427ae41e4649b934ca495991b7852b855"
    );
}

#[test]
fn digest_text_round_trip_lowercases() {
    let upper = format!("sha256:{}", INPUT_SHA256.to_uppercase());
    let d = ContentDigest::parse(&upper).unwrap();
    assert_eq!(d.to_string(), upper.to_lowercase());
    assert!(d.same(&ContentDigest::sha256_of(b"input")));
}

#[test]
fn digest_parse_errors() {
    assert_eq!(ContentDigest::parse(INPUT_SHA256).unwrap_err(), Error::InvalidContentDigest);
    assert_eq!(ContentDigest::parse("sha256:abc").unwrap_err(), Error::InvalidContentDigest);
    let bad = format!("sha256:{}g", &INPUT_SHA256[..63]);
    assert_eq!(ContentDigest::parse(&bad).unwrap_err(), Error::InvalidContentDigest);
    let wrong_tag = format!("sha512:{INPUT_SHA256}");
    assert_eq!(ContentDigest::parse(&wrong_tag).unwrap_err(), Error::InvalidContentDigest);
}
