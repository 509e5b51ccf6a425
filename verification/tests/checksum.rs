use fin::checksum::{digest, hex_text, Algorithm, Checksum};
use fin::error::Error;

const SHA224_ABC: &str = "23097d223405d8228642a477bda255b32aadbce4bda0b3f7e36c9da7";
const SHA256_ABC: &str = "ba7816bf8f01cfea414140de5dae2223b00361a396177a9cb410ff61f20015ad";
const SHA384_ABC: &str = "cb00753f45a35e8bb5a03d699ac65007272c32ab0eded1631a8b605a43ff5bed8086072ba1e7cc2358baeca134c825a7";
const SHA512_ABC: &str = "ddaf35a193617abacc417349ae20413112e6fa4e89a97ea20a9eeee64b55d39a2192992a274fc1a836ba3c23a3feebbd454d4423643ce80e2a9ac94fa54ca49f";

fn with_text(algorithm: Algorithm, text: Option<&str>) -> Checksum {
    let file = text.map(String::from);
    match algorithm {
        Algorithm::Sha224 => Checksum::SHA224 { file },
        Algorithm::Sha256 => Checksum::SHA256 { file },
        Algorithm::Sha384 => Checksum::SHA384 { file },
        Algorithm::Sha512 => Checksum::SHA512 { file },
    }
}

#[test]
fn bytes_are_written_in_hexadecimal() {
    assert_eq!(hex_text(&[]), "");
    assert_eq!(hex_text(&[0x00]), "00");
    assert_eq!(hex_text(&[0x0f, 0xf0, 0xff]), "0ff0ff");
    assert_eq!(
        hex_text(&[0x01, 0x23, 0x45, 0x67, 0x89, 0xab, 0xcd, 0xef]),
        "0123456789abcdef"
    );
}

#[test]
fn digests_are_those_of_the_algorithms() {
    assert_eq!(hex_text(&digest(Algorithm::Sha224, b"abc")), SHA224_ABC);
    assert_eq!(hex_text(&digest(Algorithm::Sha256, b"abc")), SHA256_ABC);
    assert_eq!(hex_text(&digest(Algorithm::Sha384, b"abc")), SHA384_ABC);
    assert_eq!(hex_text(&digest(Algorithm::Sha512, b"abc")), SHA512_ABC);
    assert_eq!(digest(Algorithm::Sha224, b"").len(), 28);
    assert_eq!(digest(Algorithm::Sha256, b"").len(), 32);
    assert_eq!(digest(Algorithm::Sha384, b"").len(), 48);
    assert_eq!(digest(Algorithm::Sha512, b"").len(), 64);
    assert_eq!(
        hex_text(&digest(Algorithm::Sha256, b"")),
        "e3b0c44298fc1c149afbf4c8996fb92427ae41e4649b934ca495991b7852b855"
    );
}

#[test]
fn download_passes_where_its_digest_is_in_the_text() {
    for (algorithm, sum) in [
        (Algorithm::Sha224, SHA224_ABC),
        (Algorithm::Sha256, SHA256_ABC),
        (Algorithm::Sha384, SHA384_ABC),
        (Algorithm::Sha512, SHA512_ABC),
    ] {
        assert_eq!(with_text(algorithm, Some(sum)).check(b"abc"), Ok(()));
        let listed = format!("0000  other.zip\n{sum}  font.zip\n");
        assert_eq!(with_text(algorithm, Some(&listed)).check(b"abc"), Ok(()));
        assert_eq!(
            with_text(algorithm, Some(sum)).check(b"abd"),
            Err(Error::ChecksumMismatch)
        );
        assert_eq!(
            with_text(algorithm, Some(&sum[1..])).check(b"abc"),
            Err(Error::ChecksumMismatch)
        );
        assert_eq!(
            with_text(algorithm, Some(&sum.to_uppercase())).check(b"abc"),
            Err(Error::ChecksumMismatch)
        );
        assert_eq!(with_text(algorithm, Some("")).check(b"abc"), Err(Error::ChecksumMismatch));
        assert_eq!(with_text(algorithm, None).check(b"abc"), Err(Error::NoChecksum));
        assert_eq!(with_text(algorithm, Some(sum)).algorithm(), algorithm);
    }
    assert_eq!(
        with_text(Algorithm::Sha256, Some(SHA224_ABC)).check(b"abc"),
        Err(Error::ChecksumMismatch)
    );
}

#[test]
fn changing_any_byte_fails_the_check() {
    let data: Vec<u8> = (0u8..=255).cycle().take(1000).collect();
    let sum = hex_text(&digest(Algorithm::Sha256, &data));
    let checksum = with_text(Algorithm::Sha256, Some(&sum));
    assert_eq!(checksum.check(&data), Ok(()));
    for place in 0..data.len() {
        let mut changed = data.clone();
        changed[place] ^= 0x01;
        assert_eq!(checksum.check(&changed), Err(Error::ChecksumMismatch));
    }
    let mut longer = data.clone();
    longer.push(0);
    assert_eq!(checksum.check(&longer), Err(Error::ChecksumMismatch));
}

#[test]
fn digest_is_looked_for_anywhere_in_the_text() {
    let text = format!("prefix{SHA256_ABC}suffix");
    assert_eq!(Checksum::check_digest(&digest(Algorithm::Sha256, b"abc"), &text), Ok(()));
    assert_eq!(Checksum::check_digest(&[0xab], "xxabxx"), Ok(()));
    assert_eq!(Checksum::check_digest(&[], "anything"), Ok(()));
    assert_eq!(
        Checksum::check_digest(&[0xab], "xxbaxx"),
        Err(Error::ChecksumMismatch)
    );
}

#[test]
fn checksum_is_looked_for_on_the_page_of_the_item() {
    let mut checksum = with_text(Algorithm::Sha256, None);
    assert_eq!(
        checksum.obtain(Some(String::from("page with sums")), Some("v1")),
        Ok(None)
    );
    assert_eq!(checksum.text(), Some("page with sums"));
    let mut checksum = with_text(Algorithm::Sha256, None);
    assert_eq!(checksum.obtain(None, None), Ok(None));
    assert_eq!(checksum.text(), None);
}

#[test]
fn checksum_in_a_file_of_its_own_is_linked_from_the_page() {
    let page = r#"{"url":"https://x.org/dl/v1/sums-v1.txt"}"#;
    let mut checksum = with_text(Algorithm::Sha512, Some("sums-$tag.txt"));
    assert_eq!(
        checksum.obtain(Some(String::from(page)), Some("v1")),
        Ok(Some(String::from("https://x.org/dl/v1/sums-v1.txt")))
    );
    assert_eq!(checksum.text(), Some("sums-v1.txt"));
    checksum.set_text(Some(String::from(SHA512_ABC)));
    assert_eq!(checksum.check(b"abc"), Ok(()));
    let mut untagged = with_text(Algorithm::Sha256, Some("sums-$tag.txt"));
    assert_eq!(
        untagged.obtain(Some(String::from(page)), None),
        Err(Error::UnresolvedTag)
    );
    assert_eq!(untagged.text(), Some("sums-$tag.txt"));
    let mut unnamed = with_text(Algorithm::Sha256, Some("sums"));
    assert_eq!(
        unnamed.obtain(Some(String::from(page)), None),
        Err(Error::MissingExtension)
    );
    let mut pageless = with_text(Algorithm::Sha256, Some("sums.txt"));
    assert_eq!(pageless.obtain(None, None), Err(Error::NoPage));
    let mut unlinked = with_text(Algorithm::Sha256, Some("other.txt"));
    assert_eq!(
        unlinked.obtain(Some(String::from(page)), None),
        Err(Error::LinkNotFound)
    );
    assert_eq!(unlinked.text(), Some("other.txt"));
}
