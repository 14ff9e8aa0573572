use protonup::hashing::{expected_hash, HashSumType, HashSums};
use sha2::Digest;

#[test]
fn hash_check_file() {
    let test_data = b"This Is A Test";
    let hash = hex::encode(sha2::Sha512::new_with_prefix(test_data).finalize());

    assert!(
        protonup::hashing::hash_check_file(
            "",
            &test_data[..],
            &HashSums {
                sum_content: hash,
                sum_type: HashSumType::Sha512
            }
        ),
        "Hash didn't match"
    );

    let hash = hex::encode(sha2::Sha256::new_with_prefix(test_data).finalize());

    assert!(
        protonup::hashing::hash_check_file(
            "",
            &test_data[..],
            &HashSums {
                sum_content: hash,
                sum_type: HashSumType::Sha256
            }
        ),
        "Hash didn't match"
    );
}

/// A manifest of the exact form `hex(SHA512(C)) <file name>` verifies
/// the content; flipping any hex digit makes it fail.
#[test]
fn manifest_with_file_name_verifies() {
    let content = b"some archive bytes";
    let digest = hex::encode(sha2::Sha512::digest(content));
    let manifest = format!("{} GE-Proton9-27.tar.gz", digest);

    assert!(protonup::hashing::hash_check_file(
        "GE-Proton9-27.tar.gz",
        content,
        &HashSums {
            sum_content: manifest.clone(),
            sum_type: HashSumType::Sha512
        }
    ));

    for flip_at in 0..digest.len() {
        let mut flipped: Vec<char> = digest.chars().collect();
        flipped[flip_at] = if flipped[flip_at] == '0' { '1' } else { '0' };
        let bad: String = flipped.into_iter().collect();
        let bad_manifest = format!("{} GE-Proton9-27.tar.gz", bad);
        assert!(
            !protonup::hashing::hash_check_file(
                "GE-Proton9-27.tar.gz",
                content,
                &HashSums {
                    sum_content: bad_manifest,
                    sum_type: HashSumType::Sha512
                }
            ),
            "flipped digit at {} still verified",
            flip_at
        );
    }
}

/// A manifest holding only the bare hash, with no file name and no
/// trailing text, still verifies through the fallback path.
#[test]
fn bare_hash_manifest_verifies() {
    let content = b"other archive bytes";
    let digest = hex::encode(sha2::Sha256::digest(content));

    assert!(protonup::hashing::hash_check_file(
        "whatever.tar.gz",
        content,
        &HashSums {
            sum_content: digest.clone(),
            sum_type: HashSumType::Sha256
        }
    ));

    // Trailing whitespace after the bare hash is tolerated too.
    assert!(protonup::hashing::hash_check_file(
        "whatever.tar.gz",
        content,
        &HashSums {
            sum_content: format!("{} \t ", digest),
            sum_type: HashSumType::Sha256
        }
    ));

    // A trailing newline, as published manifests end, changes nothing.
    assert!(protonup::hashing::hash_check_file(
        "whatever.tar.gz",
        content,
        &HashSums {
            sum_content: format!("{}\n", digest),
            sum_type: HashSumType::Sha256
        }
    ));
    assert!(protonup::hashing::hash_check_file(
        "whatever.tar.gz",
        content,
        &HashSums {
            sum_content: format!("{} \r\n", digest),
            sum_type: HashSumType::Sha256
        }
    ));
}

/// The expected hash comes from the line naming the file, wherever it
/// stands in the manifest, and case or surrounding whitespace do not
/// matter.
#[test]
fn multi_line_manifest_picks_the_right_line() {
    let content = b"payload";
    let digest = hex::encode(sha2::Sha512::digest(content));
    let manifest = format!(
        "aaaa other-file.tar.gz\n{} wanted.tar.gz\nbbbb third.tar.gz\n",
        digest.to_uppercase()
    );

    assert_eq!(
        expected_hash("wanted.tar.gz", &manifest),
        digest.to_uppercase()
    );
    assert!(protonup::hashing::hash_check_file(
        "wanted.tar.gz",
        content,
        &HashSums {
            sum_content: manifest,
            sum_type: HashSumType::Sha512
        }
    ));
}

/// A line with the file name but no space falls back to the whole
/// manifest text, as the resolver's fallback rule has it.
#[test]
fn line_without_space_falls_back_to_whole_text() {
    let manifest = "wanted.tar.gz";
    assert_eq!(expected_hash("wanted.tar.gz", manifest), manifest);
}

/// Feeding a file in chunks yields the same verdict as hashing it
/// whole.
#[test]
fn streamed_digest_matches_whole_file() {
    let content = b"chunked archive bytes";
    let digest_hex = hex::encode(sha2::Sha512::digest(content));
    let manifest = format!("{} f.tar.gz", digest_hex);

    let mut digest = protonup::hashing::StreamingDigest::new(HashSumType::Sha512);
    digest = digest.update(&content[..7]);
    digest = digest.update(&content[7..]);
    assert!(protonup::hashing::hash_check_stream(
        "f.tar.gz",
        digest,
        &HashSums {
            sum_content: manifest.clone(),
            sum_type: HashSumType::Sha512
        }
    ));

    let whole = protonup::hashing::hash_check_file(
        "f.tar.gz",
        content,
        &HashSums {
            sum_content: manifest,
            sum_type: HashSumType::Sha512,
        },
    );
    assert!(whole);
}
