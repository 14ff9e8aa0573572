use protonup::files::{check_supported_extension, FileError};

struct TestCase {
    name: &'static str,
    file_name: String,
    expected: Result<String, FileError>,
}

#[test]
fn test_check_supported_extension() {
    let test_cases = vec![
        TestCase {
            name: "tar.gz",
            file_name: "my_archive.tar.gz".to_string(),
            expected: Ok("tar.gz".to_string()),
        },
        TestCase {
            name: "tgz",
            file_name: "another_archive.tgz".to_string(),
            expected: Ok("tar.gz".to_string()),
        },
        TestCase {
            name: "tar.zst",
            file_name: "data.tar.zst".to_string(),
            expected: Ok("tar.zst".to_string()),
        },
        TestCase {
            name: "tar.zstd",
            file_name: "backup.tar.zstd".to_string(),
            expected: Ok("tar.zst".to_string()),
        },
        TestCase {
            name: "tar.xz",
            file_name: "image.tar.xz".to_string(),
            expected: Ok("tar.xz".to_string()),
        },
        TestCase {
            name: "txz",
            file_name: "report.txz".to_string(),
            expected: Ok("tar.xz".to_string()),
        },
        TestCase {
            name: "unsupported extension - zip",
            file_name: "document.zip".to_string(),
            expected: Err(FileError::UnsupportedExtension),
        },
        TestCase {
            name: "unsupported extension - tar",
            file_name: "plain.tar".to_string(),
            expected: Err(FileError::UnsupportedExtension),
        },
        TestCase {
            name: "unsupported extension - no extension",
            file_name: "config".to_string(),
            expected: Err(FileError::UnsupportedExtension),
        },
        TestCase {
            name: "filename with supported extension in the middle",
            file_name: "prefix.tar.gz.suffix".to_string(),
            expected: Err(FileError::UnsupportedExtension),
        },
        TestCase {
            name: "empty filename",
            file_name: "".to_string(),
            expected: Err(FileError::UnsupportedExtension),
        },
    ];

    for test_case in test_cases {
        let result = check_supported_extension(test_case.file_name);
        match (result, test_case.expected) {
            (Ok(actual), Ok(expected)) => {
                assert_eq!(actual, expected, "Test '{}' failed", test_case.name)
            }
            (Err(actual), Err(expected)) => {
                assert_eq!(
                    actual.message(),
                    expected.message(),
                    "Test '{}' failed",
                    test_case.name
                );
                assert_eq!(
                    actual.message(),
                    "Downloaded file wasn't of the expected type. (tar.(gz/xz/zst))"
                );
            }
            (Ok(_), Err(_)) => panic!(
                "Test '{}' failed: Expected error, got success",
                test_case.name
            ),
            (Err(_), Ok(_)) => panic!(
                "Test '{}' failed: Expected success, got error",
                test_case.name
            ),
        }
    }
}
