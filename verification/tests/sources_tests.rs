use std::str::FromStr;

use protonup::apps::{App, AppInstallations};
use protonup::downloads::{usable_releases, Asset, Download, Release};
use protonup::hashing::HashSumType;
use protonup::sources::{CompatTool, Forge, ToolType};

const TEST_CASES: &[(&str, bool)] = &[
    // --- Valid Cases ---
    ("dxvk-2.6.1.tar.gz", true),    // Standard 3-part version
    ("dxvk-2.6.tar.gz", true),      // Standard 2-part version
    ("dxvk-10.20.30.tar.gz", true), // Multi-digit 3-part version
    ("dxvk-10.20.tar.gz", true),    // Multi-digit 2-part version
    ("dxvk-0.0.0.tar.gz", true),    // Zeroes are valid digits
    ("dxvk-0.1.tar.gz", true),      // Zeroes are valid digits
    // --- Invalid Cases ---
    ("dxvk-invalid.zip", false),       // Wrong suffix
    ("dxvk-2.tar.gz", false), // Requires Major.Minor minimum (fails regex \d+\.\d+ and manual split len check)
    ("dxvk-2.6.1.beta.tar.gz", false), // Extra text in version part
    ("dxvk-.tar.gz", false),  // Missing version part
    ("dxvk-2.6..tar.gz", false), // Double dot in version part
    ("prefix-dxvk-2.6.tar.gz", false), // Incorrect prefix
    ("dxvk-2.6.tar.gz-suffix", false), // Incorrect suffix
    ("", false),              // Empty string
    ("dxvk-a.b.tar.gz", false), // Non-digits in version part
    ("dxvk-1.2.3.4.tar.gz", false), // Too many version parts
    ("dxvk-1.2 .tar.gz", false), // Space in version part
    ("dxvk-1..tar.gz", false), // Double dot variant
    ("dxvk-1.2.", false),     // Wrong suffix / incomplete
    (".tar.gz", false),       // Missing prefix and version
    ("dxvk-", false),         // Missing version and suffix
];

#[test]
fn test_is_dxvk_archive_name_regex_table() {
    let empty = "".to_owned();
    // example regex for dxvk
    let dxvk_regex = r"^dxvk-\d+\.\d+(?:\.\d+)?\.tar\.gz$";

    for (input, expected) in TEST_CASES {
        let s = CompatTool::new_custom(
            empty.clone(),
            Forge::GitHub,
            empty.clone(),
            empty.clone(),
            ToolType::Runtime,
            Some(dxvk_regex.to_owned()),
            None,
            None,
        );
        let actual = s.filter_asset(input);
        assert_eq!(
            actual, *expected,
            "Regex test failed for input: '{}'. Expected {}, got {}",
            input, expected, actual
        );
    }
}

#[test]
fn downloads_test_get_download_name() {
    let empty = "".to_owned();

    let test_cases = vec![
        // "GE-Proton
        (
            Download {
                file_name: "GE-Proton9-27.tar.gz".to_owned(),
                version: "GE-Proton9-27".to_owned(),
                hash_sum: None,
                for_app: AppInstallations::Steam,
                size: 0,
                download_url: empty.clone(),
            },
            CompatTool::from_str("GEProton").unwrap(),
            "GE-Proton9-27",
        ),
        // WineGE
        (
            Download {
                file_name: "wine-lutris-GE-Proton8-26-x86_64.tar.xz".to_owned(),
                version: "GE-Proton8-26".to_owned(),
                for_app: AppInstallations::Steam,
                hash_sum: None,
                size: 0,
                download_url: empty.clone(),
            },
            CompatTool::from_str("WineGE").unwrap(),
            "GE-Wine8-26",
        ),
    ];

    for (input, compat_tool, expected) in test_cases {
        let output = compat_tool.installation_name(&input.version);
        println!("Input: {:#?}", input);
        println!("Output: {:?}", output);
        println!("Expected: {:?}", expected);
        assert!(output == expected, "{} Should match: {}", output, expected);
    }
}

#[test]
fn github_test_get_download_name() {
    let empty = "".to_owned();

    let test_cases = vec![
        // "GE-Proton
        (
            protonup::github::Download {
                version: "GE-Proton9-27".to_owned(),
                sha512sum_url: empty.clone(),
                size: 0,
                download_url: empty.clone(),
            },
            CompatTool::from_str("GEProton").unwrap(),
            "GE-Proton9-27",
        ),
        // WineGE
        (
            protonup::github::Download {
                version: "GE-Proton8-26".to_owned(),
                sha512sum_url: empty.clone(),
                size: 0,
                download_url: empty.clone(),
            },
            CompatTool::from_str("WineGE").unwrap(),
            "GE-Wine8-26",
        ),
    ];

    for (input, source, expected) in test_cases {
        let output = input.output_dir(&source);
        println!("Input: {:#?}", input);
        println!("Output: {:?}", output);
        println!("Expected: {:?}", expected);
        assert!(output == expected, "{} Should match: {}", output, expected);
        println!();
    }
}

fn asset(name: &str, size: u64, url: &str) -> Asset {
    Asset {
        name: name.to_owned(),
        size,
        browser_download_url: url.to_owned(),
    }
}

/// A release with a payload and a SHA-512 manifest resolves into one
/// download holding the payload's name, URL and size and the
/// manifest's URL and digest family.
#[test]
fn resolve_release_with_manifest() {
    let tool = CompatTool::from_str("GEProton").unwrap();
    let release = Release {
        tag_name: "GE-Proton9-27".to_owned(),
        assets: vec![
            asset(
                "GE-Proton9-27.sha512sum",
                128,
                "https://example.invalid/dl/GE-Proton9-27.sha512sum",
            ),
            asset(
                "GE-Proton9-27.tar.gz",
                1000,
                "https://example.invalid/dl/GE-Proton9-27.tar.gz",
            ),
            asset(
                "GE-Proton9-27-extra.tar.gz",
                999,
                "https://example.invalid/dl/GE-Proton9-27-extra.tar.gz",
            ),
        ],
    };
    let d = release.get_download_info(&AppInstallations::Steam, &tool);
    assert_eq!(d.version, "GE-Proton9-27");
    assert_eq!(d.file_name, "GE-Proton9-27.tar.gz");
    assert_eq!(
        d.download_url,
        "https://example.invalid/dl/GE-Proton9-27.tar.gz"
    );
    assert_eq!(d.size, 1000);
    let h = d.hash_sum.expect("manifest expected");
    assert_eq!(
        h.sum_content,
        "https://example.invalid/dl/GE-Proton9-27.sha512sum"
    );
    assert_eq!(h.sum_type, HashSumType::Sha512);
    assert_eq!(d.for_app, AppInstallations::Steam);
}

/// A release without any manifest asset resolves with no checksum
/// reference: absence is not an error.
#[test]
fn resolve_release_without_manifest() {
    let tool = CompatTool::from_str("GEProton").unwrap();
    let release = Release {
        tag_name: "GE-Proton9-1".to_owned(),
        assets: vec![asset(
            "GE-Proton9-1.tar.gz",
            5,
            "https://example.invalid/a/GE-Proton9-1.tar.gz",
        )],
    };
    let d = release.get_download_info(&AppInstallations::Lutris, &tool);
    assert!(d.hash_sum.is_none());
    assert_eq!(d.file_name, "GE-Proton9-1.tar.gz");
}

/// Releases with no asset passing filter and extension are dropped, so
/// index 0 of the result is the newest usable release.
#[test]
fn usable_releases_drops_empty_releases() {
    let tool = CompatTool::new_custom(
        "dxvk".to_owned(),
        Forge::GitHub,
        "acct".to_owned(),
        "repo".to_owned(),
        ToolType::Runtime,
        Some(r"^dxvk-\d+\.\d+(?:\.\d+)?\.tar\.gz$".to_owned()),
        None,
        None,
    );
    let good = Release {
        tag_name: "v2.6".to_owned(),
        assets: vec![asset("dxvk-2.6.tar.gz", 10, "https://x.invalid/dxvk-2.6.tar.gz")],
    };
    let source_only = Release {
        tag_name: "v2.5".to_owned(),
        assets: vec![asset("source.zip", 10, "https://x.invalid/source.zip")],
    };
    let wrong_name = Release {
        tag_name: "v2.4".to_owned(),
        assets: vec![asset(
            "dxvk-2.4.beta.tar.gz",
            10,
            "https://x.invalid/dxvk-2.4.beta.tar.gz",
        )],
    };
    let kept = usable_releases(
        &tool,
        vec![good.clone(), source_only.clone(), wrong_name.clone()],
    );
    assert_eq!(kept.len(), 1);
    assert_eq!(kept[0].tag_name, "v2.6");
}

#[test]
fn download_file_name_is_last_url_segment() {
    let a = asset("x.tar.gz", 1, "https://example.invalid/path/to/x.tar.gz");
    assert_eq!(a.dowload_file_name(), "x.tar.gz");
    let b = asset("y", 1, "no-slashes-here");
    assert_eq!(b.dowload_file_name(), "no-slashes-here");
}

#[test]
fn sources_for_app_filters_by_compatibility() {
    let steam: Vec<String> = CompatTool::sources_for_app(&App::Steam)
        .into_iter()
        .map(|t| t.name)
        .collect();
    assert_eq!(steam, vec!["GEProton".to_owned(), "Luxtorpeda".to_owned()]);

    let lutris: Vec<String> = CompatTool::sources_for_app(&App::Lutris)
        .into_iter()
        .map(|t| t.name)
        .collect();
    assert_eq!(lutris, vec!["WineGE".to_owned()]);
}

#[test]
fn installation_name_applies_replacement_and_template() {
    let tool = CompatTool::new_custom(
        "t".to_owned(),
        Forge::GitHub,
        "a".to_owned(),
        "r".to_owned(),
        ToolType::WineBased,
        None,
        Some(("Proton".to_owned(), "Wine".to_owned())),
        Some("lutris-{version}-x86_64".to_owned()),
    );
    assert_eq!(
        tool.installation_name("GE-Proton8-26"),
        "lutris-GE-Wine8-26-x86_64"
    );
}

/// An uncompilable filter lets nothing through; an absent filter lets
/// everything through.
#[test]
fn filter_asset_edge_cases() {
    let broken = CompatTool::new_custom(
        "t".to_owned(),
        Forge::GitHub,
        "a".to_owned(),
        "r".to_owned(),
        ToolType::WineBased,
        Some("(unclosed".to_owned()),
        None,
        None,
    );
    assert!(!broken.filter_asset("anything.tar.gz"));

    let open = CompatTool::new_custom(
        "t".to_owned(),
        Forge::GitHub,
        "a".to_owned(),
        "r".to_owned(),
        ToolType::WineBased,
        None,
        None,
        None,
    );
    assert!(open.filter_asset("anything-at-all"));
}

#[test]
fn github_resolve_release() {
    let release = protonup::github::Release {
        tag_name: "GE-Proton8-5".to_owned(),
        assets: vec![
            asset("GE-Proton8-5.sha512sum", 1, "https://x.invalid/GE-Proton8-5.sha512sum"),
            asset("GE-Proton8-5.tar.gz", 77, "https://x.invalid/GE-Proton8-5.tar.gz"),
        ],
    };
    let d = release.get_download_info();
    assert_eq!(d.version, "GE-Proton8-5");
    assert_eq!(d.sha512sum_url, "https://x.invalid/GE-Proton8-5.sha512sum");
    assert_eq!(d.download_url, "https://x.invalid/GE-Proton8-5.tar.gz");
    assert_eq!(d.size, 77);
}

/// The normalized install name invariant: a name that would be empty,
/// absolute, or climb above the install base is refused before it can
/// become part of a path.
#[test]
fn checked_installation_name_upholds_the_invariant() {
    let plain = CompatTool::from_str("GEProton").unwrap();
    assert_eq!(
        plain.checked_installation_name("GE-Proton9-27").as_deref(),
        Some("GE-Proton9-27")
    );
    assert!(plain.checked_installation_name("").is_none());
    assert!(plain.checked_installation_name("..").is_none());
    assert!(plain.checked_installation_name("../../escape").is_none());
    assert!(plain.checked_installation_name("/etc").is_none());
    assert!(plain.checked_installation_name(".").is_none());
    // A naming rule that manufactures a traversal is caught too.
    let hostile = CompatTool::new_custom(
        "t".to_owned(),
        Forge::GitHub,
        "a".to_owned(),
        "r".to_owned(),
        ToolType::WineBased,
        None,
        Some(("v1".to_owned(), "..".to_owned())),
        None,
    );
    assert!(hostile.checked_installation_name("v1").is_none());
    // Nested names that stay below the base pass.
    assert_eq!(
        plain.checked_installation_name("a/b").as_deref(),
        Some("a/b")
    );
}

/// The download path lands in a fresh temporary directory and is named
/// `<version>.<canonical extension>`; an unsupported suffix is
/// rejected before any directory is created.
#[test]
fn download_dir_names_file_by_version_and_extension() {
    let d = Download {
        file_name: "tool.tgz".to_owned(),
        for_app: AppInstallations::Steam,
        version: "GE-Proton9-27".to_owned(),
        hash_sum: None,
        download_url: "https://x.invalid/tool.tgz".to_owned(),
        size: 0,
    };
    let path = d.download_dir().unwrap();
    assert!(path.ends_with("/GE-Proton9-27.tar.gz"), "got {}", path);

    let bad = Download {
        download_url: "https://x.invalid/tool.zip".to_owned(),
        ..d
    };
    assert!(bad.download_dir().is_err());
}
