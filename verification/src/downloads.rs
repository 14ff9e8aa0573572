//! Release resolution: which asset of a release is the installable
//! archive, which is its checksum manifest, and where the archive is
//! downloaded to.
//!
//! An asset whose name contains a digest marker is a manifest; an asset
//! whose download file name passes the tool's filter and whose name
//! ends in a supported archive suffix is a payload.  Resolution is
//! first-match-wins in the release's asset order, for each of the two
//! roles independently.

use vstd::prelude::*;

use crate::apps::{AppInstallations, AppInstView};
use crate::files::{spec_supported_ext, check_supported_extension, FileError};
use crate::hashing::{HashSums, HashSumType};
use crate::sources::{spec_filter_asset, CompatTool, CompatToolView};
use crate::text::{
    contains_seq, contains_str, last_index_of, rfind_char, substring, to_owned_str,
};
use crate::utils::spec_join_dir;

verus! {

use vstd::string::*;

/// A single downloadable file attached to a release.
#[derive(Debug, Clone)]
pub struct Asset {
    /// The asset's file name.
    pub name: String,
    /// Its size in bytes, as the registry reports it.
    pub size: u64,
    /// The direct download URL.
    pub browser_download_url: String,
}

/// The mathematical content of an [`Asset`].
pub struct AssetView {
    pub name: Seq<char>,
    pub size: u64,
    pub url: Seq<char>,
}

impl View for Asset {
    type V = AssetView;

    open spec fn view(&self) -> AssetView {
        AssetView { name: self.name@, size: self.size, url: self.browser_download_url@ }
    }
}

/// One release of a tool: its version tag and its assets, newest
/// releases first in any list the registry hands back.
#[derive(Debug, Clone)]
pub struct Release {
    /// Tag name of the release.
    pub tag_name: String,
    /// The release's downloadable assets.
    pub assets: Vec<Asset>,
}

/// The mathematical content of a [`Release`].
pub struct ReleaseView {
    pub tag_name: Seq<char>,
    pub assets: Seq<AssetView>,
}

impl View for Release {
    type V = ReleaseView;

    open spec fn view(&self) -> ReleaseView {
        ReleaseView {
            tag_name: self.tag_name@,
            assets: self.assets@.map_values(|a: Asset| a@),
        }
    }
}

impl Release {
    /// The release's tag, as listings display it.
    pub fn display_tag(&self) -> (r: &str)
        ensures
            r@ == self.tag_name@,
    {
        self.tag_name.as_str()
    }
}

/// A list of releases, newest first.
pub type ReleaseList = Vec<Release>;

/// The final path segment of `url`: everything after the last slash,
/// or the whole string where it holds none.
pub open spec fn last_url_segment(url: Seq<char>) -> Seq<char> {
    let i = last_index_of(url, '/');
    if i < 0 {
        url
    } else {
        url.skip(i + 1)
    }
}

/// The asset's name carries the SHA-512 marker.
pub open spec fn is_sha512_name(name: Seq<char>) -> bool {
    contains_seq(name, "sha512"@)
}

/// The asset's name carries the SHA-256 marker.
pub open spec fn is_sha256_name(name: Seq<char>) -> bool {
    contains_seq(name, "sha256"@)
}

/// The asset is a checksum manifest: its name carries a digest marker.
pub open spec fn is_manifest_name(name: Seq<char>) -> bool {
    is_sha512_name(name) || is_sha256_name(name)
}

/// The digest family a manifest asset's name announces; SHA-512 wins
/// where a name carries both markers.
pub open spec fn manifest_kind(name: Seq<char>) -> HashSumType {
    if is_sha512_name(name) {
        HashSumType::Sha512
    } else {
        HashSumType::Sha256
    }
}

/// The asset is an installable payload for the tool `t`: not a
/// manifest, its download file name passes the tool's filter, and its
/// name ends in a supported archive suffix.
pub open spec fn spec_payload_asset(t: CompatToolView, a: AssetView) -> bool {
    &&& !is_manifest_name(a.name)
    &&& spec_filter_asset(t, last_url_segment(a.url))
    &&& spec_supported_ext(a.name) is Some
}

/// The first manifest asset of `assets`, in order.
pub open spec fn first_manifest(assets: Seq<AssetView>) -> Option<AssetView>
    decreases assets.len(),
{
    if assets.len() == 0 {
        None
    } else if is_manifest_name(assets[0].name) {
        Some(assets[0])
    } else {
        first_manifest(assets.skip(1))
    }
}

/// The first payload asset of `assets` for the tool `t`, in order.
pub open spec fn first_payload(t: CompatToolView, assets: Seq<AssetView>) -> Option<AssetView>
    decreases assets.len(),
{
    if assets.len() == 0 {
        None
    } else if spec_payload_asset(t, assets[0]) {
        Some(assets[0])
    } else {
        first_payload(t, assets.skip(1))
    }
}

/// Everything the pipeline needs to fetch, verify and install one
/// release: the resolved payload, the manifest reference if one exists,
/// and the installation the download is meant for.
#[derive(Debug, Clone, PartialEq)]
pub struct Download {
    /// File name of the payload asset, used to find its line in the
    /// checksum manifest.
    pub file_name: String,
    /// The installation this download is meant for.
    pub for_app: AppInstallations,
    /// The release's version tag.
    pub version: String,
    /// The manifest reference, or nothing where the release publishes
    /// no checksum.
    pub hash_sum: Option<HashSums>,
    /// Download URL of the payload asset.
    pub download_url: String,
    /// The payload's reported size in bytes.
    pub size: u64,
}

/// The mathematical content of a [`Download`].
pub struct DownloadView {
    pub file_name: Seq<char>,
    pub for_app: AppInstView,
    pub version: Seq<char>,
    pub hash_sum: Option<(Seq<char>, HashSumType)>,
    pub download_url: Seq<char>,
    pub size: u64,
}

impl View for Download {
    type V = DownloadView;

    open spec fn view(&self) -> DownloadView {
        DownloadView {
            file_name: self.file_name@,
            for_app: self.for_app@,
            version: self.version@,
            hash_sum: match self.hash_sum {
                Some(h) => Some((h.sum_content@, h.sum_type)),
                None => None,
            },
            download_url: self.download_url@,
            size: self.size,
        }
    }
}

/// A field-by-field copy of a download.
pub fn download_clone(d: &Download) -> (r: Download)
    ensures
        r@ == d@,
{
    Download {
        file_name: d.file_name.clone(),
        for_app: app_inst_clone(&d.for_app),
        version: d.version.clone(),
        hash_sum: match &d.hash_sum {
            Some(h) => Some(HashSums { sum_content: h.sum_content.clone(), sum_type: h.sum_type }),
            None => None,
        },
        download_url: d.download_url.clone(),
        size: d.size,
    }
}

impl Asset {
    /// The file name the asset downloads as: the final path segment of
    /// its URL.
    pub fn dowload_file_name(&self) -> (r: String)
        ensures
            r@ == last_url_segment(self.browser_download_url@),
    {
        let url = self.browser_download_url.as_str();
        match rfind_char(url, '/') {
            Some(i) => {
                let n: usize = url.unicode_len();
                proof {
                    crate::text::lemma_last_index_of(url@, '/');
                    assert(url@.skip(i + 1) =~= url@.subrange(i + 1, n as int));
                }
                substring(url, i + 1, n)
            },
            None => to_owned_str(url),
        }
    }
}

/// Finds the first manifest asset, per [`first_manifest`].
fn find_first_manifest(assets: &Vec<Asset>) -> (r: Option<&Asset>)
    ensures
        match r {
            Some(a) => first_manifest(assets@.map_values(|x: Asset| x@)) == Some(a@),
            None => first_manifest(assets@.map_values(|x: Asset| x@)) is None,
        },
{
    let ghost av = assets@.map_values(|x: Asset| x@);
    let mut i: usize = 0;
    proof {
        assert(av.skip(0) =~= av);
    }
    while i < assets.len()
        invariant
            av == assets@.map_values(|x: Asset| x@),
            0 <= i <= assets@.len(),
            first_manifest(av.skip(i as int)) == first_manifest(av),
        decreases assets@.len() - i,
    {
        proof {
            assert(av.skip(i as int)[0] == av[i as int]);
            assert(av.skip(i as int).skip(1) =~= av.skip(i + 1));
        }
        if contains_str(assets[i].name.as_str(), "sha512") || contains_str(
            assets[i].name.as_str(),
            "sha256",
        ) {
            return Some(&assets[i]);
        }
        i = i + 1;
    }
    proof {
        assert(av.skip(av.len() as int) =~= Seq::<AssetView>::empty());
    }
    None
}

/// Finds the first payload asset for `t`, per [`first_payload`].
fn find_first_payload<'a>(t: &CompatTool, assets: &'a Vec<Asset>) -> (r: Option<&'a Asset>)
    ensures
        match r {
            Some(a) => first_payload(t@, assets@.map_values(|x: Asset| x@)) == Some(a@),
            None => first_payload(t@, assets@.map_values(|x: Asset| x@)) is None,
        },
{
    let ghost av = assets@.map_values(|x: Asset| x@);
    let mut i: usize = 0;
    proof {
        assert(av.skip(0) =~= av);
    }
    while i < assets.len()
        invariant
            av == assets@.map_values(|x: Asset| x@),
            0 <= i <= assets@.len(),
            first_payload(t@, av.skip(i as int)) == first_payload(t@, av),
        decreases assets@.len() - i,
    {
        proof {
            assert(av.skip(i as int)[0] == av[i as int]);
            assert(av.skip(i as int).skip(1) =~= av.skip(i + 1));
        }
        let is_manifest = contains_str(assets[i].name.as_str(), "sha512") || contains_str(
            assets[i].name.as_str(),
            "sha256",
        );
        if !is_manifest {
            let url_name = assets[i].dowload_file_name();
            if t.filter_asset(url_name.as_str()) {
                if check_supported_extension(assets[i].name.clone()).is_ok() {
                    return Some(&assets[i]);
                }
            }
        }
        i = i + 1;
    }
    proof {
        assert(av.skip(av.len() as int) =~= Seq::<AssetView>::empty());
    }
    None
}

impl Release {
    /// Resolves this release for `compat_tool` into a [`Download`]:
    /// the first payload asset supplies the file name, URL and size,
    /// the first manifest asset the checksum reference; a missing
    /// payload leaves the URL empty, a missing manifest is no error.
    pub fn get_download_info(
        &self,
        for_app: &AppInstallations,
        compat_tool: &CompatTool,
    ) -> (r: Download)
        ensures
            r.for_app@ == for_app@,
            r.version@ == self.tag_name@,
            match first_payload(compat_tool@, self@.assets) {
                Some(a) => r.file_name@ == a.name && r.download_url@ == a.url && r.size == a.size,
                None => {
                    &&& r.file_name@ == Seq::<char>::empty()
                    &&& r.download_url@ == Seq::<char>::empty()
                    &&& r.size == 0
                },
            },
            match first_manifest(self@.assets) {
                Some(a) => {
                    &&& r.hash_sum matches Some(h)
                    &&& r.hash_sum->0.sum_content@ == a.url
                    &&& r.hash_sum->0.sum_type == manifest_kind(a.name)
                },
                None => r.hash_sum is None,
            },
    {
        let (file_name, download_url, size) = match find_first_payload(compat_tool, &self.assets) {
            Some(a) => (a.name.clone(), a.browser_download_url.clone(), a.size),
            None => (String::new(), String::new(), 0u64),
        };
        let hash_sum = match find_first_manifest(&self.assets) {
            Some(a) => Some(
                HashSums {
                    sum_content: a.browser_download_url.clone(),
                    sum_type: if contains_str(a.name.as_str(), "sha512") {
                        HashSumType::Sha512
                    } else {
                        HashSumType::Sha256
                    },
                },
            ),
            None => None,
        };
        Download {
            file_name,
            for_app: app_inst_clone(for_app),
            version: self.tag_name.clone(),
            hash_sum,
            download_url,
            size,
        }
    }
}

/// A field-by-field copy of an installation.
fn app_inst_clone(a: &AppInstallations) -> (r: AppInstallations)
    ensures
        r@ == a@,
{
    match a {
        AppInstallations::Steam => AppInstallations::Steam,
        AppInstallations::SteamFlatpak => AppInstallations::SteamFlatpak,
        AppInstallations::Lutris => AppInstallations::Lutris,
        AppInstallations::LutrisFlatpak => AppInstallations::LutrisFlatpak,
        AppInstallations::Custom(p) => AppInstallations::Custom(p.clone()),
    }
}

/// The release offers at least one payload asset for the tool `t`.
pub open spec fn release_has_payload(t: CompatToolView, r: ReleaseView) -> bool {
    first_payload(t, r.assets) is Some
}

/// The releases of `rs` that offer a payload for `t`, in order.
pub open spec fn spec_usable_releases(t: CompatToolView, rs: Seq<ReleaseView>) -> Seq<ReleaseView> {
    rs.filter(|r: ReleaseView| release_has_payload(t, r))
}

proof fn lemma_usable_step(t: CompatToolView, rs: Seq<ReleaseView>, i: int)
    requires
        0 <= i < rs.len(),
    ensures
        spec_usable_releases(t, rs.take(i + 1)) == (if release_has_payload(t, rs[i]) {
            spec_usable_releases(t, rs.take(i)).push(rs[i])
        } else {
            spec_usable_releases(t, rs.take(i))
        }),
{
    reveal(Seq::filter);
    assert(rs.take(i + 1).drop_last() =~= rs.take(i));
    assert(rs.take(i + 1).last() == rs[i]);
}

/// Keeps the releases that offer a payload asset for `compat_tool`, in
/// their given order, so that the head of the result is the newest
/// usable release.
pub fn usable_releases(compat_tool: &CompatTool, releases: Vec<Release>) -> (r: Vec<Release>)
    ensures
        r@.map_values(|x: Release| x@) == spec_usable_releases(
            compat_tool@,
            releases@.map_values(|x: Release| x@),
        ),
{
    let ghost rs = releases@.map_values(|x: Release| x@);
    let mut rest = releases;
    let mut out: Vec<Release> = Vec::new();
    let ghost k0: int = 0;
    proof {
        assert(rest@.map_values(|x: Release| x@) =~= rs.skip(0));
        assert(rs.take(0) =~= Seq::<ReleaseView>::empty());
        assert(out@.map_values(|x: Release| x@) =~= spec_usable_releases(compat_tool@, rs.take(0)));
    }
    while rest.len() > 0
        invariant
            rest@.map_values(|x: Release| x@) == rs.skip(rs.len() - rest@.len()),
            rest@.len() <= rs.len(),
            out@.map_values(|x: Release| x@) == spec_usable_releases(
                compat_tool@,
                rs.take(rs.len() - rest@.len()),
            ),
        decreases rest@.len(),
    {
        let ghost k = rs.len() - rest@.len();
        let ghost prev = rest@;
        proof {
            lemma_usable_step(compat_tool@, rs, k);
            assert(prev.map_values(|x: Release| x@)[0] == rs.skip(k)[0]);
            assert(rs.skip(k)[0] == rs[k]);
        }
        let rel = rest.remove(0);
        proof {
            assert(rel@ == rs[k]);
            assert(rest@ =~= prev.skip(1));
            assert(prev.map_values(|x: Release| x@) == rs.skip(k));
            assert forall|j: int| 0 <= j < rest@.len() implies #[trigger] rs.skip(k + 1)[j]
                == rest@.map_values(|x: Release| x@)[j] by {
                assert(rest@[j] == prev[j + 1]);
                assert(prev.map_values(|x: Release| x@)[j + 1] == prev[j + 1]@);
                assert(rs.skip(k)[j + 1] == rs[k + 1 + j]);
                assert(rs.skip(k + 1)[j] == rs[k + 1 + j]);
            }
            assert(rest@.map_values(|x: Release| x@) =~= rs.skip(k + 1));
        }
        let keep = find_first_payload(compat_tool, &rel.assets).is_some();
        if keep {
            let ghost prevout = out@.map_values(|x: Release| x@);
            out.push(rel);
            proof {
                assert(out@.map_values(|x: Release| x@) =~= prevout.push(rs[k]));
            }
        }
    }
    proof {
        assert(rs.skip(rs.len() - 0) =~= Seq::<ReleaseView>::empty());
        assert(rs.take(rs.len() as int) =~= rs);
    }
    out
}

/// Relies on `tempfile::tempdir` and `TempDir::keep`: creates a fresh
/// temporary directory and keeps it; where it lies depends on the
/// machine, so nothing is promised of the path.
#[verifier::external_body]
fn temp_dir_path() -> (r: Option<String>) {
    let dir = tempfile::tempdir().ok()?;
    dir.keep().to_str().map(|s| s.to_owned())
}

/// The download path for a payload: `base/<version>.<ext>`, with the
/// extension normalized from `url`; nothing where the URL's suffix is
/// unsupported.
pub open spec fn spec_download_file_path(
    base: Seq<char>,
    version: Seq<char>,
    url: Seq<char>,
) -> Option<Seq<char>> {
    match spec_supported_ext(url) {
        Some(ext) => Some(spec_join_dir(base, version + seq!['.'] + ext)),
        None => None,
    }
}

/// Builds the download path `base/<version>.<ext>` for a payload URL,
/// rejecting unsupported suffixes.
pub fn download_file_path(base: &str, version: &str, url: &str) -> (r: Result<String, FileError>)
    ensures
        match r {
            Ok(p) => spec_download_file_path(base@, version@, url@) == Some(p@),
            Err(e) => {
                &&& spec_download_file_path(base@, version@, url@) is None
                &&& e == FileError::UnsupportedExtension
            },
        },
{
    match check_supported_extension(to_owned_str(url)) {
        Ok(ext) => {
            let mut file = to_owned_str(version);
            file.append(".");
            file.append(ext.as_str());
            proof {
                reveal_strlit(".");
                assert(file@ =~= version@ + seq!['.'] + ext@);
            }
            Ok(crate::utils::join_dir(to_owned_str(base), file.as_str()))
        },
        Err(e) => Err(e),
    }
}

impl Download {
    /// The path the payload is downloaded to: a fresh temporary
    /// directory plus `<version>.<ext>`.  An unsupported URL suffix is
    /// rejected; a machine without a usable temporary directory reports
    /// [`FileError::TempDirUnavailable`].
    pub fn download_dir(&self) -> (r: Result<String, FileError>)
        ensures
            match r {
                Ok(p) => exists|base: Seq<char>|
                    spec_download_file_path(base, self.version@, self.download_url@) == Some(p@),
                Err(e) => e == FileError::TempDirUnavailable || (e
                    == FileError::UnsupportedExtension && spec_supported_ext(self.download_url@)
                    is None),
            },
    {
        let base = match temp_dir_path() {
            Some(b) => b,
            None => {
                return Err(FileError::TempDirUnavailable);
            },
        };
        let r = download_file_path(base.as_str(), self.version.as_str(), self.download_url.as_str());
        match r {
            Ok(p) => {
                proof {
                    let bv = base@;
                    assert(spec_download_file_path(bv, self.version@, self.download_url@) == Some(
                        p@,
                    ));
                }
                Ok(p)
            },
            Err(e) => Err(e),
        }
    }
}

} // verus!
