//! The plain GitHub release resolver: SHA-512 manifest plus tar
//! archive, matched by file name suffix alone, with no per-tool filter.
//!
//! [`crate::downloads`] holds the newer, filter-aware resolver; this
//! one serves callers that only deal in the two fixed asset roles.

use vstd::prelude::*;

pub use crate::downloads::Asset;
use crate::downloads::AssetView;
use crate::sources::{spec_installation_name, CompatTool};
use crate::text::{ends_with_seq, ends_with_str};

verus! {

use vstd::string::*;

/// One release of a repository: its version tag and its assets.
#[derive(Debug, Clone)]
pub struct Release {
    /// Tag name of the release.
    pub tag_name: String,
    /// The release's downloadable assets.
    pub assets: Vec<Asset>,
}

impl Release {
    /// The release's tag, as listings display it.
    pub fn display_tag(&self) -> (r: &str)
        ensures
            r@ == self.tag_name@,
    {
        self.tag_name.as_str()
    }
}

/// A list of releases, newest first.
pub type ReleaseList = Vec<Release>;

/// The asset is a SHA-512 manifest: its name ends in the plain marker
/// or the `sha512sum` file suffix.
pub open spec fn is_sha_asset(name: Seq<char>) -> bool {
    ends_with_seq(name, "sha512sum"@) || ends_with_seq(name, "sha512"@)
}

/// The asset is an installable archive: its name ends in one of the
/// two tar suffixes this resolver accepts.
pub open spec fn is_tar_asset(name: Seq<char>) -> bool {
    ends_with_seq(name, "tar.gz"@) || ends_with_seq(name, "tar.xz"@)
}

/// The first SHA-512 manifest asset of `assets`, in order.
pub open spec fn first_sha_asset(assets: Seq<AssetView>) -> Option<AssetView>
    decreases assets.len(),
{
    if assets.len() == 0 {
        None
    } else if is_sha_asset(assets[0].name) {
        Some(assets[0])
    } else {
        first_sha_asset(assets.skip(1))
    }
}

/// The first archive asset of `assets`, in order.
pub open spec fn first_tar_asset(assets: Seq<AssetView>) -> Option<AssetView>
    decreases assets.len(),
{
    if assets.len() == 0 {
        None
    } else if is_tar_asset(assets[0].name) {
        Some(assets[0])
    } else {
        first_tar_asset(assets.skip(1))
    }
}

/// A manifest suffix and an archive suffix cannot share a name: they
/// end in different characters.
proof fn lemma_sha_not_tar(name: Seq<char>)
    requires
        is_sha_asset(name),
    ensures
        !is_tar_asset(name),
{
    reveal_strlit("sha512sum");
    reveal_strlit("sha512");
    reveal_strlit("tar.gz");
    reveal_strlit("tar.xz");
    let n = name.len() as int;
    if ends_with_seq(name, "sha512sum"@) {
        assert(name.subrange(n - 9, n)[8] == 'm');
    } else {
        assert(name.subrange(n - 6, n)[5] == '2');
    }
    if ends_with_seq(name, "tar.gz"@) {
        assert(name.subrange(n - 6, n)[5] == 'z');
        assert(name[n - 1] == 'z');
    }
    if ends_with_seq(name, "tar.xz"@) {
        assert(name.subrange(n - 6, n)[5] == 'z');
        assert(name[n - 1] == 'z');
    }
}

/// Everything needed to download one release: the archive URL, the
/// manifest URL, and the reported size.
#[derive(Debug, Clone, PartialEq)]
pub struct Download {
    /// The release's version tag.
    pub version: String,
    /// Download URL of the SHA-512 manifest, empty where none exists.
    pub sha512sum_url: String,
    /// Download URL of the archive, empty where none matched.
    pub download_url: String,
    /// The archive's reported size in bytes.
    pub size: u64,
}

impl Release {
    /// Resolves this release into a [`Download`]: the first SHA-512
    /// manifest asset and the first archive asset supply the two URLs;
    /// a missing role leaves its URL empty.
    pub fn get_download_info(&self) -> (r: Download)
        ensures
            r.version@ == self.tag_name@,
            match first_sha_asset(self.assets@.map_values(|a: Asset| a@)) {
                Some(a) => r.sha512sum_url@ == a.url,
                None => r.sha512sum_url@ == Seq::<char>::empty(),
            },
            match first_tar_asset(self.assets@.map_values(|a: Asset| a@)) {
                Some(a) => r.download_url@ == a.url && r.size == a.size,
                None => r.download_url@ == Seq::<char>::empty() && r.size == 0,
            },
    {
        let ghost av = self.assets@.map_values(|a: Asset| a@);
        let mut sha_url: Option<String> = None;
        let mut tar: Option<(String, u64)> = None;
        let mut i: usize = 0;
        proof {
            assert(av.skip(0) =~= av);
        }
        while i < self.assets.len()
            invariant
                av == self.assets@.map_values(|a: Asset| a@),
                0 <= i <= self.assets@.len(),
                match sha_url {
                    None => first_sha_asset(av.skip(i as int)) == first_sha_asset(av),
                    Some(u) => first_sha_asset(av) matches Some(a) && a.url == u@,
                },
                match tar {
                    None => first_tar_asset(av.skip(i as int)) == first_tar_asset(av),
                    Some(t) => first_tar_asset(av) matches Some(a) && a.url == t.0@ && a.size
                        == t.1,
                },
            decreases self.assets@.len() - i,
        {
            proof {
                assert(av.skip(i as int)[0] == av[i as int]);
                assert(av.skip(i as int).skip(1) =~= av.skip(i + 1));
            }
            let name = self.assets[i].name.as_str();
            if sha_url.is_none() && (ends_with_str(name, "sha512sum") || ends_with_str(
                name,
                "sha512",
            )) {
                proof {
                    lemma_sha_not_tar(name@);
                }
                sha_url = Some(self.assets[i].browser_download_url.clone());
            } else if tar.is_none() && (ends_with_str(name, "tar.gz") || ends_with_str(
                name,
                "tar.xz",
            )) {
                tar = Some((self.assets[i].browser_download_url.clone(), self.assets[i].size));
            }
            i = i + 1;
        }
        proof {
            assert(av.skip(av.len() as int) =~= Seq::<AssetView>::empty());
        }
        Download {
            version: self.tag_name.clone(),
            sha512sum_url: match sha_url {
                Some(u) => u,
                None => String::new(),
            },
            download_url: match &tar {
                Some(t) => t.0.clone(),
                None => String::new(),
            },
            size: match &tar {
                Some(t) => t.1,
                None => 0,
            },
        }
    }
}

impl Download {
    /// The install-directory name for this download under the naming
    /// rules of `source`: its version tag run through the tool's
    /// find/replace rule and file name template.
    ///
    /// This is the naming rule alone; anything that joins the result
    /// onto an install directory goes through
    /// [`CompatTool::checked_installation_name`], which guards the
    /// install-name invariant.
    pub fn output_dir(&self, source: &CompatTool) -> (r: String)
        ensures
            r@ == spec_installation_name(source@, self.version@),
    {
        source.installation_name(self.version.as_str())
    }
}

} // verus!
