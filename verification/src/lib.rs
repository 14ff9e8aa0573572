//! Resolution, verification and unpacking logic for versioned
//! compressed-archive releases of Wine/Proton compatibility tools.
//!
//! The crate covers the computational core of an installer pipeline:
//! deciding which release asset is the installable archive and which is
//! its checksum manifest, deriving install-directory names from version
//! tags, checking a downloaded file against a checksum manifest, and
//! rewriting archive entry paths so every install lands under a
//! normalized directory name.  Network and filesystem plumbing live
//! outside the crate and hand plain values in.

pub mod apps;
pub mod architecture_variants;
pub mod downloads;
pub mod files;
pub mod github;
pub mod hashing;
pub mod launchers;
pub mod pipeline;
pub mod sources;
pub mod text;
pub mod utils;
pub mod variants;

use vstd::prelude::*;

verus! {

/// Client identifier sent with registry requests.
pub const USER_AGENT: &'static str = "protoup-rs";

/// Release-registry endpoint that repository paths are appended to.
pub const GITHUB_URL: &'static str = "https://api.github.com/repos";

/// Name of the compatibility tool installed for Steam by default.
pub const DEFAULT_STEAM_TOOL: &'static str = "GEProton";

/// Name of the compatibility tool installed for Lutris by default.
pub const DEFAULT_LUTRIS_TOOL: &'static str = "WineGE";

} // verus!
