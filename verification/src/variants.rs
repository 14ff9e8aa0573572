//! The historical pair of GE tool flavours and their repository
//! coordinates, kept for callers that predate the tool catalog.

use vstd::prelude::*;

use crate::text::to_owned_str;

verus! {

use vstd::string::*;

/// Repository coordinates a release listing is requested from.
pub struct VariantParameters {
    /// The variant these parameters belong to.
    pub variant_ref: Variant,
    /// URL of the repository server.
    pub repository_url: String,
    /// Account owning the repository.
    pub repository_account: String,
    /// Name of the repository.
    pub repository_name: String,
}

/// A GE tool flavour: GE-Proton for Steam or Wine-GE for Lutris.
#[derive(Debug, Clone, Copy, PartialEq, Eq, Structural)]
pub enum Variant {
    GEProton,
    WineGE,
}

impl VariantParameters {
    /// Parameters pointing at a custom repository.
    pub fn new_custom(
        variant: Variant,
        repository_url: String,
        repository_account: String,
        repository_name: String,
    ) -> (r: VariantParameters)
        ensures
            r.variant_ref == variant,
            r.repository_url@ == repository_url@,
            r.repository_account@ == repository_account@,
            r.repository_name@ == repository_name@,
    {
        VariantParameters { variant_ref: variant, repository_url, repository_account, repository_name }
    }

    /// The variant these parameters belong to.
    pub fn variant_type(&self) -> (r: &Variant)
        ensures
            *r == self.variant_ref,
    {
        &self.variant_ref
    }
}

impl Variant {
    /// The display name of the variant.
    pub fn name(&self) -> (r: String)
        ensures
            r@ == (match self {
                Variant::GEProton => "GEProton"@,
                Variant::WineGE => "WineGE"@,
            }),
    {
        match self {
            Variant::GEProton => to_owned_str("GEProton"),
            Variant::WineGE => to_owned_str("WineGE"),
        }
    }

    /// The application the variant is meant for.
    pub fn intended_application(&self) -> (r: &str)
        ensures
            r@ == (match self {
                Variant::GEProton => "Steam"@,
                Variant::WineGE => "Lutris"@,
            }),
    {
        match self {
            Variant::GEProton => "Steam",
            Variant::WineGE => "Lutris",
        }
    }

    /// The default repository coordinates of the variant.
    pub fn parameters(&self) -> (r: VariantParameters)
        ensures
            r.variant_ref == *self,
            r.repository_url@ == crate::GITHUB_URL@,
            r.repository_account@ == "GloriousEggroll"@,
            r.repository_name@ == (match self {
                Variant::GEProton => "proton-ge-custom"@,
                Variant::WineGE => "wine-ge-custom"@,
            }),
    {
        match self {
            Variant::GEProton => VariantParameters {
                variant_ref: Variant::GEProton,
                repository_url: to_owned_str(crate::GITHUB_URL),
                repository_name: to_owned_str("proton-ge-custom"),
                repository_account: to_owned_str("GloriousEggroll"),
            },
            Variant::WineGE => VariantParameters {
                variant_ref: Variant::WineGE,
                repository_url: to_owned_str(crate::GITHUB_URL),
                repository_name: to_owned_str("wine-ge-custom"),
                repository_account: to_owned_str("GloriousEggroll"),
            },
        }
    }
}

/// Parses a variant from its display name.
impl core::str::FromStr for Variant {
    type Err = ();

    fn from_str(input: &str) -> Result<Variant, ()> {
        let n: usize = input.unicode_len();
        proof {
            reveal_strlit("GEProton");
            reveal_strlit("WineGE");
        }
        if n == 8 && crate::text::match_at_exec(input, "GEProton", 0) {
            Ok(Variant::GEProton)
        } else if n == 6 && crate::text::match_at_exec(input, "WineGE", 0) {
            Ok(Variant::WineGE)
        } else {
            Err(())
        }
    }
}

} // verus!
