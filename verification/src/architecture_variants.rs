//! CPU architecture variants of a release: some tools publish one
//! archive per x86-64 feature level, named by a `_vN` marker in the
//! file name.  The helpers here classify the variants, order them, and
//! pick the default for unattended runs.

use vstd::prelude::*;

use crate::downloads::{download_clone, Download, DownloadView};
use crate::text::{contains_seq, contains_str, to_owned_str};

verus! {

use vstd::string::*;

/// One architecture variant of a release, ready to be offered for
/// selection.
#[derive(Debug, Clone)]
pub struct ArchitectureVariant {
    /// The architecture variant name (`x86_64`, `x86_64_v2`, ...).
    pub name: String,
    /// Extended description of this variant.
    pub description: String,
    /// The download information for this variant.
    pub download: Download,
}

/// The feature-level code a payload file name announces: 4 down to 2
/// for the `_vN` markers, 1 for a plain `-x86_64.` build, 0 for none.
pub open spec fn spec_architecture_variant(file_name: Seq<char>) -> u8 {
    if contains_seq(file_name, "_v4"@) {
        4u8
    } else if contains_seq(file_name, "_v3"@) {
        3u8
    } else if contains_seq(file_name, "_v2"@) {
        2u8
    } else if contains_seq(file_name, "-x86_64."@) {
        1u8
    } else {
        0u8
    }
}

/// Extracts the architecture variant code from a file name, per
/// [`spec_architecture_variant`].
pub fn get_architecture_variant(file_name: &str) -> (r: u8)
    ensures
        r == spec_architecture_variant(file_name@),
{
    if contains_str(file_name, "_v4") {
        4
    } else if contains_str(file_name, "_v3") {
        3
    } else if contains_str(file_name, "_v2") {
        2
    } else if contains_str(file_name, "-x86_64.") {
        1
    } else {
        0
    }
}

/// The variant name for a feature-level code.
pub open spec fn spec_variant_name(variant_code: u8) -> Seq<char> {
    if variant_code == 1 {
        "x86_64"@
    } else if variant_code == 2 {
        "x86_64_v2"@
    } else if variant_code == 3 {
        "x86_64_v3"@
    } else if variant_code == 4 {
        "x86_64_v4"@
    } else {
        "unknown"@
    }
}

/// The variant name for a feature-level code, per
/// [`spec_variant_name`].
pub fn get_variant_name(variant_code: u8) -> (r: &'static str)
    ensures
        r@ == spec_variant_name(variant_code),
{
    match variant_code {
        1 => "x86_64",
        2 => "x86_64_v2",
        3 => "x86_64_v3",
        4 => "x86_64_v4",
        _ => "unknown",
    }
}

/// The description offered next to a feature-level code.
pub open spec fn spec_architecture_description(variant_code: u8) -> Seq<char> {
    if variant_code == 4 {
        "Experimental - optimized for AVX-512"@
    } else if variant_code == 3 {
        "Modern CPUs - optimized for AVX2"@
    } else if variant_code == 2 {
        "Recommended - optimized for SSE3"@
    } else if variant_code == 1 {
        "Universal - all x86-64 CPUs"@
    } else {
        "Unknown"@
    }
}

/// The description offered next to a feature-level code, per
/// [`spec_architecture_description`].
pub fn get_architecture_description(variant_code: u8) -> (r: String)
    ensures
        r@ == spec_architecture_description(variant_code),
{
    match variant_code {
        4 => to_owned_str("Experimental - optimized for AVX-512"),
        3 => to_owned_str("Modern CPUs - optimized for AVX2"),
        2 => to_owned_str("Recommended - optimized for SSE3"),
        1 => to_owned_str("Universal - all x86-64 CPUs"),
        _ => to_owned_str("Unknown"),
    }
}

/// The first download whose file name carries the `_v2` marker.
pub open spec fn first_v2_variant(ds: Seq<DownloadView>) -> Option<DownloadView>
    decreases ds.len(),
{
    if ds.len() == 0 {
        None
    } else if contains_seq(ds[0].file_name, "_v2"@) {
        Some(ds[0])
    } else {
        first_v2_variant(ds.skip(1))
    }
}

/// Picks the variant an unattended run installs: the first `_v2` build
/// if one exists, else the first variant offered; nothing from an
/// empty list.
pub fn default_variant(variants: &Vec<Download>) -> (r: Option<&Download>)
    ensures
        match r {
            Some(d) => match first_v2_variant(variants@.map_values(|x: Download| x@)) {
                Some(v) => d@ == v,
                None => variants@.len() > 0 && d@ == variants@[0]@,
            },
            None => variants@.len() == 0,
        },
{
    let ghost dv = variants@.map_values(|x: Download| x@);
    let mut i: usize = 0;
    proof {
        assert(dv.skip(0) =~= dv);
    }
    while i < variants.len()
        invariant
            dv == variants@.map_values(|x: Download| x@),
            0 <= i <= variants@.len(),
            first_v2_variant(dv.skip(i as int)) == first_v2_variant(dv),
        decreases variants@.len() - i,
    {
        proof {
            assert(dv.skip(i as int)[0] == dv[i as int]);
            assert(dv.skip(i as int).skip(1) =~= dv.skip(i + 1));
        }
        if contains_str(variants[i].file_name.as_str(), "_v2") {
            return Some(&variants[i]);
        }
        i = i + 1;
    }
    proof {
        assert(dv.skip(dv.len() as int) =~= Seq::<DownloadView>::empty());
    }
    if variants.len() > 0 {
        Some(&variants[0])
    } else {
        None
    }
}

/// The downloads of `ds` whose file names announce the feature level
/// `c`, in their given order.
pub open spec fn variants_with_code(ds: Seq<DownloadView>, c: u8) -> Seq<DownloadView> {
    ds.filter(|d: DownloadView| spec_architecture_variant(d.file_name) == c)
}

proof fn lemma_variants_with_code_step(ds: Seq<DownloadView>, c: u8, i: int)
    requires
        0 <= i < ds.len(),
    ensures
        variants_with_code(ds.take(i + 1), c) == (if spec_architecture_variant(ds[i].file_name)
            == c {
            variants_with_code(ds.take(i), c).push(ds[i])
        } else {
            variants_with_code(ds.take(i), c)
        }),
{
    reveal(Seq::filter);
    assert(ds.take(i + 1).drop_last() =~= ds.take(i));
    assert(ds.take(i + 1).last() == ds[i]);
}

/// One pass of [`architecture_variants_for`]: the variants of `ds`
/// with feature level `code`, each dressed with its name and
/// description.
fn variants_pass(variants: &Vec<Download>, code: u8) -> (r: Vec<ArchitectureVariant>)
    ensures
        r@.map_values(|v: ArchitectureVariant| v.download@) == variants_with_code(
            variants@.map_values(|x: Download| x@),
            code,
        ),
        forall|j: int|
            0 <= j < r@.len() ==> ((#[trigger] r@[j]).name@ == spec_variant_name(code)
                && r@[j].description@ == spec_architecture_description(code)
                && spec_architecture_variant(r@[j].download@.file_name) == code),
{
    let ghost dv = variants@.map_values(|x: Download| x@);
    let mut out: Vec<ArchitectureVariant> = Vec::new();
    let mut i: usize = 0;
    proof {
        reveal(Seq::filter);
        assert(dv.take(0) =~= Seq::<DownloadView>::empty());
        assert(out@.map_values(|v: ArchitectureVariant| v.download@) =~= variants_with_code(
            dv.take(0),
            code,
        ));
    }
    while i < variants.len()
        invariant
            dv == variants@.map_values(|x: Download| x@),
            0 <= i <= variants@.len(),
            out@.map_values(|v: ArchitectureVariant| v.download@) == variants_with_code(
                dv.take(i as int),
                code,
            ),
            forall|j: int|
                0 <= j < out@.len() ==> ((#[trigger] out@[j]).name@ == spec_variant_name(code)
                    && out@[j].description@ == spec_architecture_description(code)
                    && spec_architecture_variant(out@[j].download@.file_name) == code),
        decreases variants@.len() - i,
    {
        proof {
            lemma_variants_with_code_step(dv, code, i as int);
            assert(variants@[i as int]@ == dv[i as int]);
        }
        if get_architecture_variant(variants[i].file_name.as_str()) == code {
            let ghost prev = out@.map_values(|v: ArchitectureVariant| v.download@);
            let v = ArchitectureVariant {
                name: to_owned_str(get_variant_name(code)),
                description: get_architecture_description(code),
                download: download_clone(&variants[i]),
            };
            let ghost prevlist = out@;
            out.push(v);
            proof {
                assert(out@.map_values(|v: ArchitectureVariant| v.download@) =~= prev.push(
                    dv[i as int],
                ));
                assert(forall|j: int| 0 <= j < prevlist.len() ==> out@[j] == prevlist[j]);
                assert(out@[out@.len() - 1].name@ == spec_variant_name(code));
            }
        }
        i = i + 1;
    }
    proof {
        assert(dv.take(dv.len() as int) =~= dv);
    }
    out
}

/// The selectable architecture variants of a release, ordered by
/// feature level: every download whose file name announces a level,
/// dressed with its name and description; downloads without a marker
/// are left out.
pub fn architecture_variants_for(variants: &Vec<Download>) -> (r: Vec<ArchitectureVariant>)
    ensures
        ({
            let dv = variants@.map_values(|x: Download| x@);
            r@.map_values(|v: ArchitectureVariant| v.download@) == variants_with_code(dv, 1)
                + variants_with_code(dv, 2) + variants_with_code(dv, 3) + variants_with_code(
                dv,
                4,
            )
        }),
        forall|j: int|
            0 <= j < r@.len() ==> #[trigger] r@[j].name@ == spec_variant_name(
                spec_architecture_variant(r@[j].download@.file_name),
            ) && r@[j].description@ == spec_architecture_description(
                spec_architecture_variant(r@[j].download@.file_name),
            ),
{
    let ghost dv = variants@.map_values(|x: Download| x@);
    let mut out = variants_pass(variants, 1);
    let mut pass2 = variants_pass(variants, 2);
    let mut pass3 = variants_pass(variants, 3);
    let mut pass4 = variants_pass(variants, 4);
    let ghost g1 = out@;
    let ghost g2 = pass2@;
    let ghost g3 = pass3@;
    let ghost g4 = pass4@;
    out.append(&mut pass2);
    out.append(&mut pass3);
    out.append(&mut pass4);
    proof {
        assert(out@ =~= g1 + g2 + g3 + g4);
        assert(out@.map_values(|v: ArchitectureVariant| v.download@) =~= variants_with_code(dv, 1)
            + variants_with_code(dv, 2) + variants_with_code(dv, 3) + variants_with_code(dv, 4));
        assert forall|j: int| 0 <= j < out@.len() implies ((#[trigger] out@[j]).name@
            == spec_variant_name(spec_architecture_variant(out@[j].download@.file_name))
            && out@[j].description@ == spec_architecture_description(
            spec_architecture_variant(out@[j].download@.file_name),
        )) by {
            if j < g1.len() {
                assert(out@[j] == g1[j]);
            } else if j < g1.len() + g2.len() {
                assert(out@[j] == g2[j - g1.len()]);
            } else if j < g1.len() + g2.len() + g3.len() {
                assert(out@[j] == g3[j - g1.len() - g2.len()]);
            } else {
                assert(out@[j] == g4[j - g1.len() - g2.len() - g3.len()]);
            }
        }
    }
    out
}

} // verus!
