//! Shared data types of the application around the supervisor: the static
//! configuration, the version pairing between the two static-data sources,
//! and the error taxonomies their clients report with.
use vstd::prelude::*;

use crate::text::lemma_split_on_len;
use crate::text::split_on;
use crate::text::split_str;

verus! {

/// App config read from JSON at startup.
#[derive(Debug)]
pub struct AppConfig {
    pub riot_dev_key: String,
}

/// A game version as the two static-data sources name it: the full
/// `major.minor.patch` form and the `major_minor` key derived from it.
#[derive(Debug)]
pub struct Versions {
    pub ddragon: String,
    pub ugg: String,
}

/// Why fetching static data failed.
#[derive(Debug, Clone, PartialEq, Eq)]
pub enum DdragonError {
    /// No latest API version could be determined.
    NoLatestVersion,
    /// No champion data exists for this id.
    NoChampionData(String),
}

/// Why fetching per-champion statistics failed.
#[derive(Debug, Clone, Copy, PartialEq, Eq, Structural)]
pub enum UggError {
    /// No game version is supported by both sources.
    NoSupportedVersions,
    /// The data holds no entry for the requested region or rank.
    MissingRegionOrRank,
    /// The data holds no entry for the requested role.
    MissingRole,
}

impl DdragonError {
    /// The human-readable description of this error.
    pub fn message(&self) -> (r: String)
        ensures
            self is NoLatestVersion ==> r@ == "Failed to get the latest API version"@,
            self matches DdragonError::NoChampionData(id) ==> r@
                == "Failed to get champion data for id: "@ + id@,
    {
        match self {
            DdragonError::NoLatestVersion => String::from_str(
                "Failed to get the latest API version",
            ),
            DdragonError::NoChampionData(id) => {
                let mut r = String::from_str("Failed to get champion data for id: ");
                r.append(id.as_str());
                r
            },
        }
    }
}

impl UggError {
    /// The human-readable description of this error.
    pub fn message(&self) -> (r: String)
        ensures
            self is NoSupportedVersions ==> r@ == "Failed to find a supported game version"@,
            self is MissingRegionOrRank ==> r@ == "Missing region or rank entry"@,
            self is MissingRole ==> r@ == "Missing role entry"@,
    {
        match self {
            UggError::NoSupportedVersions => String::from_str(
                "Failed to find a supported game version",
            ),
            UggError::MissingRegionOrRank => String::from_str("Missing region or rank entry"),
            UggError::MissingRole => String::from_str("Missing role entry"),
        }
    }
}

/// The first `k` dot-separated components of a version string, joined with
/// underscores.
pub open spec fn joined_components(f: Seq<Seq<char>>) -> Seq<char>
    decreases f.len(),
{
    if f.len() == 0 {
        Seq::<char>::empty()
    } else if f.len() == 1 {
        f[0]
    } else {
        joined_components(f.drop_last()) + "_"@ + f.last()
    }
}

/// Joins the first `k` fields with underscores.
fn join_prefix(fields: &Vec<String>, k: usize) -> (r: String)
    requires
        k <= fields@.len(),
    ensures
        r@ == joined_components(fields@.map_values(|f: String| f@).take(k as int)),
{
    let ghost fv = fields@.map_values(|f: String| f@);
    let mut r = String::new();
    let mut i: usize = 0;
    proof {
        assert(fv.take(0) =~= Seq::<Seq<char>>::empty());
    }
    while i < k
        invariant
            0 <= i <= k <= fields@.len(),
            fv == fields@.map_values(|f: String| f@),
            r@ == joined_components(fv.take(i as int)),
        decreases k - i,
    {
        if i > 0 {
            r.append("_");
        }
        r.append(fields[i].as_str());
        proof {
            assert(fv.take(i + 1).drop_last() =~= fv.take(i as int));
            assert(fv.take(i + 1).last() == fv[i as int]);
            if i == 0 {
                assert(joined_components(fv.take(1)) == fv[0]);
            }
        }
        i += 1;
    }
    r
}

/// The statistics source names a game version by its first two components
/// (`15.1.2` becomes `15_1`).
pub open spec fn ugg_key_spec(v: Seq<char>) -> Seq<char> {
    let f = split_on(v, '.');
    if f.len() < 2 {
        joined_components(f)
    } else {
        joined_components(f.take(2))
    }
}

/// Derives the statistics source's key for a game version.
pub fn ugg_version_key(v: &str) -> (r: String)
    ensures
        r@ == ugg_key_spec(v@),
{
    let fields = split_str(v, '.');
    proof {
        lemma_split_on_len(v@, '.');
    }
    let k = if fields.len() < 2 {
        fields.len()
    } else {
        2
    };
    let r = join_prefix(&fields, k);
    proof {
        let fv = fields@.map_values(|f: String| f@);
        if fields.len() < 2 {
            assert(fv.take(fv.len() as int) =~= fv);
        }
    }
    r
}

/// The patch key of a game version: everything but the last component
/// (`15.1.2` becomes `15_1`; a bare `15` becomes the empty key).
pub open spec fn patch_key_spec(v: Seq<char>) -> Seq<char> {
    let f = split_on(v, '.');
    joined_components(f.drop_last())
}

/// Derives the patch key for a game version.
pub fn patch_version_key(v: &str) -> (r: String)
    ensures
        r@ == patch_key_spec(v@),
{
    let fields = split_str(v, '.');
    proof {
        lemma_split_on_len(v@, '.');
    }
    let r = join_prefix(&fields, fields.len() - 1);
    proof {
        let fv = fields@.map_values(|f: String| f@);
        assert(fv.take(fv.len() - 1) =~= fv.drop_last());
    }
    r
}

impl Versions {
    /// Pairs a full game version with the statistics source's key for it.
    pub fn for_game_version(v: &str) -> (r: Versions)
        ensures
            r.ddragon@ == v@,
            r.ugg@ == ugg_key_spec(v@),
    {
        Versions { ddragon: String::from_str(v), ugg: ugg_version_key(v) }
    }
}

} // verus!
