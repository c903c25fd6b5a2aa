//! Core data model: mod metadata as returned by the registry, dependency
//! records, the resolver configuration, download plan entries, and the
//! error taxonomy, together with their mathematical views.

use vstd::prelude::*;

verus! {

/// One published release of a mod, with the platform version it targets
/// and its raw dependency declarations.
#[derive(Debug)]
pub struct Release {
    pub version: String,
    pub download_url: String,
    pub file_name: String,
    pub released_at: String,
    pub sha1: String,
    pub info_json: InfoJson,
}

#[derive(Debug)]
pub struct InfoJson {
    pub factorio_version: String,
    pub dependencies: Vec<String>,
}

/// Registry metadata for one mod. `releases` is ordered ascending by
/// recency as returned by the registry; "pick latest compatible" relies
/// on that order.
#[derive(Debug)]
pub struct ModInfo {
    pub name: String,
    pub title: String,
    pub summary: String,
    pub downloads_count: u64,
    pub owner: String,
    pub releases: Vec<Release>,
}

/// A dependency declaration after parsing: the referenced mod and whether
/// the declaration marked it optional.
#[derive(Debug)]
pub struct Dependency {
    pub name: String,
    pub optional: bool,
}

/// The minimal record needed to fetch and store one artifact.
#[derive(Debug)]
pub struct DownloadPlan {
    pub mod_name: String,
    pub version: String,
    pub file_name: String,
}

/// Configuration of one resolution pass; immutable for its duration.
#[derive(Debug)]
pub struct Config {
    pub target_factorio_version: String,
    pub target_mod_version: Option<String>,
    pub install_optional_deps: bool,
    pub install_optional_all_deps: bool,
    pub max_depth: usize,
}

/// Successful installs (name, version) and failures (identifier, message)
/// accumulated over one download phase.
#[derive(Debug)]
pub struct DownloadStats {
    pub installed: Vec<(String, String)>,
    pub failed: Vec<(String, String)>,
}

/// Why a step of resolution or download failed.
#[derive(Debug, Clone, Copy, PartialEq, Eq)]
pub enum ResolveError {
    IdentifierExtractionFailed,
    MetadataFetchFailed,
    VersionNotFound,
    NoCompatibleRelease,
    ArtifactFetchFailed,
    FilesystemWriteFailed,
}

impl ResolveError {
    /// A fixed human-readable message for each failure kind.
    pub fn message(&self) -> (r: String)
        ensures
            r@ == match *self {
                ResolveError::IdentifierExtractionFailed => "Could not extract mod ID from input"@,
                ResolveError::MetadataFetchFailed => "Could not fetch mod metadata"@,
                ResolveError::VersionNotFound => "Requested version not found"@,
                ResolveError::NoCompatibleRelease => "No compatible release found"@,
                ResolveError::ArtifactFetchFailed => "Could not download mod file"@,
                ResolveError::FilesystemWriteFailed => "Could not write mod file"@,
            },
    {
        match *self {
            ResolveError::IdentifierExtractionFailed => "Could not extract mod ID from input".to_owned(),
            ResolveError::MetadataFetchFailed => "Could not fetch mod metadata".to_owned(),
            ResolveError::VersionNotFound => "Requested version not found".to_owned(),
            ResolveError::NoCompatibleRelease => "No compatible release found".to_owned(),
            ResolveError::ArtifactFetchFailed => "Could not download mod file".to_owned(),
            ResolveError::FilesystemWriteFailed => "Could not write mod file".to_owned(),
        }
    }
}

pub ghost struct InfoJsonView {
    pub factorio_version: Seq<char>,
    pub dependencies: Seq<Seq<char>>,
}

pub ghost struct ReleaseView {
    pub version: Seq<char>,
    pub download_url: Seq<char>,
    pub file_name: Seq<char>,
    pub released_at: Seq<char>,
    pub sha1: Seq<char>,
    pub info_json: InfoJsonView,
}

pub ghost struct ModInfoView {
    pub name: Seq<char>,
    pub title: Seq<char>,
    pub summary: Seq<char>,
    pub downloads_count: u64,
    pub owner: Seq<char>,
    pub releases: Seq<ReleaseView>,
}

pub ghost struct DependencyView {
    pub name: Seq<char>,
    pub optional: bool,
}

pub ghost struct PlanView {
    pub mod_name: Seq<char>,
    pub version: Seq<char>,
    pub file_name: Seq<char>,
}

pub ghost struct ConfigView {
    pub target_factorio_version: Seq<char>,
    pub target_mod_version: Option<Seq<char>>,
    pub install_optional_deps: bool,
    pub install_optional_all_deps: bool,
    pub max_depth: nat,
}

impl View for InfoJson {
    type V = InfoJsonView;

    open spec fn view(&self) -> InfoJsonView {
        InfoJsonView {
            factorio_version: self.factorio_version@,
            dependencies: crate::strutil::strings_view(self.dependencies@),
        }
    }
}

impl View for Release {
    type V = ReleaseView;

    open spec fn view(&self) -> ReleaseView {
        ReleaseView {
            version: self.version@,
            download_url: self.download_url@,
            file_name: self.file_name@,
            released_at: self.released_at@,
            sha1: self.sha1@,
            info_json: self.info_json@,
        }
    }
}

impl View for ModInfo {
    type V = ModInfoView;

    open spec fn view(&self) -> ModInfoView {
        ModInfoView {
            name: self.name@,
            title: self.title@,
            summary: self.summary@,
            downloads_count: self.downloads_count,
            owner: self.owner@,
            releases: releases_view(self.releases@),
        }
    }
}

impl View for Dependency {
    type V = DependencyView;

    open spec fn view(&self) -> DependencyView {
        DependencyView { name: self.name@, optional: self.optional }
    }
}

impl View for DownloadPlan {
    type V = PlanView;

    open spec fn view(&self) -> PlanView {
        PlanView {
            mod_name: self.mod_name@,
            version: self.version@,
            file_name: self.file_name@,
        }
    }
}

impl View for Config {
    type V = ConfigView;

    open spec fn view(&self) -> ConfigView {
        ConfigView {
            target_factorio_version: self.target_factorio_version@,
            target_mod_version: match self.target_mod_version {
                Some(v) => Some(v@),
                None => None,
            },
            install_optional_deps: self.install_optional_deps,
            install_optional_all_deps: self.install_optional_all_deps,
            max_depth: self.max_depth as nat,
        }
    }
}

pub open spec fn releases_view(v: Seq<Release>) -> Seq<ReleaseView> {
    v.map_values(|r: Release| r@)
}

pub open spec fn deps_view(v: Seq<Dependency>) -> Seq<DependencyView> {
    v.map_values(|d: Dependency| d@)
}

pub open spec fn plans_view(v: Seq<DownloadPlan>) -> Seq<PlanView> {
    v.map_values(|p: DownloadPlan| p@)
}

pub open spec fn pairs_view(v: Seq<(String, String)>) -> Seq<(Seq<char>, Seq<char>)> {
    v.map_values(|p: (String, String)| (p.0@, p.1@))
}

} // verus!
