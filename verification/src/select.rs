//! The compatibility selector: given a mod's metadata and the resolver
//! configuration, picks the release to install. For the root mod with a
//! requested exact version, that version must exist; otherwise the last
//! (most recent) release compatible with the target platform version wins.

use vstd::prelude::*;

use crate::model::{releases_view, Config, ModInfo, Release, ReleaseView, ResolveError};
use crate::version::{is_version_compatible, spec_version_compatible};

verus! {

pub open spec fn spec_release_compatible(r: ReleaseView, tgt: Seq<char>) -> bool {
    spec_version_compatible(r.info_json.factorio_version, tgt)
}

/// Index of the first release with exactly version `v`, if any.
pub open spec fn spec_first_exact(rels: Seq<ReleaseView>, v: Seq<char>) -> Option<int>
    decreases rels.len(),
{
    if rels.len() == 0 {
        None
    } else if rels[0].version == v {
        Some(0)
    } else {
        match spec_first_exact(rels.skip(1), v) {
            Some(i) => Some(i + 1),
            None => None,
        }
    }
}

proof fn lemma_first_exact(rels: Seq<ReleaseView>, v: Seq<char>)
    ensures
        match spec_first_exact(rels, v) {
            Some(i) => 0 <= i < rels.len() && rels[i].version == v && forall|j: int|
                0 <= j < i ==> rels[j].version != v,
            None => forall|j: int| 0 <= j < rels.len() ==> rels[j].version != v,
        },
    decreases rels.len(),
{
    if rels.len() == 0 {
    } else if rels[0].version == v {
    } else {
        lemma_first_exact(rels.skip(1), v);
        assert(forall|j: int| 1 <= j < rels.len() ==> rels[j] == rels.skip(1)[j - 1]);
    }
}

/// Index of the last release compatible with target platform version
/// `tgt`, if any.
pub open spec fn spec_last_compatible(rels: Seq<ReleaseView>, tgt: Seq<char>) -> Option<int>
    decreases rels.len(),
{
    if rels.len() == 0 {
        None
    } else if spec_release_compatible(rels.last(), tgt) {
        Some(rels.len() - 1)
    } else {
        spec_last_compatible(rels.drop_last(), tgt)
    }
}

proof fn lemma_last_compatible(rels: Seq<ReleaseView>, tgt: Seq<char>)
    ensures
        match spec_last_compatible(rels, tgt) {
            Some(i) => 0 <= i < rels.len() && spec_release_compatible(rels[i], tgt) && forall|
                j: int,
            | i < j < rels.len() ==> !spec_release_compatible(rels[j], tgt),
            None => forall|j: int| 0 <= j < rels.len() ==> !spec_release_compatible(rels[j], tgt),
        },
    decreases rels.len(),
{
    if rels.len() == 0 {
    } else if spec_release_compatible(rels.last(), tgt) {
    } else {
        lemma_last_compatible(rels.drop_last(), tgt);
        assert(forall|j: int| 0 <= j < rels.len() - 1 ==> rels[j] == rels.drop_last()[j]);
    }
}

/// The selector's outcome: the index of the chosen release, or why none
/// could be chosen.
pub open spec fn spec_select(rels: Seq<ReleaseView>, cfg: crate::model::ConfigView, is_main: bool) -> Result<
    int,
    ResolveError,
> {
    if is_main && cfg.target_mod_version is Some {
        match spec_first_exact(rels, cfg.target_mod_version.unwrap()) {
            Some(i) => Ok(i),
            None => Err(ResolveError::VersionNotFound),
        }
    } else {
        match spec_last_compatible(rels, cfg.target_factorio_version) {
            Some(i) => Ok(i),
            None => Err(ResolveError::NoCompatibleRelease),
        }
    }
}

pub fn find_compatible_release<'a>(
    mod_info: &'a ModInfo,
    config: &Config,
    is_main_mod: bool,
) -> (r: Result<&'a Release, ResolveError>)
    ensures
        ({
            let sel = spec_select(releases_view(mod_info.releases@), config@, is_main_mod);
            match r {
                Ok(rel) => sel is Ok && 0 <= sel.unwrap() < mod_info.releases@.len() && rel@
                    == releases_view(mod_info.releases@)[sel.unwrap()],
                Err(e) => sel == Err::<int, ResolveError>(e),
            }
        }),
{
    let ghost rv = releases_view(mod_info.releases@);
    let n = mod_info.releases.len();
    if is_main_mod {
        if let Some(tv) = &config.target_mod_version {
            proof {
                assert(config@.target_mod_version == Some(tv@));
            }
            let mut i: usize = 0;
            while i < n
                invariant
                    0 <= i <= n,
                    n == mod_info.releases@.len(),
                    rv == releases_view(mod_info.releases@),
                    is_main_mod,
                    config@.target_mod_version == Some(tv@),
                    forall|j: int| 0 <= j < i ==> rv[j].version != tv@,
                decreases n - i,
            {
                proof {
                    assert(rv[i as int] == mod_info.releases@[i as int]@);
                }
                if crate::strutil::str_eq(mod_info.releases[i].version.as_str(), tv.as_str()) {
                    proof {
                        lemma_first_exact(rv, tv@);
                        assert(rv[i as int].version == tv@);
                        match spec_first_exact(rv, tv@) {
                            Some(k) => {
                                if k < i {
                                    assert(rv[k].version != tv@);
                                }
                                if k > i {
                                    assert(rv[i as int].version != tv@);
                                }
                                assert(k == i);
                            },
                            None => {
                                assert(rv[i as int].version != tv@);
                            },
                        }
                    }
                    return Ok(&mod_info.releases[i]);
                }
                i = i + 1;
            }
            proof {
                lemma_first_exact(rv, tv@);
            }
            return Err(ResolveError::VersionNotFound);
        }
    }
    let mut i: usize = n;
    while i > 0
        invariant
            0 <= i <= n,
            n == mod_info.releases@.len(),
            rv == releases_view(mod_info.releases@),
            !(is_main_mod && config@.target_mod_version is Some),
            forall|j: int| i <= j < n ==> !spec_release_compatible(rv[j], config.target_factorio_version@),
        decreases i,
    {
        i = i - 1;
        proof {
            assert(rv[i as int] == mod_info.releases@[i as int]@);
        }
        if is_version_compatible(
            mod_info.releases[i].info_json.factorio_version.as_str(),
            config.target_factorio_version.as_str(),
        ) {
            proof {
                let tgt = config.target_factorio_version@;
                lemma_last_compatible(rv, tgt);
                assert(spec_release_compatible(rv[i as int], tgt));
                match spec_last_compatible(rv, tgt) {
                    Some(k) => {
                        if k > i {
                            assert(!spec_release_compatible(rv[k], tgt));
                        }
                        if k < i {
                            assert(!spec_release_compatible(rv[i as int], tgt));
                        }
                        assert(k == i);
                    },
                    None => {
                        assert(!spec_release_compatible(rv[i as int], tgt));
                    },
                }
            }
            return Ok(&mod_info.releases[i]);
        }
    }
    proof {
        lemma_last_compatible(rv, config.target_factorio_version@);
    }
    Err(ResolveError::NoCompatibleRelease)
}

} // verus!
