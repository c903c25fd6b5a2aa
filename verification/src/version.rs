//! Platform-version compatibility: a release is compatible with the target
//! version when the major components match and, if the target specifies a
//! minor component, the release's minor component matches it too.

use vstd::prelude::*;

use crate::strutil::{find_char, find_char_idx, str_eq};

verus! {

/// The text before the first `.`, or the whole string if it has none.
pub open spec fn major_part(v: Seq<char>) -> Seq<char> {
    v.take(find_char_idx(v, '.'))
}

pub open spec fn has_dot(v: Seq<char>) -> bool {
    find_char_idx(v, '.') < v.len()
}

/// The text after the first `.`.
pub open spec fn after_dot(v: Seq<char>) -> Seq<char> {
    v.skip(find_char_idx(v, '.') + 1)
}

/// The text between the first and second `.`, or after the first `.` when
/// there is no second one.
pub open spec fn minor_part(v: Seq<char>) -> Seq<char> {
    major_part(after_dot(v))
}

/// Whether a release declaring platform version `rel` is compatible with
/// target platform version `tgt`.
pub open spec fn spec_version_compatible(rel: Seq<char>, tgt: Seq<char>) -> bool {
    &&& major_part(rel) == major_part(tgt)
    &&& (!has_dot(tgt) || (has_dot(rel) && minor_part(rel) == minor_part(tgt)))
}

pub fn is_version_compatible(mod_version: &str, target_version: &str) -> (r: bool)
    ensures
        r == spec_version_compatible(mod_version@, target_version@),
{
    let rn = mod_version.unicode_len();
    let tn = target_version.unicode_len();
    let rd = find_char(mod_version, '.');
    let td = find_char(target_version, '.');
    let rmaj = mod_version.substring_char(0, rd);
    let tmaj = target_version.substring_char(0, td);
    proof {
        assert(rmaj@ =~= major_part(mod_version@));
        assert(tmaj@ =~= major_part(target_version@));
    }
    if !str_eq(rmaj, tmaj) {
        return false;
    }
    if td == tn {
        return true;
    }
    if rd == rn {
        return false;
    }
    let rrest = mod_version.substring_char(rd + 1, rn);
    let trest = target_version.substring_char(td + 1, tn);
    proof {
        assert(rrest@ =~= after_dot(mod_version@));
        assert(trest@ =~= after_dot(target_version@));
    }
    let rd2 = find_char(rrest, '.');
    let td2 = find_char(trest, '.');
    let rmin = rrest.substring_char(0, rd2);
    let tmin = trest.substring_char(0, td2);
    proof {
        assert(rmin@ =~= minor_part(mod_version@));
        assert(tmin@ =~= minor_part(target_version@));
    }
    str_eq(rmin, tmin)
}

} // verus!
