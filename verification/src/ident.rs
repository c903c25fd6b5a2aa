//! Mod identifier extraction. An input is either a bare identifier, an
//! `id@version` shorthand, or a registry URL of the form `.../mod/<id>`;
//! URL extraction tolerates a trailing slash and a query string.

use vstd::prelude::*;

use crate::model::ResolveError;
use crate::strutil::{
    find_char, find_char_idx, find_sub, find_sub_idx, has_sub, match_at, trim, trim_end_slash_spec,
    trim_end_slashes, trim_spec,
};

verus! {

/// The identifier named by an input string, if one can be extracted.
pub open spec fn spec_extract_mod_id(s: Seq<char>) -> Option<Seq<char>> {
    let t = trim_spec(s);
    if has_sub(t, "://"@) {
        let u = trim_end_slash_spec(t);
        if has_sub(u, "/mod/"@) {
            let rest = u.skip(find_sub_idx(u, "/mod/"@) + "/mod/"@.len());
            let id = rest.take(find_char_idx(rest, '?'));
            if id.len() > 0 {
                Some(id)
            } else {
                None
            }
        } else {
            None
        }
    } else {
        let id = t.take(find_char_idx(t, '@'));
        if id.len() > 0 {
            Some(id)
        } else {
            None
        }
    }
}

pub fn extract_mod_id(input: &str) -> (r: Result<String, ResolveError>)
    ensures
        match r {
            Ok(id) => spec_extract_mod_id(input@) == Some(id@),
            Err(e) => spec_extract_mod_id(input@) is None && e
                == ResolveError::IdentifierExtractionFailed,
        },
{
    let t = trim(input);
    match find_sub(t, "://") {
        Some(_) => {
            let u = trim_end_slashes(t);
            match find_sub(u, "/mod/") {
                Some(i) => {
                    proof {
                        reveal_strlit("/mod/");
                        assert(match_at(u@, "/mod/"@, i as int));
                    }
                    let un = u.unicode_len();
                    let rest = u.substring_char(i + 5, un);
                    proof {
                        assert(rest@ =~= u@.skip(
                            find_sub_idx(u@, "/mod/"@) + "/mod/"@.len() as int,
                        ));
                    }
                    let q = find_char(rest, '?');
                    let id = rest.substring_char(0, q);
                    proof {
                        assert(id@ =~= rest@.take(find_char_idx(rest@, '?')));
                    }
                    if q > 0 {
                        Ok(id.to_owned())
                    } else {
                        Err(ResolveError::IdentifierExtractionFailed)
                    }
                },
                None => Err(ResolveError::IdentifierExtractionFailed),
            }
        },
        None => {
            let a = find_char(t, '@');
            let id = t.substring_char(0, a);
            proof {
                assert(id@ =~= t@.take(find_char_idx(t@, '@')));
            }
            if a > 0 {
                Ok(id.to_owned())
            } else {
                Err(ResolveError::IdentifierExtractionFailed)
            }
        },
    }
}

/// The exact version requested by an `id@version` shorthand: present when
/// the input is not a URL and contains exactly one `@`.
pub open spec fn spec_extract_version(s: Seq<char>) -> Option<Seq<char>> {
    let i = find_char_idx(s, '@');
    if !has_sub(s, "://"@) && i < s.len() && find_char_idx(s.skip(i + 1), '@') == s.len() - i - 1 {
        Some(s.skip(i + 1))
    } else {
        None
    }
}

pub fn extract_version_spec(input: &str) -> (r: Option<String>)
    ensures
        match r {
            Some(v) => spec_extract_version(input@) == Some(v@),
            None => spec_extract_version(input@) is None,
        },
{
    match find_sub(input, "://") {
        Some(_) => None,
        None => {
            let n = input.unicode_len();
            let a = find_char(input, '@');
            if a == n {
                return None;
            }
            let rest = input.substring_char(a + 1, n);
            proof {
                assert(rest@ =~= input@.skip(a + 1));
            }
            let b = find_char(rest, '@');
            if b == n - a - 1 {
                Some(rest.to_owned())
            } else {
                None
            }
        },
    }
}

} // verus!
