//! The dependency parser: turns one raw dependency declaration string into
//! at most one typed dependency record, applying the modifier rules.
//!
//! Applied in order against the trimmed declaration: an empty string yields
//! nothing; a leading `!` is an incompatibility declaration and is dropped
//! entirely; a leading `?` or `(?)` marks the dependency optional; a leading
//! `~` carries no meaning here and is stripped. The identifier is the text
//! up to the first whitespace or version-comparison character (`>`, `<`,
//! `=`); the version constraint itself is discarded. An empty identifier or
//! a base/platform pseudo-dependency yields nothing.

use vstd::prelude::*;

use crate::model::{deps_view, Dependency, DependencyView};
use crate::strutil::{
    is_space, is_space_char, starts_with, starts_with_spec, str_eq, strings_view, trim, trim_spec,
};

verus! {

/// Identifiers of functionality shipped with the host game itself; these
/// are never resolved or downloaded.
pub open spec fn spec_base_name(s: Seq<char>) -> bool {
    ||| s == "base"@
    ||| s == "core"@
    ||| s == "freeplay"@
    ||| s == "elevated-rails"@
    ||| s == "quality"@
    ||| s == "space-age"@
}

pub fn is_base_dependency(mod_name: &str) -> (r: bool)
    ensures
        r == spec_base_name(mod_name@),
{
    str_eq(mod_name, "base") || str_eq(mod_name, "core") || str_eq(mod_name, "freeplay")
        || str_eq(mod_name, "elevated-rails") || str_eq(mod_name, "quality") || str_eq(
        mod_name,
        "space-age",
    )
}

/// A character that ends the identifier token: whitespace or the start of
/// a version-comparison clause.
pub open spec fn is_stop_char(c: char) -> bool {
    is_space_char(c) || c == '>' || c == '<' || c == '='
}

/// Index of the first stop character in `s`, or `s.len()` if there is none.
pub open spec fn find_stop_idx(s: Seq<char>) -> int
    decreases s.len(),
{
    if s.len() == 0 {
        0
    } else if is_stop_char(s[0]) {
        0
    } else {
        1 + find_stop_idx(s.skip(1))
    }
}

proof fn lemma_find_stop(s: Seq<char>)
    ensures
        0 <= find_stop_idx(s) <= s.len(),
        find_stop_idx(s) < s.len() ==> is_stop_char(s[find_stop_idx(s)]),
        forall|j: int| 0 <= j < find_stop_idx(s) ==> !is_stop_char(s[j]),
    decreases s.len(),
{
    if s.len() == 0 {
    } else if is_stop_char(s[0]) {
    } else {
        lemma_find_stop(s.skip(1));
        assert forall|j: int| 0 <= j < find_stop_idx(s) implies !is_stop_char(s[j]) by {
            if j > 0 {
                assert(s.skip(1)[j - 1] == s[j]);
            }
        }
    }
}

fn find_stop(s: &str) -> (r: usize)
    ensures
        r == find_stop_idx(s@),
        0 <= r <= s@.len(),
{
    let n = s.unicode_len();
    let mut i: usize = 0;
    while i < n
        invariant
            0 <= i <= n,
            n == s@.len(),
            forall|j: int| 0 <= j < i ==> !is_stop_char(s@[j]),
        decreases n - i,
    {
        let c = s.get_char(i);
        if is_space(c) || c == '>' || c == '<' || c == '=' {
            proof {
                lemma_find_stop(s@);
            }
            return i;
        }
        i = i + 1;
    }
    proof {
        lemma_find_stop(s@);
    }
    n
}

/// What the parser produces for one raw declaration: the record, or
/// nothing when the declaration is empty, incompatible, a pure version
/// constraint, or names a base/platform pseudo-dependency.
pub open spec fn spec_parse_dependency(raw: Seq<char>) -> Option<DependencyView> {
    let t = trim_spec(raw);
    if t.len() == 0 {
        None
    } else {
        let opt0 = t[0] == '?';
        let r1 = if opt0 {
            trim_spec(t.skip(1))
        } else {
            t
        };
        if r1.len() > 0 && r1[0] == '!' {
            None
        } else {
            let r2 = if r1.len() > 0 && r1[0] == '~' {
                trim_spec(r1.skip(1))
            } else {
                r1
            };
            let paren = starts_with_spec(r2, "(?)"@);
            let r3 = if paren {
                trim_spec(r2.skip("(?)"@.len() as int))
            } else {
                r2
            };
            let name = r3.take(find_stop_idx(r3));
            if name.len() == 0 || spec_base_name(name) {
                None
            } else {
                Some(DependencyView { name, optional: opt0 || paren })
            }
        }
    }
}

/// A declaration that begins (after trimming) with `!` declares an
/// incompatibility: the parser never returns a record for it.
pub proof fn lemma_incompatibility_never_recorded(raw: Seq<char>)
    requires
        trim_spec(raw).len() > 0,
        trim_spec(raw)[0] == '!',
    ensures
        spec_parse_dependency(raw) is None,
{
}

pub fn parse_dependency(raw: &str) -> (r: Option<Dependency>)
    ensures
        match r {
            Some(d) => spec_parse_dependency(raw@) == Some(d@),
            None => spec_parse_dependency(raw@) is None,
        },
{
    let t = trim(raw);
    let tn = t.unicode_len();
    if tn == 0 {
        return None;
    }
    let opt0 = t.get_char(0) == '?';
    let r1: &str = if opt0 {
        proof {
            assert(t@.subrange(1, tn as int) =~= t@.skip(1));
        }
        trim(t.substring_char(1, tn))
    } else {
        t
    };
    let r1n = r1.unicode_len();
    if r1n > 0 && r1.get_char(0) == '!' {
        return None;
    }
    let r2: &str = if r1n > 0 && r1.get_char(0) == '~' {
        proof {
            assert(r1@.subrange(1, r1n as int) =~= r1@.skip(1));
        }
        trim(r1.substring_char(1, r1n))
    } else {
        r1
    };
    let r2n = r2.unicode_len();
    let paren = starts_with(r2, "(?)");
    let r3: &str = if paren {
        proof {
            reveal_strlit("(?)");
            assert(r2@.subrange(3, r2n as int) =~= r2@.skip(3));
        }
        trim(r2.substring_char(3, r2n))
    } else {
        r2
    };
    let stop = find_stop(r3);
    let name = r3.substring_char(0, stop);
    proof {
        assert(r3@.subrange(0, stop as int) =~= r3@.take(find_stop_idx(r3@)));
    }
    if name.unicode_len() == 0 {
        return None;
    }
    if is_base_dependency(name) {
        return None;
    }
    Some(Dependency { name: name.to_owned(), optional: opt0 || paren })
}

/// The records produced by parsing a list of raw declarations, in order.
pub open spec fn spec_parse_dependencies(deps: Seq<Seq<char>>) -> Seq<DependencyView>
    decreases deps.len(),
{
    if deps.len() == 0 {
        Seq::empty()
    } else {
        let rest = spec_parse_dependencies(deps.skip(1));
        match spec_parse_dependency(deps[0]) {
            Some(d) => seq![d] + rest,
            None => rest,
        }
    }
}

pub fn parse_dependencies(deps: &Vec<String>) -> (r: Vec<Dependency>)
    ensures
        deps_view(r@) == spec_parse_dependencies(strings_view(deps@)),
{
    let n = deps.len();
    let mut out: Vec<Dependency> = Vec::new();
    let mut i: usize = 0;
    proof {
        assert(strings_view(deps@).skip(0) =~= strings_view(deps@));
        assert(deps_view(out@) =~= Seq::<DependencyView>::empty());
    }
    while i < n
        invariant
            0 <= i <= n,
            n == deps@.len(),
            deps_view(out@) + spec_parse_dependencies(strings_view(deps@).skip(i as int))
                =~= spec_parse_dependencies(strings_view(deps@)),
        decreases n - i,
    {
        let ghost pre = strings_view(deps@).skip(i as int);
        proof {
            assert(pre[0] == deps@[i as int]@);
            assert(pre.skip(1) =~= strings_view(deps@).skip(i + 1));
        }
        let ghost old_out = out@;
        match parse_dependency(deps[i].as_str()) {
            Some(d) => {
                out.push(d);
                proof {
                    assert(deps_view(out@) =~= deps_view(old_out).push(d@));
                    assert(deps_view(old_out).push(d@) + spec_parse_dependencies(pre.skip(1))
                        =~= deps_view(old_out) + (seq![d@] + spec_parse_dependencies(pre.skip(1))));
                }
            },
            None => {},
        }
        i = i + 1;
    }
    proof {
        assert(strings_view(deps@).skip(n as int) =~= Seq::<Seq<char>>::empty());
        assert(deps_view(out@) + Seq::<DependencyView>::empty() =~= deps_view(out@));
    }
    out
}

} // verus!
