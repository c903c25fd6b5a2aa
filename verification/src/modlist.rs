//! Decisions of the mod-enablement manifest collaborator: deriving the
//! bare mod name from a downloaded file name, and choosing which names to
//! append to an existing list.

use vstd::prelude::*;

use crate::strutil::{
    ends_with, ends_with_spec, find_char, find_char_idx, strings_view, vec_contains_string,
};

verus! {

/// A `name_version.zip` file name carries the bare name before the first
/// `_`; any other file name is taken as the bare name itself.
pub open spec fn spec_clean_mod_name(s: Seq<char>) -> Seq<char> {
    if find_char_idx(s, '_') < s.len() && ends_with_spec(s, ".zip"@) {
        s.take(find_char_idx(s, '_'))
    } else {
        s
    }
}

pub fn clean_mod_name(file_name: &str) -> (r: String)
    ensures
        r@ == spec_clean_mod_name(file_name@),
{
    let n = file_name.unicode_len();
    let u = find_char(file_name, '_');
    if u < n && ends_with(file_name, ".zip") {
        let head = file_name.substring_char(0, u);
        proof {
            assert(head@ =~= file_name@.take(find_char_idx(file_name@, '_')));
        }
        head.to_owned()
    } else {
        file_name.to_owned()
    }
}

/// The cleaned names among `names` that are not already listed in
/// `existing`, in order. The existing list is not extended along the way,
/// matching the manifest writer's append-only behaviour.
pub open spec fn spec_mods_to_add(names: Seq<Seq<char>>, existing: Seq<Seq<char>>) -> Seq<
    Seq<char>,
>
    decreases names.len(),
{
    if names.len() == 0 {
        Seq::empty()
    } else {
        let c = spec_clean_mod_name(names[0]);
        let rest = spec_mods_to_add(names.skip(1), existing);
        if existing.contains(c) {
            rest
        } else {
            seq![c] + rest
        }
    }
}

pub fn mods_to_add(mod_names: &Vec<String>, existing: &Vec<String>) -> (r: Vec<String>)
    ensures
        strings_view(r@) =~= spec_mods_to_add(strings_view(mod_names@), strings_view(existing@)),
{
    let ghost full = strings_view(mod_names@);
    let ghost ex = strings_view(existing@);
    let n = mod_names.len();
    let mut out: Vec<String> = Vec::new();
    proof {
        assert(full.skip(0) =~= full);
        assert(strings_view(out@) =~= Seq::<Seq<char>>::empty());
    }
    let mut i: usize = 0;
    while i < n
        invariant
            0 <= i <= n,
            n == mod_names@.len(),
            full == strings_view(mod_names@),
            ex == strings_view(existing@),
            strings_view(out@) + spec_mods_to_add(full.skip(i as int), ex) =~= spec_mods_to_add(
                full,
                ex,
            ),
        decreases n - i,
    {
        proof {
            assert(full.skip(i as int)[0] == full[i as int]);
            assert(full[i as int] == mod_names@[i as int]@);
            assert(full.skip(i as int).skip(1) =~= full.skip(i + 1));
        }
        let ghost old_out = out@;
        let clean = clean_mod_name(mod_names[i].as_str());
        if !vec_contains_string(existing, clean.as_str()) {
            let ghost c = clean@;
            out.push(clean);
            proof {
                assert(strings_view(out@) =~= strings_view(old_out).push(c));
                assert(strings_view(old_out).push(c) + spec_mods_to_add(full.skip(i + 1), ex)
                    =~= strings_view(old_out) + (seq![c] + spec_mods_to_add(full.skip(i + 1), ex)));
            }
        }
        i = i + 1;
    }
    proof {
        assert(full.skip(n as int) =~= Seq::<Seq<char>>::empty());
        assert(strings_view(out@) + Seq::<Seq<char>>::empty() =~= strings_view(out@));
    }
    out
}

} // verus!
