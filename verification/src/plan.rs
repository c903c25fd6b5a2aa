//! The plan deduplicator: collapses a resolver output (or the concatenation
//! of several roots' outputs) to one entry per mod name, keeping the first
//! occurrence; a later duplicate is discarded even when its version differs.

use vstd::prelude::*;

use crate::model::{plans_view, DownloadPlan, PlanView};
use crate::strutil::{strings_view, vec_contains_string};

verus! {

/// First-seen-wins deduplication by mod name; `seen` holds the names
/// already claimed by earlier entries.
pub open spec fn spec_dedup(s: Seq<PlanView>, seen: Set<Seq<char>>) -> Seq<PlanView>
    decreases s.len(),
{
    if s.len() == 0 {
        Seq::empty()
    } else if seen.contains(s[0].mod_name) {
        spec_dedup(s.skip(1), seen)
    } else {
        seq![s[0]] + spec_dedup(s.skip(1), seen.insert(s[0].mod_name))
    }
}

/// A mod name appears at most once in the plan.
pub open spec fn distinct_names(s: Seq<PlanView>) -> bool {
    forall|i: int, j: int| 0 <= i < j < s.len() ==> s[i].mod_name != s[j].mod_name
}

/// Deduplication output has pairwise-distinct names, none of them in `seen`.
pub proof fn lemma_dedup_distinct(s: Seq<PlanView>, seen: Set<Seq<char>>)
    ensures
        distinct_names(spec_dedup(s, seen)),
        forall|i: int| 0 <= i < spec_dedup(s, seen).len() ==> !seen.contains(
            spec_dedup(s, seen)[i].mod_name,
        ),
    decreases s.len(),
{
    if s.len() == 0 {
    } else if seen.contains(s[0].mod_name) {
        lemma_dedup_distinct(s.skip(1), seen);
    } else {
        let seen1 = seen.insert(s[0].mod_name);
        let rest = spec_dedup(s.skip(1), seen1);
        lemma_dedup_distinct(s.skip(1), seen1);
        let r = seq![s[0]] + rest;
        assert forall|i: int, j: int| 0 <= i < j < r.len() implies r[i].mod_name
            != r[j].mod_name by {
            if i == 0 {
                assert(r[j] == rest[j - 1]);
                assert(!seen1.contains(rest[j - 1].mod_name));
            } else {
                assert(r[i] == rest[i - 1]);
                assert(r[j] == rest[j - 1]);
            }
        }
        assert forall|i: int| 0 <= i < r.len() implies !seen.contains(r[i].mod_name) by {
            if i > 0 {
                assert(r[i] == rest[i - 1]);
                assert(!seen1.contains(rest[i - 1].mod_name));
            }
        }
    }
}

/// Deduplicating a plan whose names are already distinct and disjoint from
/// `seen` changes nothing.
pub proof fn lemma_dedup_of_distinct(s: Seq<PlanView>, seen: Set<Seq<char>>)
    requires
        distinct_names(s),
        forall|i: int| 0 <= i < s.len() ==> !seen.contains(s[i].mod_name),
    ensures
        spec_dedup(s, seen) == s,
    decreases s.len(),
{
    if s.len() == 0 {
        assert(spec_dedup(s, seen) =~= s);
    } else {
        let seen1 = seen.insert(s[0].mod_name);
        assert forall|i: int| 0 <= i < s.skip(1).len() implies !seen1.contains(
            s.skip(1)[i].mod_name,
        ) by {
            assert(s.skip(1)[i] == s[i + 1]);
        }
        assert forall|i: int, j: int| 0 <= i < j < s.skip(1).len() implies s.skip(1)[i].mod_name
            != s.skip(1)[j].mod_name by {
            assert(s.skip(1)[i] == s[i + 1]);
            assert(s.skip(1)[j] == s[j + 1]);
        }
        lemma_dedup_of_distinct(s.skip(1), seen1);
        assert(seq![s[0]] + s.skip(1) =~= s);
    }
}

/// Deduplication is idempotent: deduplicating a deduplicated plan yields
/// the same plan.
pub proof fn lemma_dedup_idempotent(s: Seq<PlanView>)
    ensures
        spec_dedup(spec_dedup(s, Set::empty()), Set::empty()) == spec_dedup(s, Set::empty()),
{
    lemma_dedup_distinct(s, Set::<Seq<char>>::empty());
    lemma_dedup_of_distinct(spec_dedup(s, Set::empty()), Set::<Seq<char>>::empty());
}

fn clone_plan(p: &DownloadPlan) -> (r: DownloadPlan)
    ensures
        r@ == p@,
{
    DownloadPlan {
        mod_name: p.mod_name.clone(),
        version: p.version.clone(),
        file_name: p.file_name.clone(),
    }
}

pub fn dedup_plan(plan: &Vec<DownloadPlan>) -> (r: Vec<DownloadPlan>)
    ensures
        plans_view(r@) == spec_dedup(plans_view(plan@), Set::empty()),
        distinct_names(plans_view(r@)),
{
    let ghost full = plans_view(plan@);
    let n = plan.len();
    let mut out: Vec<DownloadPlan> = Vec::new();
    let mut seen: Vec<String> = Vec::new();
    let ghost mut seen_set = Set::<Seq<char>>::empty();
    proof {
        assert(full.skip(0) =~= full);
        assert(plans_view(out@) =~= Seq::<PlanView>::empty());
    }
    let mut i: usize = 0;
    while i < n
        invariant
            0 <= i <= n,
            n == plan@.len(),
            full == plans_view(plan@),
            forall|x: Seq<char>| seen_set.contains(x) <==> strings_view(seen@).contains(x),
            plans_view(out@) + spec_dedup(full.skip(i as int), seen_set) =~= spec_dedup(
                full,
                Set::empty(),
            ),
        decreases n - i,
    {
        proof {
            assert(full.skip(i as int)[0] == full[i as int]);
            assert(full[i as int] == plan@[i as int]@);
            assert(full.skip(i as int).skip(1) =~= full.skip(i + 1));
        }
        let ghost old_out = out@;
        let ghost old_seen = seen@;
        let name = plan[i].mod_name.as_str();
        if !vec_contains_string(&seen, name) {
            let entry = clone_plan(&plan[i]);
            out.push(entry);
            seen.push(plan[i].mod_name.clone());
            proof {
                assert(strings_view(seen@) =~= strings_view(old_seen).push(name@));
                let ghost old_set = seen_set;
                seen_set = seen_set.insert(name@);
                assert forall|x: Seq<char>| seen_set.contains(x) <==> strings_view(
                    seen@,
                ).contains(x) by {
                    let sv_new = strings_view(seen@);
                    let sv_old = strings_view(old_seen);
                    if seen_set.contains(x) {
                        if x == name@ {
                            assert(sv_new[sv_new.len() - 1] == x);
                        } else {
                            assert(old_set.contains(x));
                            assert(sv_old.contains(x));
                            let k = choose|k: int| 0 <= k < sv_old.len() && sv_old[k] == x;
                            assert(sv_new[k] == x);
                        }
                        assert(sv_new.contains(x));
                    }
                    if sv_new.contains(x) {
                        let k = choose|k: int| 0 <= k < sv_new.len() && sv_new[k] == x;
                        if k < sv_old.len() {
                            assert(sv_old[k] == x);
                            assert(sv_old.contains(x));
                        } else {
                            assert(x == name@);
                        }
                    }
                }
                assert(plans_view(out@) =~= plans_view(old_out).push(full[i as int]));
                assert(plans_view(old_out).push(full[i as int]) + spec_dedup(
                    full.skip(i + 1),
                    seen_set,
                ) =~= plans_view(old_out) + (seq![full[i as int]] + spec_dedup(
                    full.skip(i + 1),
                    seen_set,
                )));
            }
        }
        i = i + 1;
    }
    proof {
        assert(full.skip(n as int) =~= Seq::<PlanView>::empty());
        assert(plans_view(out@) + Seq::<PlanView>::empty() =~= plans_view(out@));
        lemma_dedup_distinct(full, Set::<Seq<char>>::empty());
    }
    out
}

} // verus!
