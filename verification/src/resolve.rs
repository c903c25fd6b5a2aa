//! The graph resolver: expands a root mod into a flat, ordered download
//! plan, consulting the parser and the compatibility selector, with
//! visited-set cycle protection and a maximum depth.
//!
//! Fetching metadata is the caller's job: `next_fetch` hands out the next
//! identifier to look up, and the caller reports the outcome through
//! `deliver` or `fetch_failed`. A fetch or selection failure prunes that
//! branch silently (best-effort policy: a broken dependency must not abort
//! resolution of the whole tree); the entries are produced in depth-first
//! preorder, exactly as a recursive expansion would produce them.

use vstd::prelude::*;

use crate::deps::{
    is_base_dependency, parse_dependencies, spec_base_name, spec_parse_dependencies,
};
use crate::model::{
    deps_view, plans_view, releases_view, Config, ConfigView, DependencyView, DownloadPlan,
    ModInfo, PlanView,
};
use crate::select::{find_compatible_release, spec_select};
use crate::strutil::{strings_view, vec_contains_string};

verus! {

/// Whether a dependency parsed as `optional` at the given depth is
/// installed under the optional-dependency policy: required dependencies
/// always are; a root's own optional dependencies follow `install_direct`;
/// every deeper optional dependency follows `install_transitive`.
pub open spec fn spec_should_install(
    optional: bool,
    depth: nat,
    install_direct: bool,
    install_transitive: bool,
) -> bool {
    !optional || (if depth == 0 {
        install_direct
    } else {
        install_transitive
    })
}

pub fn should_install(
    optional: bool,
    depth: usize,
    install_direct: bool,
    install_transitive: bool,
) -> (r: bool)
    ensures
        r == spec_should_install(optional, depth as nat, install_direct, install_transitive),
{
    if !optional {
        true
    } else if depth == 0 {
        install_direct
    } else {
        install_transitive
    }
}

/// With direct installation of optional dependencies off and transitive
/// installation on, a root's own optional dependency is excluded while an
/// optional dependency found at any greater depth is included.
pub proof fn lemma_optional_policy(depth: nat, install_direct: bool, install_transitive: bool)
    requires
        !install_direct,
        install_transitive,
    ensures
        !spec_should_install(true, 0, install_direct, install_transitive),
        depth > 0 ==> spec_should_install(true, depth, install_direct, install_transitive),
{
}

/// A mod waiting to be resolved, at its depth in the tree (the root is at
/// depth 0; each dependency edge adds one).
pub struct PendingFetch {
    pub id: String,
    pub depth: usize,
}

pub ghost struct PendingView {
    pub id: Seq<char>,
    pub depth: nat,
}

impl View for PendingFetch {
    type V = PendingView;

    open spec fn view(&self) -> PendingView {
        PendingView { id: self.id@, depth: self.depth as nat }
    }
}

pub open spec fn pendings_view(v: Seq<PendingFetch>) -> Seq<PendingView> {
    v.map_values(|p: PendingFetch| p@)
}

/// A dependency that contributes to the worklist: not a base/platform
/// pseudo-dependency, and admitted by the optional-dependency policy.
pub open spec fn spec_install_dep(d: DependencyView, cfg: ConfigView, depth: nat) -> bool {
    !spec_base_name(d.name) && spec_should_install(
        d.optional,
        depth,
        cfg.install_optional_deps,
        cfg.install_optional_all_deps,
    )
}

/// What one delivered release adds to the worklist: its installable
/// dependencies, one level deeper, in reverse order so that the first
/// declaration is popped (and hence resolved) first.
pub open spec fn spec_child_pushes(deps: Seq<DependencyView>, cfg: ConfigView, depth: nat) -> Seq<
    PendingView,
>
    decreases deps.len(),
{
    if deps.len() == 0 {
        Seq::empty()
    } else {
        let rest = spec_child_pushes(deps.skip(1), cfg, depth);
        if spec_install_dep(deps[0], cfg, depth) {
            rest.push(PendingView { id: deps[0].name, depth: depth + 1 })
        } else {
            rest
        }
    }
}

/// No identifier occurs twice.
pub open spec fn distinct_seqs(s: Seq<Seq<char>>) -> bool {
    forall|i: int, j: int| 0 <= i < j < s.len() ==> s[i] != s[j]
}

/// Every element of `xs` occurs in `ys`.
pub open spec fn all_contained(xs: Seq<Seq<char>>, ys: Seq<Seq<char>>) -> bool {
    forall|i: int| 0 <= i < xs.len() ==> ys.contains(xs[i])
}

pub open spec fn depths_bounded(ds: Seq<nat>, max: nat) -> bool {
    forall|i: int| 0 <= i < ds.len() ==> ds[i] <= max
}

pub open spec fn stack_depths_bounded(st: Seq<PendingFetch>, max: nat) -> bool {
    forall|i: int| 0 <= i < st.len() ==> st[i].depth as nat <= max
}

/// What one scan of the worklist from the top yields: the worklist and
/// visited set after the scan, and the entry to fetch, if any. An entry
/// already visited is dropped; a base/platform entry is dropped after
/// being marked visited; the first remaining entry is marked visited and
/// handed out.
pub open spec fn spec_scan(stack: Seq<PendingView>, visited: Seq<Seq<char>>) -> (
    Seq<PendingView>,
    Seq<Seq<char>>,
    Option<PendingView>,
)
    decreases stack.len(),
{
    if stack.len() == 0 {
        (stack, visited, None::<PendingView>)
    } else {
        let top = stack.last();
        let rest = stack.drop_last();
        if visited.contains(top.id) {
            spec_scan(rest, visited)
        } else if spec_base_name(top.id) {
            spec_scan(rest, visited.push(top.id))
        } else {
            (rest, visited.push(top.id), Some(top))
        }
    }
}

/// One resolution pass over one root mod. The ghost `fetched` sequence
/// records every identifier handed out for fetching; the ghost
/// `plan_depths` sequence records the depth at which each plan entry was
/// produced.
pub struct Resolver {
    pub config: Config,
    pub visited: Vec<String>,
    pub stack: Vec<PendingFetch>,
    pub plan: Vec<DownloadPlan>,
    pub current: Option<PendingFetch>,
    pub fetched: Ghost<Seq<Seq<char>>>,
    pub plan_depths: Ghost<Seq<nat>>,
}

impl Resolver {
    pub open spec fn visited_names(&self) -> Seq<Seq<char>> {
        strings_view(self.visited@)
    }

    /// Well-formedness, established by `new` and preserved by every
    /// method: the visited set and the fetched sequence never repeat an
    /// identifier, everything fetched was marked visited, and no recorded
    /// or pending depth exceeds the configured maximum.
    pub open spec fn wf(&self) -> bool {
        &&& distinct_seqs(self.visited_names())
        &&& distinct_seqs(self.fetched@)
        &&& all_contained(self.fetched@, self.visited_names())
        &&& self.plan_depths@.len() == self.plan@.len()
        &&& depths_bounded(self.plan_depths@, self.config.max_depth as nat)
        &&& stack_depths_bounded(self.stack@, self.config.max_depth as nat)
        &&& match self.current {
            Some(p) => p.depth as nat <= self.config.max_depth as nat,
            None => true,
        }
    }

    /// Starts a resolution pass with the root identifier queued at depth 0.
    pub fn new(root_id: String, config: Config) -> (r: Resolver)
        ensures
            r.wf(),
            r.config == config,
            r.visited@.len() == 0,
            r.plan@.len() == 0,
            r.fetched@.len() == 0,
            r.plan_depths@.len() == 0,
            r.current is None,
            pendings_view(r.stack@) =~= seq![PendingView { id: root_id@, depth: 0 }],
    {
        let mut stack: Vec<PendingFetch> = Vec::new();
        stack.push(PendingFetch { id: root_id, depth: 0 });
        Resolver {
            config,
            visited: Vec::new(),
            stack,
            plan: Vec::new(),
            current: None,
            fetched: Ghost(Seq::empty()),
            plan_depths: Ghost(Seq::empty()),
        }
    }

    /// Hands out the next identifier whose metadata must be fetched, or
    /// None when the pass is complete. An identifier already visited is
    /// skipped, and the returned one is marked visited first, so no
    /// identifier is ever handed out twice; base/platform
    /// pseudo-dependencies are skipped without being handed out.
    pub fn next_fetch(&mut self) -> (r: Option<String>)
        requires
            old(self).wf(),
            old(self).current is None,
        ensures
            final(self).wf(),
            final(self).config == old(self).config,
            final(self).plan == old(self).plan,
            final(self).plan_depths == old(self).plan_depths,
            old(self).fetched@.is_prefix_of(final(self).fetched@),
            old(self).visited_names().is_prefix_of(final(self).visited_names()),
            ({
                let scan = spec_scan(pendings_view(old(self).stack@), old(self).visited_names());
                &&& pendings_view(final(self).stack@) == scan.0
                &&& final(self).visited_names() == scan.1
                &&& match r {
                    Some(id) => final(self).current is Some && scan.2 == Some(
                        final(self).current.unwrap()@,
                    ) && final(self).current.unwrap()@.id == id@,
                    None => scan.2 is None,
                }
            }),
            match r {
                Some(id) => {
                    &&& final(self).current matches Some(p) && p.id@ == id@ && p.depth as nat
                        <= final(self).config.max_depth as nat
                    &&& !old(self).fetched@.contains(id@)
                    &&& !old(self).visited_names().contains(id@)
                    &&& final(self).fetched@ == old(self).fetched@.push(id@)
                    &&& final(self).visited_names().contains(id@)
                    &&& !spec_base_name(id@)
                },
                None => {
                    &&& final(self).current is None
                    &&& final(self).stack@.len() == 0
                    &&& final(self).fetched@ == old(self).fetched@
                },
            },
    {
        loop
            invariant
                self.wf(),
                self.current is None,
                self.config == old(self).config,
                self.plan == old(self).plan,
                self.plan_depths == old(self).plan_depths,
                self.fetched == old(self).fetched,
                old(self).visited_names().is_prefix_of(self.visited_names()),
                spec_scan(pendings_view(self.stack@), self.visited_names()) == spec_scan(
                    pendings_view(old(self).stack@),
                    old(self).visited_names(),
                ),
            decreases self.stack@.len(),
        {
            let ghost stack_pre = self.stack@;
            let ghost vn_pre = self.visited_names();
            let ghost scan_pre = spec_scan(pendings_view(stack_pre), vn_pre);
            let item_opt = self.stack.pop();
            proof {
                if stack_pre.len() > 0 {
                    assert forall|k: int| 0 <= k < self.stack@.len() implies self.stack@[k].depth
                        as nat <= self.config.max_depth as nat by {
                        assert(self.stack@[k] == stack_pre[k]);
                    }
                    assert(stack_depths_bounded(self.stack@, self.config.max_depth as nat));
                    assert(pendings_view(self.stack@) =~= pendings_view(stack_pre).drop_last());
                }
            }
            match item_opt {
                None => {
                    proof {
                        assert(pendings_view(self.stack@) =~= pendings_view(stack_pre));
                        assert(scan_pre.0 == pendings_view(self.stack@));
                        assert(scan_pre.1 == self.visited_names());
                        assert(scan_pre.2 is None);
                    }
                    return None;
                },
                Some(item) => {
                    proof {
                        assert(pendings_view(stack_pre).last() == item@);
                    }
                    if !vec_contains_string(&self.visited, item.id.as_str()) {
                        let ghost vn0 = self.visited_names();
                        let ghost f0 = self.fetched@;
                        self.visited.push(item.id.clone());
                        proof {
                            assert(self.visited_names() =~= vn0.push(item.id@));
                            lemma_push_keeps_prefix(old(self).visited_names(), vn0, item.id@);
                            assert forall|a: int, b: int|
                                0 <= a < b < self.visited_names().len() implies self.visited_names(
                            )[a] != self.visited_names()[b] by {
                                if b < vn0.len() {
                                    assert(vn0[a] != vn0[b]);
                                } else {
                                    assert(self.visited_names()[a] == vn0[a]);
                                    assert(!vn0.contains(item.id@));
                                }
                            }
                            assert(distinct_seqs(self.visited_names()));
                            assert forall|a: int|
                                0 <= a < self.fetched@.len() implies self.visited_names().contains(
                                self.fetched@[a],
                            ) by {
                                assert(vn0.contains(f0[a]));
                                lemma_push_keeps_contains(vn0, item.id@, f0[a]);
                            }
                            assert(all_contained(self.fetched@, self.visited_names()));
                        }
                        if !is_base_dependency(item.id.as_str()) {
                            let ghost vn1 = self.visited_names();
                            self.fetched = Ghost(self.fetched@.push(item.id@));
                            let id = item.id.clone();
                            proof {
                                assert(vn1[vn1.len() - 1] == item.id@);
                                assert(vn1.contains(item.id@));
                                assert forall|a: int|
                                    0 <= a < self.fetched@.len() implies vn1.contains(
                                    self.fetched@[a],
                                ) by {
                                    if a < f0.len() {
                                        assert(self.fetched@[a] == f0[a]);
                                        assert(all_contained(f0, vn1));
                                    }
                                }
                                assert(all_contained(self.fetched@, self.visited_names()));
                                assert forall|a: int, b: int|
                                    0 <= a < b < self.fetched@.len() implies self.fetched@[a]
                                    != self.fetched@[b] by {
                                    if b == self.fetched@.len() - 1 {
                                        assert(self.fetched@[a] == f0[a]);
                                        assert(vn0.contains(f0[a]));
                                        assert(!vn0.contains(item.id@));
                                    } else {
                                        assert(f0[a] != f0[b]);
                                    }
                                }
                                assert(distinct_seqs(self.fetched@));
                            }
                            self.current = Some(item);
                            proof {
                                assert(scan_pre.0 == pendings_view(self.stack@));
                                assert(scan_pre.1 == self.visited_names());
                                assert(scan_pre.2 == Some(self.current.unwrap()@));
                            }
                            return Some(id);
                        } else {
                            proof {
                                assert(spec_scan(pendings_view(self.stack@), self.visited_names())
                                    == scan_pre);
                            }
                        }
                    } else {
                        proof {
                            assert(vn_pre.contains(item.id@));
                            assert(spec_scan(pendings_view(self.stack@), self.visited_names())
                                == scan_pre);
                        }
                    }
                },
            }
        }
    }

    /// Records that the metadata fetch for the in-flight identifier
    /// failed; the branch contributes nothing to the plan.
    pub fn fetch_failed(&mut self)
        requires
            old(self).wf(),
            old(self).current is Some,
        ensures
            final(self).wf(),
            final(self).current is None,
            final(self).config == old(self).config,
            final(self).visited == old(self).visited,
            final(self).stack == old(self).stack,
            final(self).plan == old(self).plan,
            final(self).plan_depths == old(self).plan_depths,
            final(self).fetched == old(self).fetched,
    {
        self.current = None;
    }

    /// Processes the metadata fetched for the in-flight identifier:
    /// selects a release (exact-version selection applies only at depth
    /// 0, the root), appends one plan entry for the mod, and queues the
    /// release's installable dependencies one level deeper — none when the
    /// entry already sits at the depth limit (silent truncation). When no
    /// release can be selected the branch is pruned.
    pub fn deliver(&mut self, info: &ModInfo)
        requires
            old(self).wf(),
            old(self).current is Some,
        ensures
            final(self).wf(),
            final(self).current is None,
            final(self).config == old(self).config,
            final(self).visited == old(self).visited,
            final(self).fetched == old(self).fetched,
            ({
                let depth = old(self).current.unwrap().depth as nat;
                let cfg = old(self).config@;
                let sel = spec_select(releases_view(info.releases@), cfg, depth == 0);
                match sel {
                    Err(_) => final(self).plan == old(self).plan && final(self).plan_depths == old(
                        self,
                    ).plan_depths && final(self).stack == old(self).stack,
                    Ok(idx) => {
                        let rel = releases_view(info.releases@)[idx];
                        &&& plans_view(final(self).plan@) =~= plans_view(old(self).plan@).push(
                            PlanView {
                                mod_name: info.name@,
                                version: rel.version,
                                file_name: rel.file_name,
                            },
                        )
                        &&& final(self).plan_depths@ == old(self).plan_depths@.push(depth)
                        &&& pendings_view(final(self).stack@) =~= pendings_view(old(self).stack@)
                            + (if depth < cfg.max_depth {
                            spec_child_pushes(
                                spec_parse_dependencies(rel.info_json.dependencies),
                                cfg,
                                depth,
                            )
                        } else {
                            Seq::<PendingView>::empty()
                        })
                    },
                }
            }),
    {
        let depth = self.current.as_ref().unwrap().depth;
        self.current = None;
        let release = match find_compatible_release(info, &self.config, depth == 0) {
            Ok(r) => r,
            Err(_) => {
                return ;
            },
        };
        let entry = DownloadPlan {
            mod_name: info.name.clone(),
            version: release.version.clone(),
            file_name: release.file_name.clone(),
        };
        let ghost plan0 = self.plan@;
        let ghost depths0 = self.plan_depths@;
        self.plan.push(entry);
        self.plan_depths = Ghost(self.plan_depths@.push(depth as nat));
        proof {
            assert(plans_view(self.plan@) =~= plans_view(plan0).push(
                PlanView {
                    mod_name: info.name@,
                    version: release.version@,
                    file_name: release.file_name@,
                },
            ));
            assert forall|k: int| 0 <= k < self.plan_depths@.len() implies self.plan_depths@[k]
                <= self.config.max_depth as nat by {
                if k < depths0.len() {
                    assert(self.plan_depths@[k] == depths0[k]);
                    assert(depths_bounded(depths0, self.config.max_depth as nat));
                }
            }
            assert(depths_bounded(self.plan_depths@, self.config.max_depth as nat));
        }
        if depth >= self.config.max_depth {
            proof {
                assert(pendings_view(self.stack@) =~= pendings_view(old(self).stack@)
                    + Seq::<PendingView>::empty());
            }
            return ;
        }
        let deps = parse_dependencies(&release.info_json.dependencies);
        let ghost dv = deps_view(deps@);
        let ghost stack0 = pendings_view(self.stack@);
        let ghost plan1 = self.plan;
        let ghost depths1 = self.plan_depths;
        let n = deps.len();
        proof {
            assert(dv.skip(n as int) =~= Seq::<DependencyView>::empty());
            assert(stack0 + Seq::<PendingView>::empty() =~= stack0);
        }
        let mut i: usize = n;
        while i > 0
            invariant
                0 <= i <= n,
                n == deps@.len(),
                dv == deps_view(deps@),
                depth < self.config.max_depth,
                self.config == old(self).config,
                self.visited == old(self).visited,
                self.fetched == old(self).fetched,
                self.current is None,
                self.plan == plan1,
                self.plan_depths == depths1,
                distinct_seqs(self.visited_names()),
                distinct_seqs(self.fetched@),
                all_contained(self.fetched@, self.visited_names()),
                self.plan_depths@.len() == self.plan@.len(),
                depths_bounded(self.plan_depths@, self.config.max_depth as nat),
                stack_depths_bounded(self.stack@, self.config.max_depth as nat),
                pendings_view(self.stack@) =~= stack0 + spec_child_pushes(
                    dv.skip(i as int),
                    self.config@,
                    depth as nat,
                ),
            decreases i,
        {
            i = i - 1;
            proof {
                assert(dv.skip(i as int)[0] == dv[i as int]);
                assert(dv[i as int] == deps@[i as int]@);
                assert(dv.skip(i as int).skip(1) =~= dv.skip(i + 1));
            }
            let install = should_install(
                deps[i].optional,
                depth,
                self.config.install_optional_deps,
                self.config.install_optional_all_deps,
            );
            if install && !is_base_dependency(deps[i].name.as_str()) {
                let ghost st_pre = self.stack@;
                self.stack.push(PendingFetch { id: deps[i].name.clone(), depth: depth + 1 });
                proof {
                    let item = PendingView { id: dv[i as int].name, depth: depth as nat + 1 };
                    assert(pendings_view(self.stack@) =~= pendings_view(st_pre).push(item));
                    assert(spec_child_pushes(dv.skip(i as int), self.config@, depth as nat)
                        == spec_child_pushes(dv.skip(i + 1), self.config@, depth as nat).push(
                        item,
                    ));
                    assert(stack0 + spec_child_pushes(
                        dv.skip(i + 1),
                        self.config@,
                        depth as nat,
                    ).push(item) =~= (stack0 + spec_child_pushes(
                        dv.skip(i + 1),
                        self.config@,
                        depth as nat,
                    )).push(item));
                    assert forall|k: int| 0 <= k < self.stack@.len() implies self.stack@[k].depth
                        as nat <= self.config.max_depth as nat by {
                        if k < st_pre.len() {
                            assert(self.stack@[k] == st_pre[k]);
                            assert(stack_depths_bounded(st_pre, self.config.max_depth as nat));
                        }
                    }
                    assert(stack_depths_bounded(self.stack@, self.config.max_depth as nat));
                }
            } else {
                proof {
                    assert(!spec_install_dep(dv[i as int], self.config@, depth as nat));
                }
            }
        }
        proof {
            assert(dv.skip(0) =~= dv);
            let rv = releases_view(info.releases@);
            let sel = spec_select(rv, old(self).config@, depth == 0);
            let rel = rv[sel.unwrap()];
            assert(release@ == rel);
            assert(rel.info_json.dependencies == strings_view(release.info_json.dependencies@));
            assert(dv == spec_parse_dependencies(rel.info_json.dependencies));
        }
    }

    /// The accumulated plan, in depth-first preorder; complete once
    /// `next_fetch` has returned None.
    pub fn into_plan(self) -> (r: Vec<DownloadPlan>)
        ensures
            r == self.plan,
    {
        self.plan
    }
}

/// Within one resolution pass the visited set guarantees that each mod
/// identifier is handed out for fetching at most once, even when the
/// dependency graph contains diamonds or cycles: the sequence of fetched
/// identifiers never repeats.
pub proof fn lemma_fetched_at_most_once(r: &Resolver)
    requires
        r.wf(),
    ensures
        forall|i: int, j: int| 0 <= i < j < r.fetched@.len() ==> r.fetched@[i] != r.fetched@[j],
{
}

/// No plan entry is produced beyond the configured maximum depth: entry
/// `k` of the plan was delivered at depth `plan_depths[k]`, and every
/// recorded depth is bounded by `max_depth`.
pub proof fn lemma_plan_depth_bounded(r: &Resolver)
    requires
        r.wf(),
    ensures
        r.plan_depths@.len() == r.plan@.len(),
        forall|k: int|
            0 <= k < r.plan_depths@.len() ==> r.plan_depths@[k] <= r.config.max_depth as nat,
{
}

proof fn lemma_push_keeps_contains(s: Seq<Seq<char>>, x: Seq<char>, y: Seq<char>)
    requires
        s.contains(y),
    ensures
        s.push(x).contains(y),
{
    let k = choose|k: int| 0 <= k < s.len() && s[k] == y;
    assert(s.push(x)[k] == y);
}

proof fn lemma_push_keeps_prefix(p: Seq<Seq<char>>, s: Seq<Seq<char>>, x: Seq<char>)
    requires
        p.is_prefix_of(s),
    ensures
        p.is_prefix_of(s.push(x)),
{
    assert(s.push(x).subrange(0, p.len() as int) =~= p);
}

} // verus!
