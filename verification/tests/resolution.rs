use factorio_mod_downloader::model::{
    Config, DownloadPlan, InfoJson, ModInfo, Release, ResolveError,
};
use factorio_mod_downloader::plan::dedup_plan;
use factorio_mod_downloader::report::{empty_batch_report, no_mods_report, ReportBuilder};
use factorio_mod_downloader::resolve::Resolver;
use factorio_mod_downloader::select::find_compatible_release;

fn release(version: &str, factorio_version: &str, deps: &[&str]) -> Release {
    Release {
        version: version.to_string(),
        download_url: format!("https://mods-storage.re146.dev/x/{}.zip", version),
        file_name: format!("x_{}.zip", version),
        released_at: "2024-01-01T00:00:00Z".to_string(),
        sha1: "0000000000000000000000000000000000000000".to_string(),
        info_json: InfoJson {
            factorio_version: factorio_version.to_string(),
            dependencies: deps.iter().map(|d| d.to_string()).collect(),
        },
    }
}

fn mod_info(name: &str, releases: Vec<Release>) -> ModInfo {
    ModInfo {
        name: name.to_string(),
        title: name.to_string(),
        summary: String::new(),
        downloads_count: 0,
        owner: "tester".to_string(),
        releases,
    }
}

fn config(target: &str) -> Config {
    Config {
        target_factorio_version: target.to_string(),
        target_mod_version: None,
        install_optional_deps: true,
        install_optional_all_deps: false,
        max_depth: 10,
    }
}

/// Drives one resolution pass to completion against an in-memory registry,
/// returning the plan and the identifiers fetched, in order.
fn run(mut resolver: Resolver, registry: &[(&str, ModInfo)]) -> (Vec<DownloadPlan>, Vec<String>) {
    let mut fetched = Vec::new();
    loop {
        match resolver.next_fetch() {
            None => break,
            Some(id) => {
                fetched.push(id.clone());
                match registry.iter().find(|(n, _)| *n == id.as_str()) {
                    Some((_, info)) => resolver.deliver(info),
                    None => resolver.fetch_failed(),
                }
            }
        }
    }
    (resolver.into_plan(), fetched)
}

fn plan_names(plan: &[DownloadPlan]) -> Vec<&str> {
    plan.iter().map(|p| p.mod_name.as_str()).collect()
}

#[test]
fn selector_picks_last_major_match() {
    let info = mod_info(
        "x",
        vec![release("0.1", "1.0", &[]), release("0.2", "1.1", &[]), release("0.3", "2.0", &[])],
    );
    let rel = find_compatible_release(&info, &config("1"), false).unwrap();
    assert_eq!(rel.info_json.factorio_version, "1.1");
    assert_eq!(rel.version, "0.2");
}

#[test]
fn selector_picks_exact_minor_match() {
    let info = mod_info(
        "x",
        vec![release("0.1", "1.0", &[]), release("0.2", "1.1", &[]), release("0.3", "2.0", &[])],
    );
    let rel = find_compatible_release(&info, &config("1.1"), false).unwrap();
    assert_eq!(rel.info_json.factorio_version, "1.1");
}

#[test]
fn selector_fails_without_compatible_release() {
    let info = mod_info(
        "x",
        vec![release("0.1", "1.0", &[]), release("0.2", "1.1", &[]), release("0.3", "2.0", &[])],
    );
    assert_eq!(
        find_compatible_release(&info, &config("3"), false).unwrap_err(),
        ResolveError::NoCompatibleRelease
    );
}

#[test]
fn selector_exact_root_version() {
    let info = mod_info(
        "x",
        vec![release("0.1", "1.0", &[]), release("0.2", "1.0", &[])],
    );
    let mut cfg = config("1.0");
    cfg.target_mod_version = Some("0.1".to_string());
    let rel = find_compatible_release(&info, &cfg, true).unwrap();
    assert_eq!(rel.version, "0.1");

    cfg.target_mod_version = Some("9.9".to_string());
    assert_eq!(
        find_compatible_release(&info, &cfg, true).unwrap_err(),
        ResolveError::VersionNotFound
    );

    // A non-root lookup ignores the exact version request.
    let rel = find_compatible_release(&info, &cfg, false).unwrap();
    assert_eq!(rel.version, "0.2");
}

#[test]
fn dedup_keeps_first_occurrence() {
    let entry = |name: &str, version: &str| DownloadPlan {
        mod_name: name.to_string(),
        version: version.to_string(),
        file_name: format!("{}_{}.zip", name, version),
    };
    let plan = vec![entry("a", "1.0"), entry("b", "1.0"), entry("a", "2.0")];
    let unique = dedup_plan(&plan);
    assert_eq!(plan_names(&unique), vec!["a", "b"]);
    assert_eq!(unique[0].version, "1.0");
}

#[test]
fn dedup_is_idempotent() {
    let entry = |name: &str, version: &str| DownloadPlan {
        mod_name: name.to_string(),
        version: version.to_string(),
        file_name: format!("{}_{}.zip", name, version),
    };
    let plan = vec![entry("a", "1.0"), entry("b", "1.0"), entry("a", "2.0"), entry("b", "3.0")];
    let once = dedup_plan(&plan);
    let twice = dedup_plan(&once);
    assert_eq!(once.len(), twice.len());
    for (x, y) in once.iter().zip(twice.iter()) {
        assert_eq!(x.mod_name, y.mod_name);
        assert_eq!(x.version, y.version);
        assert_eq!(x.file_name, y.file_name);
    }
}

#[test]
fn resolver_fetches_diamond_once() {
    let registry = vec![
        ("a", mod_info("a", vec![release("1.0", "2.0", &["b", "c"])])),
        ("b", mod_info("b", vec![release("1.0", "2.0", &["d"])])),
        ("c", mod_info("c", vec![release("1.0", "2.0", &["d"])])),
        ("d", mod_info("d", vec![release("1.0", "2.0", &[])])),
    ];
    let (plan, fetched) = run(Resolver::new("a".to_string(), config("2.0")), &registry);
    assert_eq!(fetched, vec!["a", "b", "d", "c"]);
    assert_eq!(plan_names(&plan), vec!["a", "b", "d", "c"]);
}

#[test]
fn resolver_survives_dependency_cycle() {
    let registry = vec![
        ("a", mod_info("a", vec![release("1.0", "2.0", &["b"])])),
        ("b", mod_info("b", vec![release("1.0", "2.0", &["a"])])),
    ];
    let (plan, fetched) = run(Resolver::new("a".to_string(), config("2.0")), &registry);
    assert_eq!(fetched, vec!["a", "b"]);
    assert_eq!(plan_names(&plan), vec!["a", "b"]);
}

#[test]
fn resolver_truncates_at_max_depth() {
    let registry = vec![
        ("a", mod_info("a", vec![release("1.0", "2.0", &["b"])])),
        ("b", mod_info("b", vec![release("1.0", "2.0", &["c"])])),
        ("c", mod_info("c", vec![release("1.0", "2.0", &[])])),
    ];
    let mut cfg = config("2.0");
    cfg.max_depth = 1;
    let (plan, fetched) = run(Resolver::new("a".to_string(), cfg), &registry);
    assert_eq!(fetched, vec!["a", "b"]);
    assert_eq!(plan_names(&plan), vec!["a", "b"]);
}

#[test]
fn resolver_skips_base_dependencies() {
    let registry = vec![
        ("alpha", mod_info("alpha", vec![release("1.0", "2.0", &["base", "core", "beta"])])),
        ("beta", mod_info("beta", vec![release("1.0", "2.0", &[])])),
    ];
    let (plan, fetched) = run(Resolver::new("alpha".to_string(), config("2.0")), &registry);
    assert_eq!(fetched, vec!["alpha", "beta"]);
    assert_eq!(plan_names(&plan), vec!["alpha", "beta"]);
}

#[test]
fn optional_policy_direct_off_transitive_on() {
    let registry = vec![
        ("root", mod_info("root", vec![release("1.0", "2.0", &["?opt-direct", "req"])])),
        ("req", mod_info("req", vec![release("1.0", "2.0", &["?opt-deep"])])),
        ("opt-direct", mod_info("opt-direct", vec![release("1.0", "2.0", &[])])),
        ("opt-deep", mod_info("opt-deep", vec![release("1.0", "2.0", &[])])),
    ];
    let mut cfg = config("2.0");
    cfg.install_optional_deps = false;
    cfg.install_optional_all_deps = true;
    let (plan, fetched) = run(Resolver::new("root".to_string(), cfg), &registry);
    assert!(!fetched.iter().any(|f| f == "opt-direct"));
    assert_eq!(plan_names(&plan), vec!["root", "req", "opt-deep"]);
}

#[test]
fn end_to_end_unreachable_optional_and_incompatibility() {
    // gamma is unreachable (its fetch fails); delta is declared
    // incompatible and must never even be attempted.
    let registry = vec![
        ("alpha", mod_info("alpha", vec![release("1.0", "2.0", &["beta", "?gamma", "!delta"])])),
        ("beta", mod_info("beta", vec![release("1.0", "2.0", &[])])),
    ];
    let (plan, fetched) = run(Resolver::new("alpha".to_string(), config("2.0")), &registry);
    assert_eq!(plan_names(&plan), vec!["alpha", "beta"]);
    assert!(fetched.iter().any(|f| f == "gamma"));
    assert!(!fetched.iter().any(|f| f == "delta"));
}

#[test]
fn resolver_root_exact_version_applies_only_at_root() {
    let registry = vec![
        ("a", mod_info("a", vec![release("1.0", "2.0", &["b"]), release("2.0", "2.0", &[])])),
        ("b", mod_info("b", vec![release("1.0", "2.0", &[]), release("2.0", "2.0", &[])])),
    ];
    let mut cfg = config("2.0");
    cfg.target_mod_version = Some("1.0".to_string());
    let (plan, _) = run(Resolver::new("a".to_string(), cfg), &registry);
    assert_eq!(plan.len(), 2);
    assert_eq!(plan[0].version, "1.0");
    // The dependency is not bound by the root's exact version request.
    assert_eq!(plan[1].version, "2.0");
}

#[test]
fn resolver_base_root_yields_empty_plan() {
    let registry = vec![];
    let (plan, fetched) = run(Resolver::new("base".to_string(), config("2.0")), &registry);
    assert!(plan.is_empty());
    assert!(fetched.is_empty());
}

#[test]
fn resolver_unreachable_root_yields_empty_plan() {
    let registry = vec![];
    let (plan, fetched) = run(Resolver::new("ghost".to_string(), config("2.0")), &registry);
    assert!(plan.is_empty());
    assert_eq!(fetched, vec!["ghost"]);
}

#[test]
fn report_accumulates_and_finalizes() {
    let mut b = ReportBuilder::new(true);
    b.record_success("alpha", "1.0", 100);
    b.record_success("beta", "2.0", 200);
    b.record_failure("gamma", "Could not download mod file");
    assert!(!b.should_stop());
    let report = b.finish();
    assert!(!report.success);
    assert_eq!(report.downloaded_mods, vec!["alpha", "beta"]);
    assert_eq!(report.total_size, 300);
    assert_eq!(report.failed_mods.len(), 1);
    assert_eq!(report.failed_mods[0].0, "gamma");
}

#[test]
fn report_success_iff_no_failures() {
    let mut b = ReportBuilder::new(true);
    b.record_success("alpha", "1.0", 1);
    assert!(b.finish().success);
    let mut b = ReportBuilder::new(true);
    b.record_failure("alpha", "boom");
    assert!(!b.finish().success);
}

#[test]
fn sequential_mode_stops_after_failure() {
    let mut b = ReportBuilder::new(false);
    assert!(!b.should_stop());
    b.record_failure("alpha", "boom");
    assert!(b.should_stop());
    let mut b = ReportBuilder::new(true);
    b.record_failure("alpha", "boom");
    assert!(!b.should_stop());
}

#[test]
fn seeded_resolution_failures_surface_in_report() {
    let failures = vec![("badurl".to_string(), "Could not extract mod ID from input".to_string())];
    let b = ReportBuilder::with_failures(failures, true);
    let report = b.finish();
    assert!(!report.success);
    assert_eq!(report.failed_mods[0].0, "badurl");
}

#[test]
fn empty_and_no_mods_reports() {
    let r = empty_batch_report();
    assert!(!r.success);
    assert_eq!(r.failed_mods, vec![("batch".to_string(), "No mod URLs provided".to_string())]);
    let r = no_mods_report("alpha");
    assert!(!r.success);
    assert_eq!(r.failed_mods, vec![("alpha".to_string(), "No compatible mods found".to_string())]);
}

#[test]
fn batch_shares_common_dependency_once() {
    let registry = vec![
        ("root1", mod_info("root1", vec![release("1.0", "2.0", &["shared-lib"])])),
        ("root2", mod_info("root2", vec![release("1.0", "2.0", &["shared-lib"])])),
        ("shared-lib", mod_info("shared-lib", vec![release("1.0", "2.0", &[])])),
    ];
    let mut combined: Vec<DownloadPlan> = Vec::new();
    for root in ["root1", "root2"] {
        let (plan, _) = run(Resolver::new(root.to_string(), config("2.0")), &registry);
        combined.extend(plan);
    }
    let unique = dedup_plan(&combined);
    assert_eq!(plan_names(&unique), vec!["root1", "shared-lib", "root2"]);

    // Download each distinct artifact exactly once; sizes per artifact.
    let size_of = |name: &str| match name {
        "root1" => 100u64,
        "root2" => 200u64,
        "shared-lib" => 50u64,
        _ => panic!("unplanned artifact"),
    };
    let mut b = ReportBuilder::new(true);
    for entry in &unique {
        b.record_success(&entry.mod_name, &entry.version, size_of(&entry.mod_name));
    }
    let report = b.finish();
    assert!(report.success);
    assert_eq!(
        report.downloaded_mods.iter().filter(|n| n.as_str() == "shared-lib").count(),
        1
    );
    assert_eq!(report.total_size, 350);
}
