use factorio_mod_downloader::deps::{is_base_dependency, parse_dependencies, parse_dependency};
use factorio_mod_downloader::ident::{extract_mod_id, extract_version_spec};
use factorio_mod_downloader::model::ResolveError;
use factorio_mod_downloader::modlist::{clean_mod_name, mods_to_add};
use factorio_mod_downloader::urls::{artifact_url, metadata_url};
use factorio_mod_downloader::version::is_version_compatible;

#[test]
fn parser_drops_incompatibility() {
    assert!(parse_dependency("!incompatible-mod").is_none());
    assert!(parse_dependency("  !spaced-out ").is_none());
    assert!(parse_dependency("! with-space >= 1.0").is_none());
}

#[test]
fn parser_optional_marker() {
    let d = parse_dependency("?some-mod >= 1.2.0").unwrap();
    assert_eq!(d.name, "some-mod");
    assert!(d.optional);
}

#[test]
fn parser_paren_optional_marker() {
    let d = parse_dependency("(?) soft-dep").unwrap();
    assert_eq!(d.name, "soft-dep");
    assert!(d.optional);
}

#[test]
fn parser_tilde_is_not_optional() {
    let d = parse_dependency("~ load-order-free").unwrap();
    assert_eq!(d.name, "load-order-free");
    assert!(!d.optional);
}

#[test]
fn parser_strips_version_constraint_without_space() {
    let d = parse_dependency("mod-a>=1.0").unwrap();
    assert_eq!(d.name, "mod-a");
    assert!(!d.optional);
    let d = parse_dependency("mod-b<2").unwrap();
    assert_eq!(d.name, "mod-b");
    let d = parse_dependency("mod-c=1.1").unwrap();
    assert_eq!(d.name, "mod-c");
}

#[test]
fn parser_rejects_empty_and_base() {
    assert!(parse_dependency("").is_none());
    assert!(parse_dependency("   ").is_none());
    assert!(parse_dependency("base").is_none());
    assert!(parse_dependency(" space-age ").is_none());
    assert!(parse_dependency("? >= 1.0").is_none());
}

#[test]
fn parser_list_keeps_order_and_drops_noise() {
    let raw = vec![
        "beta".to_string(),
        "?gamma".to_string(),
        "!delta".to_string(),
        "base".to_string(),
        "epsilon >= 0.3.1".to_string(),
    ];
    let deps = parse_dependencies(&raw);
    let names: Vec<&str> = deps.iter().map(|d| d.name.as_str()).collect();
    assert_eq!(names, vec!["beta", "gamma", "epsilon"]);
    assert!(!deps[0].optional);
    assert!(deps[1].optional);
    assert!(!deps[2].optional);
}

#[test]
fn base_dependency_set() {
    for name in ["base", "core", "freeplay", "elevated-rails", "quality", "space-age"] {
        assert!(is_base_dependency(name));
    }
    assert!(!is_base_dependency("alpha"));
    assert!(!is_base_dependency("base-extended"));
}

#[test]
fn version_major_only_target() {
    assert!(is_version_compatible("1.1", "1"));
    assert!(is_version_compatible("1.0.3", "1"));
    assert!(!is_version_compatible("2.0", "1"));
}

#[test]
fn version_minor_must_match_when_target_has_one() {
    assert!(is_version_compatible("1.1", "1.1"));
    assert!(is_version_compatible("1.1.5", "1.1"));
    assert!(!is_version_compatible("1.0", "1.1"));
    assert!(!is_version_compatible("1", "1.1"));
    assert!(!is_version_compatible("2.1", "1.1"));
}

#[test]
fn extract_bare_identifier() {
    assert_eq!(extract_mod_id("some-mod").unwrap(), "some-mod");
    assert_eq!(extract_mod_id("  some-mod  ").unwrap(), "some-mod");
}

#[test]
fn extract_identifier_with_version_shorthand() {
    assert_eq!(extract_mod_id("some-mod@1.2.3").unwrap(), "some-mod");
    assert_eq!(extract_mod_id("some-mod@latest").unwrap(), "some-mod");
}

#[test]
fn extract_identifier_from_url() {
    assert_eq!(
        extract_mod_id("https://re146.dev/factorio/mod/alpha").unwrap(),
        "alpha"
    );
    assert_eq!(
        extract_mod_id("https://re146.dev/factorio/mod/alpha?from=search").unwrap(),
        "alpha"
    );
    assert_eq!(
        extract_mod_id("https://re146.dev/factorio/mod/alpha/").unwrap(),
        "alpha"
    );
}

#[test]
fn extract_identifier_failures() {
    assert_eq!(
        extract_mod_id("https://re146.dev/factorio/other/alpha"),
        Err(ResolveError::IdentifierExtractionFailed)
    );
    assert_eq!(
        extract_mod_id(""),
        Err(ResolveError::IdentifierExtractionFailed)
    );
    assert_eq!(
        extract_mod_id("@1.0"),
        Err(ResolveError::IdentifierExtractionFailed)
    );
}

#[test]
fn version_spec_shorthand() {
    assert_eq!(extract_version_spec("some-mod@1.2.3"), Some("1.2.3".to_string()));
    assert_eq!(extract_version_spec("some-mod"), None);
    assert_eq!(extract_version_spec("a@b@c"), None);
    assert_eq!(extract_version_spec("https://host/mod/a@1"), None);
}

#[test]
fn endpoint_urls() {
    assert_eq!(
        metadata_url("alpha"),
        "https://re146.dev/factorio/mods/modinfo?id=alpha"
    );
    assert_eq!(
        artifact_url("alpha", "1.2.0"),
        "https://mods-storage.re146.dev/alpha/1.2.0.zip"
    );
}

#[test]
fn clean_name_from_versioned_zip() {
    assert_eq!(clean_mod_name("alpha_1.2.3.zip"), "alpha");
    assert_eq!(clean_mod_name("alpha.zip"), "alpha.zip");
    assert_eq!(clean_mod_name("alpha_beta"), "alpha_beta");
    assert_eq!(clean_mod_name("plain"), "plain");
}

#[test]
fn mods_to_add_skips_listed_names() {
    let names = vec![
        "alpha_1.0.0.zip".to_string(),
        "beta_2.0.0.zip".to_string(),
        "gamma".to_string(),
    ];
    let existing = vec!["beta".to_string()];
    let added = mods_to_add(&names, &existing);
    assert_eq!(added, vec!["alpha".to_string(), "gamma".to_string()]);
}

#[test]
fn error_messages_are_fixed() {
    assert_eq!(
        ResolveError::IdentifierExtractionFailed.message(),
        "Could not extract mod ID from input"
    );
    assert_eq!(
        ResolveError::NoCompatibleRelease.message(),
        "No compatible release found"
    );
}
