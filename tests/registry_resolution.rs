use discord_bot::registry::{
    check_plugin_version_usability, find_plugin_version_match, parse_plugin_string, resolve_step,
    ConfigPlugin, Registries, Registry, RegistryPlugin, RegistryPluginVersion, ResolutionStep, ResolveError,
};
use discord_bot::permissions::Permissions;

fn version(v: &str, compat: &str, deprecated: bool) -> RegistryPluginVersion {
    RegistryPluginVersion {
        version: v.to_string(),
        deprecated: if deprecated { Some((true, "old".to_string())) } else { None },
        compatible_program_version: compat.to_string(),
    }
}

fn registry(id: &str, versions: Vec<RegistryPluginVersion>) -> Registry {
    Registry {
        name: "plugins".to_string(),
        description: "test registry".to_string(),
        maintainers: vec!["someone".to_string()],
        plugins: vec![(
            id.to_string(),
            RegistryPlugin {
                versions,
                deprecated: None,
                description: "a plugin".to_string(),
                release_time: "2025-01-01".to_string(),
            },
        )],
    }
}

#[test]
fn parse_reference_with_defaults() {
    let (reg, id, ver) = parse_plugin_string("greeter");
    assert_eq!(reg, "celarye/discord-bot-plugins");
    assert_eq!(id, "greeter");
    assert_eq!(ver, "latest");
}

#[test]
fn parse_reference_with_registry_and_version() {
    let (reg, id, ver) = parse_plugin_string("owner/repo/greeter:1.0.0");
    assert_eq!(reg, "owner/repo");
    assert_eq!(id, "greeter");
    assert_eq!(ver, "1.0.0");
}

#[test]
fn usability_needs_prefix_and_no_deprecation() {
    assert!(check_plugin_version_usability(&version("1.0.0", "0.1", false), "p", "0.1.3"));
    assert!(!check_plugin_version_usability(&version("1.0.0", "0.2", false), "p", "0.1.3"));
    assert!(!check_plugin_version_usability(&version("1.0.0", "0.1", true), "p", "0.1.3"));
    // a compatible version longer than the host version is not compatible
    assert!(!check_plugin_version_usability(&version("1.0.0", "0.1.3.9", false), "p", "0.1.3"));
}

#[test]
fn latest_picks_newest_usable() {
    let vs = vec![
        version("1.0.0", "0.1", false),
        version("1.1.0", "0.1", false),
        version("1.2.0", "0.1", true),
        version("2.0.0", "0.2", false),
    ];
    assert_eq!(find_plugin_version_match("latest", &vs, "p", "0.1.3"), Some("1.1.0".to_string()));
}

#[test]
fn explicit_version_accepts_deprecated_but_needs_compatibility() {
    let vs = vec![version("1.0.0", "0.1", true), version("2.0.0", "0.2", false)];
    assert_eq!(find_plugin_version_match("1.0.0", &vs, "p", "0.1.3"), Some("1.0.0".to_string()));
    assert_eq!(find_plugin_version_match("2.0.0", &vs, "p", "0.1.3"), None);
    assert_eq!(find_plugin_version_match("3.0.0", &vs, "p", "0.1.3"), None);
}

#[test]
fn latest_without_usable_version_is_skipped() {
    let reg = Some(registry("greeter", vec![version("1.0.0", "0.1", true), version("2.0.0", "9", false)]));
    assert_eq!(find_plugin_version_match("latest", &reg.as_ref().unwrap().plugins[0].1.versions, "greeter", "0.1.0"), None);
    let step = resolve_step("greeter", false, "0.1.0", Some(&reg), None);
    assert!(matches!(step, ResolutionStep::Skip(ResolveError::NoUsableVersion)));
}

#[test]
fn pinned_plugin_without_cache_is_fetched_and_downloaded() {
    let step = resolve_step("greeter:1.0.0", false, "0.1.0", None, None);
    match step {
        ResolutionStep::FetchRegistry { registry_id } => assert_eq!(registry_id, "celarye/discord-bot-plugins"),
        _ => panic!("expected a registry fetch"),
    }
    let reg = Some(registry("greeter", vec![version("1.0.0", "0.1", false)]));
    match resolve_step("greeter:1.0.0", false, "0.1.0", Some(&reg), None) {
        ResolutionStep::Download { registry_id, metadata_path, wasm_path, directory, version } => {
            assert_eq!(registry_id, "celarye/discord-bot-plugins");
            assert_eq!(metadata_path, "greeter/1.0.0/metadata.json");
            assert_eq!(wasm_path, "greeter/1.0.0/plugin.wasm");
            assert_eq!(directory, "greeter/1.0.0");
            assert_eq!(version, "1.0.0");
        }
        _ => panic!("expected a download"),
    }
}

#[test]
fn cache_hit_needs_no_registry() {
    match resolve_step("greeter:1.0.0", true, "0.1.0", None, None) {
        ResolutionStep::CheckArtifact { directory } => assert_eq!(directory, "greeter/1.0.0"),
        _ => panic!("expected an artifact check"),
    }
    match resolve_step("greeter:1.0.0", true, "0.1.0", None, Some(true)) {
        ResolutionStep::Ready { version, directory } => {
            assert_eq!(version, "1.0.0");
            assert_eq!(directory, "greeter/1.0.0");
        }
        _ => panic!("expected the cached artifact"),
    }
    // the same again: identical outcome, still no fetch
    assert!(matches!(
        resolve_step("greeter:1.0.0", true, "0.1.0", None, Some(true)),
        ResolutionStep::Ready { .. }
    ));
}

#[test]
fn cache_miss_downloads() {
    let reg = Some(registry("greeter", vec![version("1.0.0", "0.1", false)]));
    assert!(matches!(
        resolve_step("greeter:1.0.0", true, "0.1.0", Some(&reg), Some(false)),
        ResolutionStep::Download { .. }
    ));
}

#[test]
fn missing_registry_and_plugin_are_skipped() {
    assert!(matches!(
        resolve_step("x/y/greeter", false, "0.1.0", Some(&None), None),
        ResolutionStep::Skip(ResolveError::RegistryUnavailable)
    ));
    let reg = Some(registry("other", vec![version("1.0.0", "0.1", false)]));
    assert!(matches!(
        resolve_step("greeter", false, "0.1.0", Some(&reg), None),
        ResolutionStep::Skip(ResolveError::PluginNotFound)
    ));
}

#[test]
fn config_plugin_becomes_available() {
    let c = ConfigPlugin {
        plugin: "greeter:1.0.0".to_string(),
        cache: Some(false),
        permissions: Permissions::all(),
        environment: Some(vec![("K".to_string(), "V".to_string())]),
        settings: None,
    };
    assert!(!c.cache_enabled(true));
    let a = c.into_available("greeter".to_string(), "1.0.0".to_string(), "greeter/1.0.0".to_string());
    assert_eq!(a.id, "greeter");
    assert_eq!(a.directory, "greeter/1.0.0");
    assert_eq!(a.environment.unwrap()[0].1, "V");
}

#[test]
fn registry_cache_keeps_failures() {
    let mut regs = Registries::new();
    assert!(regs.lookup("a/b").is_none());
    regs.record("a/b".to_string(), None);
    assert!(matches!(regs.lookup("a/b"), Some(None)));
    regs.record("c/d".to_string(), Some(registry("greeter", vec![version("1.0.0", "0", false)])));
    assert!(matches!(regs.lookup("c/d"), Some(Some(r)) if r.plugins[0].0 == "greeter"));
    assert!(matches!(
        resolve_step("a/b/greeter", false, "0.1.0", regs.lookup("a/b"), None),
        ResolutionStep::Skip(ResolveError::RegistryUnavailable)
    ));
}

#[test]
fn deprecated_explicit_version_is_flagged() {
    let vs = vec![version("1.0.0", "0.1", true), version("1.0.0", "0.1", false), version("2.0.0", "0.1", false)];
    assert!(discord_bot::registry::version_is_deprecated(&vs, "1.0.0"));
    assert!(!discord_bot::registry::version_is_deprecated(&vs, "2.0.0"));
    assert!(!discord_bot::registry::version_is_deprecated(&vs, "3.0.0"));
}
