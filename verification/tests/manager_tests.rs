use conda_pilot::manager::discover_environments;
use conda_pilot::manager::load_packages;
use conda_pilot::CondaConfig;
use conda_pilot::CondaError;
use conda_pilot::CondaPackageManager;
use conda_pilot::EnvListing;
use conda_pilot::MetaParse;
use conda_pilot::Package;
use conda_pilot::Version;

fn record(name: &str, major: u64, minor: u64, patch: u64) -> Package {
    Package {
        name: String::from(name),
        version: Version::release(major, minor, patch),
        description: None,
        dependencies: Vec::new(),
    }
}

fn config() -> CondaConfig {
    CondaConfig {
        default_channel: String::from("https://repo.example.org"),
        custom_channels: Vec::new(),
        cache_dir: String::from("/var/cache/conda"),
    }
}

fn listing(name: Option<&str>, path: &str, metadata: Vec<MetaParse>) -> EnvListing {
    EnvListing { name: name.map(String::from), path: String::from(path), metadata }
}

fn sample_manager() -> CondaPackageManager {
    let entries = vec![
        listing(
            Some("base"),
            "/envs/base",
            vec![
                MetaParse::Parsed(record("python", 3, 9, 7)),
                MetaParse::Parsed(record("numpy", 1, 24, 0)),
            ],
        ),
        listing(
            Some("work"),
            "/envs/work",
            vec![MetaParse::Parsed(record("scipy", 1, 11, 2))],
        ),
    ];
    let envs = discover_environments(&entries).unwrap();
    CondaPackageManager::new(config(), envs)
}

#[test]
fn discover_returns_one_environment_per_subdirectory() {
    let entries = vec![
        listing(Some("base"), "/envs/base", vec![]),
        listing(None, "/envs/bad", vec![]),
        listing(Some("work"), "/envs/work", vec![]),
    ];
    let envs = discover_environments(&entries).unwrap();
    assert_eq!(envs.len(), 2);
    assert_eq!(envs[0].name, "base");
    assert_eq!(envs[0].path, "/envs/base");
    assert_eq!(envs[1].name, "work");
    assert_eq!(envs[1].path, "/envs/work");
}

#[test]
fn discover_fails_on_malformed_metadata() {
    let entries = vec![
        listing(Some("base"), "/envs/base", vec![MetaParse::Parsed(record("python", 3, 9, 7))]),
        listing(
            Some("broken"),
            "/envs/broken",
            vec![MetaParse::Malformed(String::from("bad json at line 3"))],
        ),
    ];
    match discover_environments(&entries) {
        Err(CondaError::MetadataParseError(m)) => assert_eq!(m, "bad json at line 3"),
        other => panic!("expected a metadata failure, got {:?}", other),
    }
}

#[test]
fn load_packages_is_all_or_nothing() {
    let metadata = vec![
        MetaParse::Parsed(record("python", 3, 9, 7)),
        MetaParse::Malformed(String::from("truncated file")),
        MetaParse::Parsed(record("numpy", 1, 24, 0)),
    ];
    match load_packages(&metadata) {
        Err(CondaError::MetadataParseError(m)) => assert_eq!(m, "truncated file"),
        other => panic!("expected a metadata failure, got {:?}", other),
    }
}

#[test]
fn load_packages_keys_records_by_name() {
    let metadata = vec![
        MetaParse::Parsed(record("numpy", 1, 20, 0)),
        MetaParse::Parsed(record("numpy", 1, 24, 0)),
    ];
    let idx = load_packages(&metadata).unwrap();
    assert_eq!(idx.len(), 1);
    assert_eq!(idx[0].version, Version::release(1, 24, 0));
}

#[test]
fn list_environments_and_packages() {
    let mgr = sample_manager();
    assert_eq!(mgr.list_environments(), vec![String::from("base"), String::from("work")]);
    let packages = mgr.list_packages("base").unwrap();
    assert_eq!(packages.len(), 2);
    match mgr.list_packages("missing") {
        Err(CondaError::EnvironmentNotFound(name)) => assert_eq!(name, "missing"),
        other => panic!("expected an unknown environment, got {:?}", other),
    }
}

#[test]
fn lookups_are_existence_checks() {
    let mgr = sample_manager();
    assert!(mgr.is_package_installed("base", "numpy"));
    assert!(!mgr.is_package_installed("base", "scipy"));
    assert!(!mgr.is_package_installed("missing", "numpy"));
    assert_eq!(mgr.get_package_version("base", "numpy"), Some(Version::release(1, 24, 0)));
    assert_eq!(mgr.get_package_version("base", "scipy"), None);
    assert_eq!(mgr.get_package_version("missing", "numpy"), None);
}

#[test]
fn refresh_replaces_the_index_wholesale() {
    let mut mgr = sample_manager();
    let refreshed = vec![record("python", 3, 9, 7), record("pandas", 2, 1, 0)];
    mgr.refresh_environment("base", refreshed).unwrap();
    assert!(mgr.is_package_installed("base", "pandas"));
    assert!(!mgr.is_package_installed("base", "numpy"));
    assert!(mgr.is_package_installed("work", "scipy"));
}

#[test]
fn refresh_of_unknown_environment_changes_nothing() {
    let mut mgr = sample_manager();
    let before = mgr.clone();
    match mgr.refresh_environment("missing", vec![record("pandas", 2, 1, 0)]) {
        Err(CondaError::EnvironmentNotFound(name)) => assert_eq!(name, "missing"),
        other => panic!("expected an unknown environment, got {:?}", other),
    }
    assert_eq!(mgr, before);
}

#[test]
fn register_environment_supersedes_by_name() {
    let mut mgr = sample_manager();
    mgr.register_environment("base", "/envs/base", vec![record("python", 3, 12, 0)]);
    assert_eq!(mgr.environments.len(), 2);
    assert_eq!(mgr.get_package_version("base", "python"), Some(Version::release(3, 12, 0)));
    mgr.register_environment("fresh", "/envs/fresh", Vec::new());
    assert_eq!(mgr.environments.len(), 3);
    assert!(mgr.has_environment("fresh"));
}

#[test]
fn custom_channel_bookkeeping() {
    let mut mgr = sample_manager();
    mgr.add_channel("https://example.org/a");
    mgr.add_channel("https://example.org/a");
    assert_eq!(mgr.config.custom_channels, vec![String::from("https://example.org/a")]);
    mgr.remove_channel("https://example.org/a");
    assert!(mgr.config.custom_channels.is_empty());
}

#[test]
fn update_check_reports_newer_remote_versions() {
    let entries = vec![listing(
        Some("base"),
        "/envs/base",
        vec![MetaParse::Parsed(record("numpy", 1, 24, 0))],
    )];
    let envs = discover_environments(&entries).unwrap();
    let mgr = CondaPackageManager::new(config(), envs);
    let remote = vec![record("numpy", 1, 26, 1)];
    let updates = mgr.check_updates("base", &remote).unwrap();
    assert_eq!(updates.len(), 1);
    assert_eq!(updates[0].0, "numpy");
    assert_eq!(updates[0].1, Version::release(1, 24, 0));
    assert_eq!(updates[0].2, Version::release(1, 26, 1));
}

#[test]
fn update_check_skips_current_and_unknown_packages() {
    let entries = vec![listing(
        Some("base"),
        "/envs/base",
        vec![
            MetaParse::Parsed(record("numpy", 2, 0, 0)),
            MetaParse::Parsed(record("localpkg", 0, 1, 0)),
        ],
    )];
    let envs = discover_environments(&entries).unwrap();
    let mgr = CondaPackageManager::new(config(), envs);
    let remote = vec![record("numpy", 1, 9, 0)];
    let updates = mgr.check_updates("base", &remote).unwrap();
    assert!(updates.is_empty());
    match mgr.check_updates("missing", &remote) {
        Err(CondaError::EnvironmentNotFound(name)) => assert_eq!(name, "missing"),
        other => panic!("expected an unknown environment, got {:?}", other),
    }
}
