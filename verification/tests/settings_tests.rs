use conda_pilot::CondaSettings;
use conda_pilot::ProxySettings;

fn custom_profile() -> CondaSettings {
    let mut s = CondaSettings::new();
    s.environments_dir = String::from("/opt/conda/envs");
    s.default_python_version = String::from("3.11");
    s.max_retries = 7;
    s.network_timeout = 120;
    s.use_conda_forge = true;
    s.add_env_var(String::from("CONDA_SUBDIR"), String::from("linux-64"));
    s.add_default_channel(String::from("https://example.org/channel"));
    s.set_proxy_settings(ProxySettings {
        http_proxy: Some(String::from("http://proxy:3128")),
        https_proxy: None,
        no_proxy: Some(vec![String::from("localhost")]),
    });
    s
}

#[test]
fn default_profile_is_default() {
    let s = CondaSettings::new();
    assert!(s.is_default());
    assert_eq!(s.max_retries, 3);
    assert_eq!(s.network_timeout, 60);
    assert_eq!(s.max_environments, 20);
    assert_eq!(s.package_cache_size_limit, 10 * 1024 * 1024 * 1024);
    assert_eq!(s.default_channels.len(), 2);
    assert_eq!(s.default_channels[0], "https://repo.anaconda.com/pkgs/main");
    assert_eq!(s.default_channels[1], "https://repo.anaconda.com/pkgs/r");
    assert_eq!(s.count_settings(), 20);
}

#[test]
fn changed_profile_is_not_default() {
    let mut s = CondaSettings::new();
    s.add_default_channel(String::from("https://example.org/channel"));
    assert!(!s.is_default());
    s.reset_to_defaults();
    assert!(s.is_default());
}

#[test]
fn merge_with_default_is_noop() {
    let p = custom_profile();
    let mut merged = custom_profile();
    merged.merge(&CondaSettings::new());
    assert_eq!(merged, p);
}

#[test]
fn merge_adopts_only_changed_fields() {
    let mut base = CondaSettings::new();
    base.default_shell = String::from("fish");

    let mut overlay = CondaSettings::new();
    overlay.max_retries = 9;

    base.merge(&overlay);
    assert_eq!(base.max_retries, 9);
    assert_eq!(base.default_shell, "fish");
}

#[test]
fn merge_env_vars_is_additive() {
    let mut base = CondaSettings::new();
    base.add_env_var(String::from("A"), String::from("1"));
    base.add_env_var(String::from("B"), String::from("2"));

    let mut overlay = CondaSettings::new();
    overlay.add_env_var(String::from("B"), String::from("22"));
    overlay.add_env_var(String::from("C"), String::from("3"));

    base.merge(&overlay);
    let mut pairs = base.env_vars.clone();
    pairs.sort();
    assert_eq!(
        pairs,
        vec![
            (String::from("A"), String::from("1")),
            (String::from("B"), String::from("22")),
            (String::from("C"), String::from("3")),
        ]
    );
}

#[test]
fn merge_keeps_env_vars_when_overlay_has_none() {
    let mut base = CondaSettings::new();
    base.add_env_var(String::from("A"), String::from("1"));
    let overlay = CondaSettings::new();
    base.merge(&overlay);
    assert_eq!(base.env_vars, vec![(String::from("A"), String::from("1"))]);
}

#[test]
fn update_replaces_every_field() {
    let mut s = CondaSettings::new();
    let p = custom_profile();
    s.update(&p);
    assert_eq!(s, p);
}

#[test]
fn add_channel_twice_keeps_one_occurrence() {
    let mut s = CondaSettings::new();
    let url = String::from("https://example.org/channel");
    s.add_default_channel(url.clone());
    s.add_default_channel(url.clone());
    let n = s.default_channels.iter().filter(|c| **c == url).count();
    assert_eq!(n, 1);
}

#[test]
fn add_then_remove_channel_leaves_none() {
    let mut s = CondaSettings::new();
    let url = String::from("https://example.org/channel");
    s.add_default_channel(url.clone());
    s.remove_default_channel(&url);
    let n = s.default_channels.iter().filter(|c| **c == url).count();
    assert_eq!(n, 0);
    assert_eq!(s.default_channels.len(), 2);
}

#[test]
fn env_var_add_and_remove() {
    let mut s = CondaSettings::new();
    s.add_env_var(String::from("K"), String::from("v1"));
    s.add_env_var(String::from("K"), String::from("v2"));
    assert_eq!(s.env_vars, vec![(String::from("K"), String::from("v2"))]);
    let removed = s.remove_env_var("K");
    assert_eq!(removed, Some(String::from("v2")));
    assert!(s.env_vars.is_empty());
    assert_eq!(s.remove_env_var("K"), None);
}

#[test]
fn proxy_set_and_clear() {
    let mut s = CondaSettings::new();
    assert!(s.proxy_settings.is_none());
    s.set_proxy_settings(ProxySettings {
        http_proxy: Some(String::from("http://proxy:3128")),
        https_proxy: None,
        no_proxy: None,
    });
    assert!(s.proxy_settings.is_some());
    s.clear_proxy_settings();
    assert!(s.proxy_settings.is_none());
}

#[test]
fn validate_accepts_default() {
    let s = CondaSettings::new();
    assert!(s.validate().is_ok());
}

#[test]
fn validate_reports_zero_max_retries() {
    let mut s = CondaSettings::new();
    s.max_retries = 0;
    let errors = s.validate().unwrap_err();
    assert_eq!(errors.len(), 1);
    assert!(errors[0].contains("max_retries"));
}

#[test]
fn validate_reports_three_violations() {
    let mut s = CondaSettings::new();
    s.max_retries = 0;
    s.network_timeout = 0;
    s.package_cache_size_limit = 0;
    let errors = s.validate().unwrap_err();
    assert_eq!(errors.len(), 3);
    assert!(errors[0].contains("max_retries"));
    assert!(errors[1].contains("network_timeout"));
    assert!(errors[2].contains("package_cache_size_limit"));
}

#[test]
fn display_string_of_default_profile_is_exact() {
    let s = CondaSettings::new();
    let expected = "Conda Settings:\n- Environments Directory: ~/.conda/envs\n- Default Python Version: 3.9\n- Channel Priority Strict: true\n- Default Channels: https://repo.anaconda.com/pkgs/main, https://repo.anaconda.com/pkgs/r\n- Max Retries: 3\n- Network Timeout: 60 seconds\n- Auto Update: false\n- Default Shell: bash\n- Show Channel URLs: false\n- Compression Type: Zstd\n- Use conda-forge: false\n- Max Environments: 20\n- Create .condarc: true\n- Default Architecture: X86_64\n- SSL Verify: true\n- Offline Mode: false\n- Package Cache Size Limit: 10737418240 bytes\n- Add pip as Python Dependency: true";
    assert_eq!(s.to_display_string(), expected);
}

#[test]
fn display_string_shows_the_profile() {
    let s = CondaSettings::new();
    let text = s.to_display_string();
    assert!(text.starts_with("Conda Settings:"));
    assert!(text.contains("- Environments Directory: ~/.conda/envs"));
    assert!(text.contains("- Max Retries: 3"));
    assert!(text.contains("- Network Timeout: 60 seconds"));
    assert!(text.contains("- Compression Type: Zstd"));
    assert!(text.contains("- Default Architecture: X86_64"));
    assert!(text.contains("- Package Cache Size Limit: 10737418240 bytes"));
    assert!(text.contains(
        "- Default Channels: https://repo.anaconda.com/pkgs/main, https://repo.anaconda.com/pkgs/r"
    ));
}
