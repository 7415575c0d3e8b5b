use conda_pilot::CondaSettings;
use conda_pilot::CondaSettingsError;
use conda_pilot::ProxySettings;
use conda_pilot::SettingKey;
use conda_pilot::SettingValue;

fn varied_profile() -> CondaSettings {
    let mut s = CondaSettings::new();
    s.environments_dir = String::from("/srv/conda/envs");
    s.channel_priority_strict = false;
    s.add_default_channel(String::from("https://example.org/channel"));
    s.add_env_var(String::from("CONDA_SUBDIR"), String::from("osx-arm64"));
    s.max_retries = 5;
    s.offline_mode = true;
    s.set_proxy_settings(ProxySettings {
        http_proxy: Some(String::from("http://proxy:3128")),
        https_proxy: Some(String::from("http://proxy:3129")),
        no_proxy: Some(vec![String::from("localhost"), String::from("10.0.0.1")]),
    });
    s
}

#[test]
fn round_trip_of_varied_profile() {
    let p = varied_profile();
    let doc = p.to_entries();
    let back = CondaSettings::from_entries(&doc).unwrap();
    assert_eq!(back, p);
}

#[test]
fn round_trip_of_default_profile() {
    let p = CondaSettings::new();
    let doc = p.to_entries();
    assert_eq!(doc.len(), 19);
    let back = CondaSettings::from_entries(&doc).unwrap();
    assert_eq!(back, p);
}

#[test]
fn proxy_entry_only_when_configured() {
    let p = varied_profile();
    let doc = p.to_entries();
    assert_eq!(doc.len(), 20);
    assert!(doc.iter().any(|(k, _)| *k == SettingKey::Proxy));
    let bare = CondaSettings::new().to_entries();
    assert!(!bare.iter().any(|(k, _)| *k == SettingKey::Proxy));
}

#[test]
fn decode_rejects_missing_entry() {
    let mut doc = CondaSettings::new().to_entries();
    doc.retain(|(k, _)| *k != SettingKey::MaxRetries);
    match CondaSettings::from_entries(&doc) {
        Err(CondaSettingsError::ParseError(_)) => {}
        other => panic!("expected a parse failure, got {:?}", other),
    }
}

#[test]
fn decode_rejects_mistyped_entry() {
    let mut doc = CondaSettings::new().to_entries();
    for entry in doc.iter_mut() {
        if entry.0 == SettingKey::MaxRetries {
            entry.1 = SettingValue::Text(String::from("three"));
        }
    }
    match CondaSettings::from_entries(&doc) {
        Err(CondaSettingsError::ParseError(_)) => {}
        other => panic!("expected a parse failure, got {:?}", other),
    }
}

#[test]
fn decode_takes_the_first_of_duplicate_entries() {
    let mut doc = CondaSettings::new().to_entries();
    doc.push((SettingKey::MaxRetries, SettingValue::Count32(99)));
    let back = CondaSettings::from_entries(&doc).unwrap();
    assert_eq!(back.max_retries, 3);
}

#[test]
fn modify_setting_replaces_one_field() {
    let mut s = CondaSettings::new();
    s.modify_setting(SettingKey::MaxRetries, SettingValue::Count32(8)).unwrap();
    assert_eq!(s.max_retries, 8);
    s.modify_setting(SettingKey::DefaultShell, SettingValue::Text(String::from("zsh"))).unwrap();
    assert_eq!(s.default_shell, "zsh");
}

#[test]
fn modify_setting_refuses_a_mistyped_value() {
    let mut s = CondaSettings::new();
    let before = s.clone();
    match s.modify_setting(SettingKey::MaxRetries, SettingValue::Text(String::from("three"))) {
        Err(CondaSettingsError::ParseError(_)) => {}
        other => panic!("expected a refusal, got {:?}", other),
    }
    assert_eq!(s, before);
}

#[test]
fn decode_ignores_entry_order() {
    let p = varied_profile();
    let mut doc = p.to_entries();
    doc.reverse();
    let back = CondaSettings::from_entries(&doc).unwrap();
    assert_eq!(back, p);
}
