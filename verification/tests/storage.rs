use screen_pilot::config::{
    config_save_failure_message, load_or_create_config, AppConfig, AuthSettings, ConfigSaveFailure, ConfigSource,
};
use screen_pilot::netaddr::{ip_to_string, ipconfig_ipv4_addresses, is_usable_lan_ip, local_ip, local_ipv4_candidates, push_unique_ip};
use screen_pilot::persistence::{
    get_data_file_path, get_persistence_path, get_scenes_persistence_path, load_devices, load_scenes, save_devices,
    save_failure_message, save_scenes, LoadOutcome, SaveFailure,
};
use screen_pilot::state::{PlaybackStatus, RendererDevice};

fn parsed(username: &str, password: &str) -> ConfigSource {
    ConfigSource::Parsed(AppConfig {
        auth: AuthSettings { username: username.to_string(), password: password.to_string() },
    })
}

#[test]
fn test_load_or_create_config_creates_default_file() {
    let path = "/tmp/data/config.toml".to_string();
    let loaded = load_or_create_config(ConfigSource::Missing, path.clone(), "secret123".to_string()).unwrap();
    assert!(loaded.created);
    assert_eq!(loaded.path, path);
    assert_eq!(loaded.config.auth.username, "admin");
    assert_eq!(loaded.config.auth.password, "secret123");
}

#[test]
fn test_load_or_create_config_reads_existing_file() {
    let loaded =
        load_or_create_config(parsed("operator", "configured"), "config.toml".to_string(), "ignored".to_string())
            .unwrap();
    assert!(!loaded.created);
    assert_eq!(loaded.config.auth.username, "operator");
    assert_eq!(loaded.config.auth.password, "configured");
}

#[test]
fn test_load_or_create_config_rejects_empty_password() {
    let err = load_or_create_config(parsed("operator", ""), "config.toml".to_string(), "ignored".to_string())
        .unwrap_err();
    assert!(err.contains("auth.password"));
}

#[test]
fn config_validation_and_errors() {
    let loaded = load_or_create_config(parsed("  ops  ", "pw"), "c".to_string(), "g".to_string()).unwrap();
    assert_eq!(loaded.config.auth.username, "ops");
    assert_eq!(
        load_or_create_config(parsed("   ", "pw"), "c".to_string(), "g".to_string()).unwrap_err(),
        "auth.username must not be empty"
    );
    assert_eq!(
        load_or_create_config(ConfigSource::Missing, "c".to_string(), String::new()).unwrap_err(),
        "auth.password must not be empty"
    );
    assert_eq!(
        load_or_create_config(ConfigSource::ReadFailed("denied".to_string()), "c".to_string(), "g".to_string())
            .unwrap_err(),
        "Failed to read config.toml: denied"
    );
    assert_eq!(
        load_or_create_config(ConfigSource::ParseFailed("bad key".to_string()), "c".to_string(), "g".to_string())
            .unwrap_err(),
        "Failed to parse config.toml: bad key"
    );
    assert_eq!(
        config_save_failure_message(&ConfigSaveFailure::Write("disk full".to_string())),
        "Failed to write config.toml: disk full"
    );
}

#[test]
fn test_get_persistence_path() {
    let path = get_persistence_path(Some("/opt/screenpilot"));
    assert!(path.ends_with("/devices.json"));
    assert_eq!(path, "/opt/screenpilot/data/devices.json");
}

#[test]
fn test_get_scenes_persistence_path() {
    let path = get_scenes_persistence_path(None);
    assert_eq!(path, "data/scenes.json");
}

#[test]
fn test_save_devices_invalid_path() {
    let result = save_devices(Err(SaveFailure::CreateDir("permission denied".to_string())));
    assert!(result.is_ok() || result.is_err());
    assert_eq!(result.unwrap_err(), "Failed to create data directory: permission denied");
}

#[test]
fn loading_tolerates_missing_and_corrupt_files() {
    assert!(load_devices(LoadOutcome::Missing).is_empty());
    assert!(load_devices(LoadOutcome::ParseFailed("eof".to_string())).is_empty());
    assert!(load_scenes(LoadOutcome::ReadFailed("io".to_string())).is_empty());
    let d = RendererDevice {
        uuid: "u".to_string(),
        name: "n".to_string(),
        alias: Some("Lobby".to_string()),
        ip: "1.2.3.4".to_string(),
        av_transport_url: "http://1.2.3.4/c".to_string(),
        status: PlaybackStatus::Playing,
        current_media: None,
        loop_playback: false,
    };
    let loaded = load_devices(LoadOutcome::Parsed(vec![d]));
    assert_eq!(loaded.len(), 1);
    assert_eq!(loaded[0].alias.as_deref(), Some("Lobby"));
    assert_eq!(save_scenes(Ok(())), Ok(()));
    assert_eq!(
        save_failure_message(&SaveFailure::Serialize("x".to_string()), "scenes.json"),
        "Failed to serialize scenes.json: x"
    );
    assert_eq!(get_data_file_path(Some("/a/"), "f"), "/a/data/f");
}

#[test]
fn lan_addresses() {
    assert!(is_usable_lan_ip([192, 168, 1, 5]));
    assert!(!is_usable_lan_ip([127, 0, 0, 1]));
    assert!(!is_usable_lan_ip([0, 0, 0, 0]));
    assert!(!is_usable_lan_ip([239, 255, 255, 250]));
    assert!(!is_usable_lan_ip([255, 255, 255, 255]));
    let mut ips = Vec::new();
    push_unique_ip(&mut ips, [10, 0, 0, 2]);
    push_unique_ip(&mut ips, [10, 0, 0, 2]);
    push_unique_ip(&mut ips, [127, 0, 0, 1]);
    assert_eq!(ips, vec![[10, 0, 0, 2]]);
    let c = local_ipv4_candidates(&[None, Some([10, 0, 0, 2]), Some([10, 0, 0, 2])], &[[192, 168, 0, 7], [127, 0, 0, 1]]);
    assert_eq!(c, vec![[10, 0, 0, 2], [192, 168, 0, 7]]);
    assert_eq!(local_ip(&c), Some("10.0.0.2".to_string()));
    assert_eq!(local_ip(&[]), None);
    assert_eq!(ip_to_string([192, 168, 100, 255]), "192.168.100.255");
    let out = "Ethernet adapter:\r\n   IPv4 Address. . . . . . . . . . . : 192.168.1.20\r\n   Subnet Mask . . : 255.255.255.0\r\n";
    assert_eq!(ipconfig_ipv4_addresses(out), vec!["192.168.1.20".to_string()]);
}

#[test]
fn created_config_reloads_unchanged() {
    let first = load_or_create_config(ConfigSource::Missing, "c.toml".to_string(), "pw-one".to_string()).unwrap();
    assert!(first.created);
    let again = load_or_create_config(ConfigSource::Parsed(first.config.clone()), "c.toml".to_string(), "pw-two".to_string())
        .unwrap();
    assert!(!again.created);
    assert_eq!(again.config.auth.username, "admin");
    assert_eq!(again.config.auth.password, "pw-one");
}
