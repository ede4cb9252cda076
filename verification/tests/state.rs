use screen_pilot::devices::{
    dedupe_devices_by_uuid, forget_media_on_devices, get_device_loop, mark_playing, merge_discovered_devices, refresh_devices,
    rename_media_on_devices, resolve_av_url, set_device_alias, set_device_loop, set_device_status,
};
use screen_pilot::scenes::{
    delete_scene, forget_media_in_scenes, SceneApplyRun, rename_media_in_scenes, save_scene, scene_apply_result, scene_assignments,
};
use screen_pilot::state::{AppState, AssignmentMap, PlaybackStatus, RendererDevice, Scene};

fn device(uuid: &str, name: &str) -> RendererDevice {
    RendererDevice {
        uuid: uuid.to_string(),
        name: name.to_string(),
        alias: None,
        ip: "192.168.1.1".to_string(),
        av_transport_url: format!("http://192.168.1.1:8000/{}", uuid),
        status: PlaybackStatus::Idle,
        current_media: None,
        loop_playback: false,
    }
}

fn scene(name: &str, pairs: &[(&str, &str)]) -> Scene {
    let mut assignments = AssignmentMap::new();
    for (k, v) in pairs {
        assignments.insert(k.to_string(), v.to_string());
    }
    Scene { name: name.to_string(), assignments }
}

#[test]
fn test_renderer_device_creation() {
    let device = RendererDevice {
        uuid: "test-uuid-123".to_string(),
        name: "Living Room TV".to_string(),
        alias: None,
        ip: "192.168.1.100".to_string(),
        av_transport_url: "http://192.168.1.100:49152/upnp/control/AVTransport".to_string(),
        status: PlaybackStatus::Idle,
        current_media: None,
        loop_playback: false,
    };
    assert_eq!(device.uuid, "test-uuid-123");
    assert_eq!(device.name, "Living Room TV");
    assert_eq!(device.status, PlaybackStatus::Idle);
    assert!(device.current_media.is_none());
}

#[test]
fn test_renderer_device_clone() {
    let device1 = RendererDevice {
        uuid: "uuid-1".to_string(),
        name: "Device 1".to_string(),
        alias: None,
        ip: "192.168.1.1".to_string(),
        av_transport_url: "http://192.168.1.1:8008/ctrl".to_string(),
        status: PlaybackStatus::Playing,
        current_media: Some("ad.mp4".to_string()),
        loop_playback: false,
    };
    let device2 = device1.clone();
    assert_eq!(device1.uuid, device2.uuid);
    assert_eq!(device1.name, device2.name);
    assert_eq!(device1.status, device2.status);
    assert_eq!(device1.current_media, device2.current_media);
    let device3 = device1.duplicate();
    assert_eq!(device1.uuid, device3.uuid);
    assert_eq!(device1.current_media, device3.current_media);
}

#[test]
fn test_playback_status_display() {
    assert_eq!(PlaybackStatus::Idle.to_string(), "Idle");
    assert_eq!(PlaybackStatus::Playing.to_string(), "Playing");
    assert_eq!(PlaybackStatus::Paused.to_string(), "Paused");
    assert_eq!(PlaybackStatus::Stopped.to_string(), "Stopped");
    assert_eq!(PlaybackStatus::Error.to_string(), "Error");
}

#[test]
fn test_scene_creation() {
    let mut assignments = AssignmentMap::new();
    assignments.insert("device-uuid-1".to_string(), "ad.mp4".to_string());
    assignments.insert("device-uuid-2".to_string(), "promo.mp4".to_string());

    let scene = Scene { name: "Morning Scene".to_string(), assignments };

    assert_eq!(scene.name, "Morning Scene");
    assert_eq!(scene.assignments.len(), 2);
}

#[test]
fn test_app_state_default() {
    let state = AppState::default();
    assert!(state.devices.is_empty());
    assert!(state.scenes.is_empty());
    assert!(state.media_server_base_url.is_empty());
}

#[test]
fn test_app_state_with_data() {
    let device = RendererDevice {
        uuid: "test".to_string(),
        name: "Test".to_string(),
        alias: None,
        ip: "192.168.1.1".to_string(),
        av_transport_url: "http://192.168.1.1:8000".to_string(),
        status: PlaybackStatus::Idle,
        current_media: None,
        loop_playback: false,
    };

    let mut assignments = AssignmentMap::new();
    assignments.insert("test-uuid".to_string(), "test.mp4".to_string());
    let scene = Scene { name: "Test".to_string(), assignments };

    let state = AppState {
        devices: vec![device],
        scenes: vec![scene],
        media_server_base_url: "http://192.168.1.10:8090".to_string(),
        preferred_encoder: "auto".to_string(),
        loop_playback: true,
        detected_encoders: None,
    };

    assert_eq!(state.devices.len(), 1);
    assert_eq!(state.scenes.len(), 1);
    assert_eq!(state.media_server_base_url, "http://192.168.1.10:8090");
}

#[test]
fn assignment_map_behaves_like_a_map() {
    let mut m = AssignmentMap::new();
    m.insert("tv".to_string(), "a.mp4".to_string());
    m.insert("pj".to_string(), "b.mp4".to_string());
    m.insert("tv".to_string(), "c.mp4".to_string());
    assert_eq!(m.len(), 2);
    assert_eq!(m.get("tv"), Some(&"c.mp4".to_string()));
    assert_eq!(m.get("none"), None);
    m.rename_media("b.mp4", "d.mp4");
    assert_eq!(m.get("pj"), Some(&"d.mp4".to_string()));
    m.remove_media("c.mp4");
    assert_eq!(m.len(), 1);
    assert_eq!(m.get("tv"), None);
    assert_eq!(m.to_pairs(), vec![("pj".to_string(), "d.mp4".to_string())]);
    assert_eq!(m.duplicate().len(), 1);
}

#[test]
fn device_updates_touch_first_match_only() {
    let mut devices = vec![device("a", "A"), device("b", "B")];
    assert!(set_device_status(&mut devices, "b", PlaybackStatus::Paused));
    assert_eq!(devices[1].status, PlaybackStatus::Paused);
    assert!(!set_device_status(&mut devices, "z", PlaybackStatus::Paused));
    assert!(mark_playing(&mut devices, "a", "ad.mp4".to_string()));
    assert_eq!(devices[0].status, PlaybackStatus::Playing);
    assert_eq!(devices[0].current_media.as_deref(), Some("ad.mp4"));
    assert!(set_device_loop(&mut devices, "a", true));
    assert_eq!(get_device_loop(&devices, "a").unwrap(), true);
    assert_eq!(get_device_loop(&devices, "z").unwrap_err().message, "Device not found");
    assert_eq!(resolve_av_url(&devices, "b"), Ok("http://192.168.1.1:8000/b".to_string()));
    assert_eq!(resolve_av_url(&devices, "z"), Err("Device not found: z".to_string()));
}

#[test]
fn device_alias_is_normalised_then_set() {
    let mut devices = vec![device("a", "A")];
    let d = set_device_alias(&mut devices, "a", Some("  Lobby ".to_string())).unwrap();
    assert_eq!(d.alias.as_deref(), Some("Lobby"));
    assert_eq!(devices[0].alias.as_deref(), Some("Lobby"));
    let e = set_device_alias(&mut devices, "z", Some("x".to_string())).unwrap_err();
    assert_eq!((e.status, e.message.as_str()), (404, "Device not found: z"));
    let e = set_device_alias(&mut devices, "z", Some("x\0".to_string())).unwrap_err();
    assert_eq!(e.status, 400);
    set_device_alias(&mut devices, "a", Some("   ".to_string())).unwrap();
    assert_eq!(devices[0].alias, None);
}

#[test]
fn discovery_merge_keeps_settings_and_unseen_devices() {
    let mut old_a = device("a", "Old A");
    old_a.alias = Some("Lobby".to_string());
    old_a.status = PlaybackStatus::Playing;
    old_a.loop_playback = true;
    let existing = vec![old_a, device("c", "C")];
    let found = vec![device("b", "B"), device("a", "New A")];
    let merged = merge_discovered_devices(&existing, found);
    let uuids: Vec<&str> = merged.iter().map(|d| d.uuid.as_str()).collect();
    assert_eq!(uuids, vec!["b", "a", "c"]);
    assert_eq!(merged[1].name, "New A");
    assert_eq!(merged[1].alias.as_deref(), Some("Lobby"));
    assert_eq!(merged[1].status, PlaybackStatus::Playing);
    assert!(merged[1].loop_playback);
}

#[test]
fn periodic_refresh_updates_addresses_and_appends() {
    let mut devices = vec![device("a", "A")];
    devices[0].alias = Some("Keep".to_string());
    let mut fresh = device("a", "A2");
    fresh.ip = "10.0.0.9".to_string();
    let found = vec![fresh, device("n", "N")];
    refresh_devices(&mut devices, &found);
    assert_eq!(devices.len(), 2);
    assert_eq!(devices[0].name, "A2");
    assert_eq!(devices[0].ip, "10.0.0.9");
    assert_eq!(devices[0].alias.as_deref(), Some("Keep"));
    assert_eq!(devices[1].uuid, "n");
}

#[test]
fn media_changes_reach_devices_and_scenes() {
    let mut devices = vec![device("a", "A"), device("b", "B")];
    devices[0].current_media = Some("x.mp4".to_string());
    devices[1].current_media = Some("y.mp4".to_string());
    rename_media_on_devices(&mut devices, "x.mp4", "z.mp4");
    assert_eq!(devices[0].current_media.as_deref(), Some("z.mp4"));
    forget_media_on_devices(&mut devices, "y.mp4");
    assert_eq!(devices[1].current_media, None);

    let mut scenes = vec![scene("s", &[("a", "z.mp4"), ("b", "y.mp4")])];
    rename_media_in_scenes(&mut scenes, "z.mp4", "w.mp4");
    assert_eq!(scenes[0].assignments.get("a"), Some(&"w.mp4".to_string()));
    forget_media_in_scenes(&mut scenes, "y.mp4");
    assert_eq!(scenes[0].assignments.len(), 1);
}

#[test]
fn scenes_upsert_delete_and_apply() {
    let mut scenes = Vec::new();
    save_scene(&mut scenes, scene("Lobby", &[("a", "ad.mp4")])).unwrap();
    save_scene(&mut scenes, scene("Hall", &[])).unwrap();
    save_scene(&mut scenes, scene("Lobby", &[("a", "promo.mp4"), ("b", "ad.mp4")])).unwrap();
    assert_eq!(scenes.len(), 2);
    assert_eq!(scenes[0].assignments.len(), 2);
    let e = save_scene(&mut scenes, scene("Bad", &[("a", "../x.mp4")])).unwrap_err();
    assert_eq!(e.message, "Invalid media filename");
    assert_eq!(scenes.len(), 2);
    let pairs = scene_assignments(&scenes, "Lobby").unwrap();
    assert_eq!(pairs.len(), 2);
    assert_eq!(scene_assignments(&scenes, "Nope").unwrap_err().message, "Scene not found: Nope");
    delete_scene(&mut scenes, "Lobby");
    assert_eq!(scenes.len(), 1);
    assert_eq!(scenes[0].name, "Hall");
    let ok = scene_apply_result("a".to_string(), Ok(()));
    assert!(ok.success && ok.error.is_none());
    let bad = scene_apply_result("b".to_string(), Err("Device not found: b".to_string()));
    assert!(!bad.success);
    assert_eq!(bad.error.as_deref(), Some("Device not found: b"));
}

#[test]
fn discovered_devices_deduplicated_by_uuid() {
    let found = vec![device("a", "TV 1"), device("b", "TV 2"), device("a", "TV 1 again"), device("c", "TV 3")];
    let unique = dedupe_devices_by_uuid(found);
    let names: Vec<&str> = unique.iter().map(|d| d.name.as_str()).collect();
    assert_eq!(names, vec!["TV 1", "TV 2", "TV 3"]);
    assert!(dedupe_devices_by_uuid(Vec::new()).is_empty());
}

#[test]
fn scene_apply_run_goes_through_assignments() {
    let mut run = SceneApplyRun::new(vec![
        ("dev-1".to_string(), "a.mp4".to_string()),
        ("dev-2".to_string(), "b.mp4".to_string()),
    ]);
    assert_eq!(run.current(), Some(("dev-1".to_string(), "a.mp4".to_string())));
    assert_eq!(run.record(Ok(())), Some(("dev-1".to_string(), "a.mp4".to_string())));
    assert_eq!(run.current(), Some(("dev-2".to_string(), "b.mp4".to_string())));
    assert_eq!(run.record(Err("Device not found: dev-2".to_string())), None);
    assert_eq!(run.current(), None);
    assert_eq!(run.results.len(), 2);
    assert!(run.results[0].success && run.results[0].error.is_none());
    assert!(!run.results[1].success);
    assert_eq!(run.results[1].device_uuid, "dev-2");
    assert_eq!(run.results[1].error.as_deref(), Some("Device not found: dev-2"));
}
