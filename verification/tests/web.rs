use screen_pilot::api::{
    normalize_device_alias, validate_encoder_preference, validate_media_extension, validate_media_filename,
    validate_media_upload_filename, MAX_DEVICE_ALIAS_CHARS,
};
use screen_pilot::auth::{
    headers_have_valid_session, request_allowed,
    constant_time_eq, expired_session_cookie, generate_secret, is_public_without_auth, session_cookie,
    session_token_from_headers, AuthState,
};
use screen_pilot::config::AuthSettings;
use screen_pilot::encoder::HostOs;
use screen_pilot::media::cache::{
    cache_job_args, cache_job_failure_message, cache_temp_path, check_cache, get_cache_dir, get_cache_path,
    get_cache_path_with, media_cache_paths, path_join, path_join_with, remux_args, CacheProfile,
};
use screen_pilot::media::probe::{
    has_safe_dlna_codecs, is_dlna_bypass_compatible, media_info_from_ffprobe_output, media_info_from_probe, prepare_plan, MediaInfo, PreparePlan,
    ProbeStream,
};
use screen_pilot::media::stream::{
    asset_content_type, fallback_ports,
    check_delete, check_rename, check_upload_target, content_type_for_extension, content_type_for_path, media_file_info, media_stream_url,
    percent_encode_path_segment, sort_media_names, stream_copy_args, upload_temp_name, FileMeta, PreparedMedia, RenamePlan,
};
use screen_pilot::media::{
    build_encoder_args, detect_hardware_encoder, get_encoder_from_preference, should_fallback_to_software,
    software_fallback_failure_message, transcode_outcome, HardwareEncoder,
};

#[test]
fn test_auth_state_issues_and_revokes_session() {
    let mut auth = AuthState::from_config(AuthSettings {
        username: "admin".to_string(),
        password: "secret".to_string(),
    });

    assert!(auth.verify_credentials("admin", "secret"));
    assert!(!auth.verify_credentials("admin", "wrong"));

    let token = auth.issue_session_token();
    assert!(auth.verify_session_token(&token));

    auth.revoke_session_token(&token);
    assert!(!auth.verify_session_token(&token));
}

#[test]
fn test_session_token_from_headers() {
    let cookie = "theme=dark; screenpilot_session=abc123; other=value";
    assert_eq!(session_token_from_headers(Some(cookie)), Some("abc123".to_string()));
}

#[test]
fn test_normalize_device_alias_trims_and_clears_empty() {
    assert_eq!(
        normalize_device_alias(Some("  Lobby Screen  ".to_string())).unwrap(),
        Some("Lobby Screen".to_string())
    );
    assert_eq!(normalize_device_alias(Some("   ".to_string())).unwrap(), None);
    assert_eq!(normalize_device_alias(None).unwrap(), None);
}

#[test]
fn test_normalize_device_alias_rejects_too_long() {
    let alias = "a".repeat(MAX_DEVICE_ALIAS_CHARS + 1);
    let result = normalize_device_alias(Some(alias));
    assert!(result.is_err());
}

#[test]
fn test_validate_media_upload_filename() {
    assert_eq!(validate_media_upload_filename("promo.mp4").unwrap(), "mp4".to_string());
    assert!(validate_media_upload_filename(".hidden.mp4").is_err());
    assert!(validate_media_upload_filename("promo.txt").is_err());
    assert!(validate_media_upload_filename("nested/promo.mp4").is_err());
}

#[test]
fn test_get_cache_dir() {
    assert_eq!(get_cache_dir("/test/media"), "/test/media/.cache");
}

#[test]
fn test_get_cache_path() {
    let path = get_cache_path("/test/media", "video.mp4", CacheProfile::TranscodedH264Aac);
    assert!(path.contains("video.mp4.dlna-h264-aac-v2.ts"));

    let path_webm = get_cache_path("/test/media", "test.webm", CacheProfile::RemuxTs);
    assert!(path_webm.contains("test.webm.dlna-remux-ts-v1.ts"));

    let path_mkv = get_cache_path("/test/media", "movie.mkv", CacheProfile::TranscodedH264Aac);
    assert!(path_mkv.contains("movie.mkv.dlna-h264-aac-v2.ts"));
}

#[test]
fn test_get_cache_path_sanitizes_filename() {
    let path_str = get_cache_path("/test/media", "video/with:invalid*chars.mp4", CacheProfile::TranscodedH264Aac);
    let has_invalid_chars = path_str.contains(':') || path_str.contains('*') || path_str.contains('?');
    assert!(!has_invalid_chars, "Path should not contain invalid chars: {}", path_str);
}

#[test]
fn test_check_cache_nonexistent() {
    let result = check_cache("/tmp/media", "nonexistent.mp4", CacheProfile::TranscodedH264Aac, false, None, None);
    assert!(result.is_none());
}

fn dlna_safe_media_info() -> MediaInfo {
    MediaInfo {
        format_name: Some("mov,mp4,m4a,3gp,3g2,mj2".to_string()),
        video_codec: Some("h264".to_string()),
        video_profile: Some("Main".to_string()),
        video_level: Some(40),
        video_pix_fmt: Some("yuv420p".to_string()),
        audio_codec: Some("aac".to_string()),
        video_width: Some(1920),
        video_height: Some(1080),
        audio_channels: Some(2),
        audio_sample_rate: Some(48_000),
    }
}

#[test]
fn test_dlna_bypass_accepts_safe_mp4() {
    let info = dlna_safe_media_info();
    assert!(is_dlna_bypass_compatible(&info, "ad.mp4"));
}

#[test]
fn test_dlna_bypass_rejects_high_level_h264() {
    let mut info = dlna_safe_media_info();
    info.video_level = Some(52);
    assert!(!is_dlna_bypass_compatible(&info, "ad.mp4"));
}

#[test]
fn test_dlna_bypass_rejects_webm_container() {
    let mut info = dlna_safe_media_info();
    info.format_name = Some("matroska,webm".to_string());
    assert!(!is_dlna_bypass_compatible(&info, "ad.webm"));
    assert!(has_safe_dlna_codecs(&info));
}

#[test]
fn test_remux_cache_is_separate_from_transcode_cache() {
    let remux = get_cache_path("/test/media", "ad.webm", CacheProfile::RemuxTs);
    let transcode = get_cache_path("/test/media", "ad.webm", CacheProfile::TranscodedH264Aac);
    assert_ne!(remux, transcode);
    assert!(remux.contains("dlna-remux-ts-v1"));
    assert!(transcode.contains("dlna-h264-aac-v2"));
}

#[test]
fn test_percent_encode_path_segment() {
    assert_eq!(percent_encode_path_segment("promo loop 01.mp4"), "promo%20loop%2001.mp4");
    assert_eq!(percent_encode_path_segment("菜单.mp4"), "%E8%8F%9C%E5%8D%95.mp4");
}

#[test]
fn test_hardware_encoder_detection() {
    let detected = detect_hardware_encoder(Some(" V....D h264_nvenc NVENC\n V....D h264_qsv QSV\n"), HostOs::Linux);
    match detected {
        HardwareEncoder::Software => println!("Using software encoder"),
        HardwareEncoder::Nvidia => println!("Using NVIDIA"),
        HardwareEncoder::IntelQsv => println!("Using Intel QSV"),
        HardwareEncoder::AmdVce => println!("Using AMD VCE"),
        HardwareEncoder::AppleVtb => println!("Using Apple VT"),
        HardwareEncoder::Vaapi => println!("Using VAAPI"),
    }
    assert_eq!(detected, HardwareEncoder::Nvidia);
    assert_eq!(detect_hardware_encoder(None, HostOs::Linux), HardwareEncoder::Software);
    assert_eq!(detect_hardware_encoder(Some("h264_vaapi"), HostOs::Linux), HardwareEncoder::Vaapi);
    assert_eq!(detect_hardware_encoder(Some("h264_vaapi"), HostOs::Windows), HardwareEncoder::Software);
    assert_eq!(detect_hardware_encoder(Some("h264_nvenc h264_amf"), HostOs::Linux), HardwareEncoder::AmdVce);
}

#[test]
fn test_encoder_from_preference() {
    assert!(matches!(get_encoder_from_preference("software"), Some(HardwareEncoder::Software)));
    assert!(matches!(get_encoder_from_preference("nvidia"), Some(HardwareEncoder::Nvidia)));
    assert!(matches!(get_encoder_from_preference("amd"), Some(HardwareEncoder::AmdVce)));
    assert!(matches!(get_encoder_from_preference("intel"), Some(HardwareEncoder::IntelQsv)));
    assert!(matches!(get_encoder_from_preference("apple"), Some(HardwareEncoder::AppleVtb)));
    assert!(matches!(get_encoder_from_preference("vaapi"), Some(HardwareEncoder::Vaapi)));
    assert!(get_encoder_from_preference("auto").is_none());
}

#[test]
fn test_should_fallback_to_software_for_hardware_encoders() {
    assert!(!should_fallback_to_software(&HardwareEncoder::Software));
    assert!(should_fallback_to_software(&HardwareEncoder::Nvidia));
    assert!(should_fallback_to_software(&HardwareEncoder::AmdVce));
    assert!(should_fallback_to_software(&HardwareEncoder::IntelQsv));
    assert!(should_fallback_to_software(&HardwareEncoder::AppleVtb));
    assert!(should_fallback_to_software(&HardwareEncoder::Vaapi));
}

#[test]
fn test_software_fallback_failure_message_includes_both_errors() {
    let message =
        software_fallback_failure_message(&HardwareEncoder::Nvidia, "nvenc initialization failed", "libx264 failed");
    assert!(message.contains("Nvidia"));
    assert!(message.contains("nvenc initialization failed"));
    assert!(message.contains("software fallback failed"));
    assert!(message.contains("libx264 failed"));
}

#[test]
fn constant_time_eq_compares_whole_strings() {
    assert!(constant_time_eq("secret", "secret"));
    assert!(!constant_time_eq("secret", "secreT"));
    assert!(!constant_time_eq("secret", "secret!"));
    assert!(!constant_time_eq("", "x"));
    assert!(constant_time_eq("", ""));
}

#[test]
fn session_cookies_exact_text() {
    assert_eq!(session_cookie("abc"), "screenpilot_session=abc; Path=/; HttpOnly; SameSite=Lax; Max-Age=604800");
    assert_eq!(expired_session_cookie(), "screenpilot_session=; Path=/; HttpOnly; SameSite=Lax; Max-Age=0");
    assert_eq!(session_token_from_headers(None), None);
    assert_eq!(session_token_from_headers(Some("a=b; other")), None);
    assert_eq!(session_token_from_headers(Some(" screenpilot_session = x")), None);
    assert_eq!(session_token_from_headers(Some("screenpilot_session=a=b")), Some("a=b".to_string()));
}

#[test]
fn secrets_are_hex_and_distinct() {
    let a = generate_secret();
    let b = generate_secret();
    assert_eq!(a.len(), 64);
    assert!(a.chars().all(|c| c.is_ascii_hexdigit() && !c.is_ascii_uppercase()));
    assert_ne!(a, b);
}

#[test]
fn public_paths_need_no_login() {
    assert!(is_public_without_auth("/web/index.html"));
    assert!(is_public_without_auth("/api/auth/login"));
    assert!(is_public_without_auth("/api/media/stream/ad.mp4"));
    assert!(!is_public_without_auth("/api/devices"));
}

#[test]
fn media_name_checks_and_messages() {
    assert!(validate_media_filename("a/../b.mp4").is_err());
    assert!(validate_media_filename("").is_err());
    assert_eq!(validate_media_filename("x\\y.mp4").unwrap_err().status, 400);
    assert!(validate_media_filename("ok.mp4").is_ok());
    assert_eq!(validate_media_extension("Clip.MKV").unwrap(), "mkv");
    let e = validate_media_extension("README").unwrap_err();
    assert_eq!(
        e.message,
        "Invalid file extension 'readme'. Allowed: [\"mp4\", \"webm\", \"avi\", \"mkv\", \"mov\"]"
    );
    assert_eq!(
        validate_media_upload_filename(".x.mp4").unwrap_err().message,
        "Media filename must not start with a dot"
    );
    let long = normalize_device_alias(Some("b".repeat(65))).unwrap_err();
    assert_eq!(long.message, "Device alias must be 64 characters or fewer");
    assert_eq!(normalize_device_alias(Some("a\0b".to_string())).unwrap_err().message, "Invalid device alias");
    assert!(normalize_device_alias(Some("é".repeat(64))).is_ok());
    assert!(validate_encoder_preference("auto").is_ok());
    assert_eq!(validate_encoder_preference("turbo").unwrap_err().message, "Invalid encoder");
}

#[test]
fn encoder_args_for_each_encoder() {
    let (v, a) = build_encoder_args(&HardwareEncoder::Nvidia);
    assert_eq!(v[1], "h264_nvenc");
    assert_eq!(v.len(), 14);
    assert_eq!(a, vec!["-c:a", "aac", "-b:a", "128k"]);
    let (v, _) = build_encoder_args(&HardwareEncoder::Software);
    assert_eq!(v, vec![
        "-c:v", "libx264", "-preset", "ultrafast", "-tune", "zerolatency", "-crf", "18", "-profile:v", "baseline",
        "-pix_fmt", "yuv420p", "-level", "4.0"
    ]);
    let (v, _) = build_encoder_args(&HardwareEncoder::Vaapi);
    assert_eq!(v[0], "-vaapi_device");
}

#[test]
fn transcode_outcome_falls_back_once() {
    assert_eq!(transcode_outcome(&HardwareEncoder::Nvidia, Ok("/c/a.ts".to_string()), None), Ok("/c/a.ts".to_string()));
    assert_eq!(
        transcode_outcome(&HardwareEncoder::Nvidia, Err("hw".to_string()), Some(Ok("/c/b.ts".to_string()))),
        Ok("/c/b.ts".to_string())
    );
    assert_eq!(
        transcode_outcome(&HardwareEncoder::Nvidia, Err("hw".to_string()), Some(Err("sw".to_string()))),
        Err("Preferred encoder Nvidia failed: hw; software fallback failed: sw".to_string())
    );
    assert_eq!(transcode_outcome(&HardwareEncoder::Software, Err("sw".to_string()), None), Err("sw".to_string()));
}

#[test]
fn cache_paths_and_jobs() {
    assert_eq!(path_join("/m/", "a.mp4"), "/m/a.mp4");
    assert_eq!(path_join("", "a.mp4"), "a.mp4");
    assert_eq!(path_join("/m", "/abs"), "/abs");
    let fresh = check_cache("/m", "a.mp4", CacheProfile::RemuxTs, true, Some(10), Some(11));
    assert_eq!(fresh, Some("/m/.cache/a.mp4.dlna-remux-ts-v1.ts".to_string()));
    assert_eq!(check_cache("/m", "a.mp4", CacheProfile::RemuxTs, true, Some(11), Some(11)), None);
    assert_eq!(check_cache("/m", "a.mp4", CacheProfile::RemuxTs, true, None, Some(11)), None);
    assert_eq!(media_cache_paths("/m", "a.mp4").len(), 2);
    assert_eq!(cache_temp_path("/m/.cache/a.ts"), "/m/.cache/a.ts.tmp");
    let args = cache_job_args("/m/a.mp4", "/m/.cache/a.ts.tmp", &remux_args());
    assert_eq!(args[6], "/m/a.mp4");
    assert_eq!(args[11], "-c");
    assert_eq!(args[12], "copy");
    assert_eq!(args.last().unwrap(), "/m/.cache/a.ts.tmp");
    assert_eq!(args.len(), 22);
    assert_eq!(cache_job_failure_message("Remux", "  boom \n"), "Remux failed: boom");
}

#[test]
fn stream_urls_and_types() {
    assert_eq!(
        media_stream_url("http://10.0.0.2:8080//", "a b.mp4"),
        "http://10.0.0.2:8080/api/media/stream/a%20b.mp4"
    );
    assert_eq!(content_type_for_extension(Some("MP4")), "video/mp4");
    assert_eq!(content_type_for_extension(Some("mkv")), "video/x-matroska");
    assert_eq!(content_type_for_extension(Some("txt")), "application/octet-stream");
    assert_eq!(content_type_for_extension(None), "application/octet-stream");
    assert_eq!(content_type_for_path("/m/clip.MOV"), "video/mp4");
    assert_eq!(content_type_for_path("/m/clip.ts"), "video/mp2t");
    assert_eq!(content_type_for_path("/m/clip"), "application/octet-stream");
    assert_eq!(content_type_for_path("/m/.hidden"), "application/octet-stream");
    assert_eq!(content_type_for_path("/m/a.mp4.webm"), "video/webm");
    assert_eq!(content_type_for_path("/m/.a.mkv"), "video/x-matroska");
    assert_eq!(content_type_for_path("/m/dir.mp4/"), "video/mp4");
    assert_eq!(content_type_for_path("/m/./clip.AVI/."), "video/x-msvideo");
    assert_eq!(content_type_for_path("/m/a.mp4/.."), "application/octet-stream");
    assert_eq!(content_type_for_path("/m/clip."), "application/octet-stream");
    assert_eq!(content_type_for_path("clip.webm"), "video/webm");
    let p = PreparedMedia::Original("/m/a.webm".to_string());
    assert_eq!(p.content_type(), "video/webm");
    assert_eq!(PreparedMedia::Transcoded("/m/.cache/a.ts".to_string()).content_type(), "video/mp2t");
    assert_eq!(p.path(), "/m/a.webm");
    assert!(p.needs_loop_stream(true));
    let args = stream_copy_args("/m/a.mp4", true);
    assert_eq!(&args[4..6], &["-stream_loop".to_string(), "-1".to_string()]);
    assert_eq!(stream_copy_args("/m/a.mp4", false).len(), 18);
}

#[test]
fn probe_and_plan() {
    let streams = vec![
        ProbeStream {
            codec_type: Some("video".to_string()),
            codec_name: Some("h264".to_string()),
            profile: Some("High".to_string()),
            level: Some(41),
            pix_fmt: Some("yuv420p".to_string()),
            width: Some(1280),
            height: Some(720),
            channels: None,
            sample_rate: None,
        },
        ProbeStream {
            codec_type: Some("audio".to_string()),
            codec_name: Some("aac".to_string()),
            profile: None,
            level: None,
            pix_fmt: None,
            width: None,
            height: None,
            channels: Some(2),
            sample_rate: Some("44100".to_string()),
        },
    ];
    let info = media_info_from_probe(Some("mov,mp4".to_string()), &streams);
    assert_eq!(info.video_codec.as_deref(), Some("h264"));
    assert_eq!(info.audio_sample_rate, Some(44100));
    assert_eq!(prepare_plan(true, &Some(info.clone()), "a.mp4"), PreparePlan::Original);
    assert_eq!(prepare_plan(true, &Some(info.clone()), "a.mkv"), PreparePlan::Original);
    let mut ts = info.clone();
    ts.format_name = Some("matroska".to_string());
    assert_eq!(prepare_plan(true, &Some(ts.clone()), "a.mkv"), PreparePlan::Remux);
    ts.audio_codec = Some("opus".to_string());
    assert_eq!(prepare_plan(true, &Some(ts), "a.mkv"), PreparePlan::Transcode);
    assert_eq!(prepare_plan(true, &None, "a.mp4"), PreparePlan::Transcode);
    assert_eq!(prepare_plan(false, &None, "a.mp4"), PreparePlan::NotFound);
}

#[test]
fn library_file_operations() {
    let ok = media_file_info("a.mp4", Ok(FileMeta { size: 5, modified: Some(7), is_file: true })).unwrap();
    assert_eq!(ok.name, "a.mp4");
    assert_eq!(ok.size, 5);
    assert_eq!(ok.extension, "mp4");
    assert_eq!(ok.modified, Some(7));
    let dir = media_file_info("a.mp4", Ok(FileMeta { size: 0, modified: None, is_file: false })).unwrap_err();
    assert_eq!((dir.status, dir.message.as_str()), (404, "Media file not found"));
    let gone = media_file_info("a.mp4", Err("no such file".to_string())).unwrap_err();
    assert_eq!(gone.message, "Media file not found: no such file");
    assert_eq!(check_upload_target("a.mp4", true).unwrap_err().status, 409);
    assert_eq!(check_upload_target("a.mp4", false).unwrap(), "mp4");
    assert_eq!(check_rename("a.mp4", "a.mp4", false, false).unwrap(), RenamePlan::Unchanged);
    assert_eq!(check_rename("a.mp4", "b.mp4", true, false).unwrap(), RenamePlan::Rename);
    assert_eq!(check_rename("a.mp4", "b.mp4", true, true).unwrap_err().message, "Media file already exists: b.mp4");
    assert_eq!(check_rename("a.mp4", "b.mp4", false, false).unwrap_err().status, 404);
    assert!(check_delete("a.mp4", true).is_ok());
    assert!(check_delete("a.txt", true).is_err());
    let t = upload_temp_name();
    assert!(t.starts_with(".uploading-") && t.ends_with(".tmp"));
    assert_eq!(t.len(), 47);
    assert!(t[11..43].chars().all(|c| c.is_ascii_hexdigit() && !c.is_ascii_uppercase()));
    assert_ne!(t, upload_temp_name());
}

#[test]
fn login_logout_and_status() {
    let mut auth = AuthState::from_config(AuthSettings { username: "admin".to_string(), password: "pw".to_string() });
    let denied = auth.login("admin", "nope").unwrap_err();
    assert_eq!((denied.status, denied.message.as_str()), (401, "Invalid username or password"));
    let (name, cookie) = auth.login("admin", "pw").unwrap();
    assert_eq!(name, "admin");
    assert!(cookie.starts_with("screenpilot_session="));
    let token = &cookie["screenpilot_session=".len()..cookie.find(';').unwrap()];
    let header = format!("screenpilot_session={}", token);
    assert!(headers_have_valid_session(&auth, Some(&header)));
    assert_eq!(auth.auth_status(Some(&header)), (true, Some("admin".to_string())));
    assert!(request_allowed(&auth, "/api/devices", Some(&header)));
    assert!(!request_allowed(&auth, "/api/devices", None));
    assert!(request_allowed(&auth, "/api/auth/status", None));
    let cleared = auth.logout(Some(&header));
    assert_eq!(cleared, "screenpilot_session=; Path=/; HttpOnly; SameSite=Lax; Max-Age=0");
    assert_eq!(auth.auth_status(Some(&header)), (false, None));
    assert!(!request_allowed(&auth, "/api/devices", Some(&header)));
}

#[test]
fn asset_types_and_ports() {
    assert_eq!(asset_content_type("index-abc.js"), "application/javascript");
    assert_eq!(asset_content_type("logo.jpeg"), "image/jpeg");
    assert_eq!(asset_content_type("font.woff2"), "font/woff2");
    assert_eq!(asset_content_type("LICENSE"), "application/octet-stream");
    let ports = fallback_ports(8080);
    assert_eq!(ports.len(), 11);
    assert_eq!(ports[0], 8080);
    assert_eq!(ports[10], 8090);
}

#[test]
fn ffprobe_json_output_read() {
    let out = r#"{"streams":[{"index":0,"codec_name":"h264","codec_type":"video","profile":"High","level":41,
        "pix_fmt":"yuv420p","width":1920,"height":1080},{"index":1,"codec_name":"aac","codec_type":"audio",
        "channels":2,"sample_rate":"48000"}],"format":{"format_name":"mov,mp4,m4a,3gp,3g2,mj2"}}"#;
    let info = media_info_from_ffprobe_output(out).unwrap();
    assert_eq!(info.format_name.as_deref(), Some("mov,mp4,m4a,3gp,3g2,mj2"));
    assert_eq!(info.video_codec.as_deref(), Some("h264"));
    assert_eq!(info.video_profile.as_deref(), Some("High"));
    assert_eq!(info.video_level, Some(41));
    assert_eq!(info.video_pix_fmt.as_deref(), Some("yuv420p"));
    assert_eq!((info.video_width, info.video_height), (Some(1920), Some(1080)));
    assert_eq!(info.audio_codec.as_deref(), Some("aac"));
    assert_eq!(info.audio_channels, Some(2));
    assert_eq!(info.audio_sample_rate, Some(48000));
    assert!(media_info_from_ffprobe_output("not json").is_none());
    let empty = media_info_from_ffprobe_output("{}").unwrap();
    assert!(empty.format_name.is_none() && empty.video_codec.is_none() && empty.audio_codec.is_none());
}

#[test]
fn sample_rate_text_read_as_u32() {
    let rate = |text: &str| {
        let out = format!(r#"{{"streams":[{{"codec_type":"audio","codec_name":"aac","sample_rate":"{}"}}]}}"#, text);
        media_info_from_ffprobe_output(&out).unwrap().audio_sample_rate
    };
    assert_eq!(rate("48000"), Some(48000));
    assert_eq!(rate("+44100"), Some(44100));
    assert_eq!(rate("4294967295"), Some(4294967295));
    assert_eq!(rate("4294967296"), None);
    assert_eq!(rate("99999999999999999999"), None);
    assert_eq!(rate("-1"), None);
    assert_eq!(rate("+"), None);
    assert_eq!(rate(""), None);
    assert_eq!(rate(" 48000"), None);
}

#[test]
fn paths_joined_with_the_platform_separator() {
    assert_eq!(path_join_with("/m", "a.mp4", '/'), "/m/a.mp4");
    assert_eq!(path_join_with("C:\\media", "a.mp4", '\\'), "C:\\media\\a.mp4");
    assert_eq!(path_join_with("C:\\media\\", "a.mp4", '\\'), "C:\\media\\a.mp4");
    assert_eq!(path_join_with("C:/media/", "a.mp4", '\\'), "C:/media/a.mp4");
    assert_eq!(path_join_with("C:", "a.mp4", '\\'), "C:a.mp4");
    assert_eq!(path_join_with("C:\\media", "\\x", '\\'), "C:\\x");
    assert_eq!(path_join_with("C:\\media", "D:x", '\\'), "D:x");
    assert_eq!(path_join_with("/m\\", "a", '/'), "/m\\/a");
    assert_eq!(
        get_cache_path_with("C:\\media", "a.mp4", CacheProfile::RemuxTs, '\\'),
        "C:\\media\\.cache\\a.mp4.dlna-remux-ts-v1.ts"
    );
    let native = std::path::Path::new("/m").join("a.mp4");
    assert_eq!(path_join("/m", "a.mp4"), native.to_string_lossy());
    let native = std::path::Path::new("dir").join("/abs");
    assert_eq!(path_join("dir", "/abs"), native.to_string_lossy());
}

#[test]
fn upload_checks_give_the_refusal_message() {
    let e = check_upload_target(".a.mp4", false).unwrap_err();
    assert_eq!((e.status, e.message.as_str()), (400, "Media filename must not start with a dot"));
    let e = check_delete("../x.mp4", true).unwrap_err();
    assert_eq!((e.status, e.message.as_str()), (400, "Invalid media filename"));
    let e = check_rename("a.mp4", "b.txt", true, false).unwrap_err();
    assert_eq!(e.message, "Invalid file extension 'txt'. Allowed: [\"mp4\", \"webm\", \"avi\", \"mkv\", \"mov\"]");
    let e = media_file_info("noext", Err("x".to_string())).unwrap_err();
    assert_eq!(e.message, "Invalid file extension 'noext'. Allowed: [\"mp4\", \"webm\", \"avi\", \"mkv\", \"mov\"]");
}

#[test]
fn media_names_sorted_as_str_orders_them() {
    let names = vec!["b.mp4", "A.mp4", "a.mp4", "ab.mp4", "a", "é.mp4", "z.mp4"];
    let sorted = sort_media_names(names.iter().map(|n| n.to_string()).collect());
    let mut expected: Vec<String> = names.iter().map(|n| n.to_string()).collect();
    expected.sort();
    assert_eq!(sorted, expected);
    assert_eq!(sorted, vec!["A.mp4", "a", "a.mp4", "ab.mp4", "b.mp4", "z.mp4", "é.mp4"]);
    assert!(sort_media_names(Vec::new()).is_empty());
}
