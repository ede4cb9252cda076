use screen_pilot::encoder::ffmpeg::{
    encoder_names_from_listing, encoders_from_listing, ffmpeg_search_paths, find_ffmpeg, map_ffmpeg_encoder, parse_encoder_line, FfmpegEncoderInfo,
};
use screen_pilot::encoder::gpu::{
    backend_matches_detected_gpu, detect_gpu_encoders, detect_gpu_vendors, drm_vendor_exists, lspci_vendor_has_display,
    nvidia_name_from_smi, windows_gpu_name_matches, DrmEntry, GpuVendor,
};
use screen_pilot::encoder::os_framework::{
    detect_os_framework_encoders, detect_vaapi_device_name, has_render_node, DriverLink, DrmCard, OsFrameworkProbe,
};
use screen_pilot::encoder::runtime::{
    is_l4_enabled, runtime_output_ok, set_l4_enabled, stderr_reports_fatal_error, validate_encoders_runtime,
    validation_args, L4Settings,
};
use screen_pilot::encoder::{
    choose_primary_encoder, combine_detection_layers, dedupe_encoders, detect_preferred_h264_encoder,
    ffmpeg_encoder_name_for_backend, filter_encoders_with_ffmpeg_support, filter_ffmpeg_encoders_by_detected_hardware,
    finish_detection, DetectionSource, EncoderBackend, HostOs, HwEncoder, VideoCodec,
};

fn enc(codec: VideoCodec, backend: EncoderBackend, device: Option<&str>, priority: u8, name: &str) -> HwEncoder {
    HwEncoder { codec, backend, device: device.map(|d| d.to_string()), priority, ffmpeg_name: name.to_string() }
}

#[test]
fn test_parse_encoder_line_nvenc() {
    let line = " V....D h264_nvenc           NVIDIA NVENC H.264 encoder [NVIDIA GeForce RTX 3080]";
    let info = parse_encoder_line(line).unwrap();
    assert_eq!(info.ffmpeg_name, "h264_nvenc");
    assert_eq!(info.codec_name, "h264");
    assert!(info.is_hardware);
}

#[test]
fn test_parse_encoder_line_qsv() {
    let line = " V..... hevc_qsv             Intel Quick Sync Video HEVC encoder [Intel Iris Xe]";
    let info = parse_encoder_line(line).unwrap();
    assert_eq!(info.ffmpeg_name, "hevc_qsv");
    assert_eq!(info.codec_name, "hevc");
}

#[test]
fn test_parse_encoder_line_videotoolbox() {
    let line = " V....D h264_videotoolbox    Apple VideoToolbox H.264 encoder";
    let info = parse_encoder_line(line).unwrap();
    assert_eq!(info.ffmpeg_name, "h264_videotoolbox");
}

#[test]
fn test_parse_encoder_line_vaapi() {
    let line = " V....D hevc_vaapi           VAAPI HEVC encoder";
    let info = parse_encoder_line(line).unwrap();
    assert_eq!(info.ffmpeg_name, "hevc_vaapi");
}

#[test]
fn test_parse_encoder_line_software() {
    let line = " V....D libx264              libx264 H.264 encoder";
    let info = parse_encoder_line(line);
    assert!(info.is_none());
}

#[test]
fn test_map_ffmpeg_encoder_nvenc() {
    let info = FfmpegEncoderInfo {
        ffmpeg_name: "h264_nvenc".to_string(),
        codec_name: "h264".to_string(),
        is_hardware: true,
    };
    let encoder = map_ffmpeg_encoder(&info).unwrap();
    assert_eq!(encoder.codec, VideoCodec::H264);
    assert_eq!(encoder.backend, EncoderBackend::Nvenc);
    assert_eq!(encoder.ffmpeg_name, "h264_nvenc");
    assert_eq!(encoder.priority, 3);
}

#[test]
fn test_map_ffmpeg_encoder_qsv() {
    let info = FfmpegEncoderInfo {
        ffmpeg_name: "av1_qsv".to_string(),
        codec_name: "av1".to_string(),
        is_hardware: true,
    };
    let encoder = map_ffmpeg_encoder(&info).unwrap();
    assert_eq!(encoder.codec, VideoCodec::Av1);
    assert_eq!(encoder.backend, EncoderBackend::Qsv);
}

#[test]
fn test_map_ffmpeg_encoder_unknown() {
    let info = FfmpegEncoderInfo {
        ffmpeg_name: "libx264".to_string(),
        codec_name: "h264".to_string(),
        is_hardware: false,
    };
    let encoder = map_ffmpeg_encoder(&info);
    assert!(encoder.is_none());
}

#[test]
fn test_detect_gpu_encoders() {
    let vendors = detect_gpu_vendors(false, true, false);
    let result = detect_gpu_encoders(&vendors, &None, &Some("Intel GPU".to_string()), &None);
    assert!(result.is_ok());
    let encoders = result.unwrap();
    assert_eq!(encoders.len(), 2);
    assert_eq!(encoders[0].ffmpeg_name, "h264_qsv");
    assert_eq!(encoders[1].ffmpeg_name, "hevc_qsv");
    assert_eq!(encoders[0].priority, 1);
    assert_eq!(encoders[0].device.as_deref(), Some("Intel GPU"));
}

#[test]
fn test_lspci_vendor_has_display_checks_same_line() {
    let output = "\
00:02.0 VGA compatible controller [0300]: Intel Corporation Device [8086:a788]
00:14.0 USB controller [0c03]: Advanced Micro Devices, Inc. [AMD] Device [1022:abcd]
";
    assert!(lspci_vendor_has_display(output, "8086"));
    assert!(!lspci_vendor_has_display(output, "1002"));
}

#[test]
fn test_backend_matches_detected_gpu() {
    let vendors = vec![GpuVendor::Intel];
    assert!(backend_matches_detected_gpu(EncoderBackend::Qsv, &vendors, HostOs::Linux));
    assert!(!backend_matches_detected_gpu(EncoderBackend::Amf, &vendors, HostOs::Linux));
    assert!(!backend_matches_detected_gpu(EncoderBackend::Nvenc, &vendors, HostOs::Linux));
}

#[test]
fn test_encoder_backend_display() {
    assert_eq!(EncoderBackend::Nvenc.to_string(), "nvenc");
    assert_eq!(EncoderBackend::Qsv.to_string(), "qsv");
    assert_eq!(EncoderBackend::Software.to_string(), "software");
}

#[test]
fn test_video_codec_display() {
    assert_eq!(VideoCodec::H264.to_string(), "h264");
    assert_eq!(VideoCodec::Hevc.to_string(), "hevc");
}

#[test]
fn test_choose_primary_encoder_uses_backend_rank_for_ties() {
    let encoders = vec![
        enc(VideoCodec::H264, EncoderBackend::Amf, Some("AMD GPU"), 1, "h264_amf"),
        enc(VideoCodec::H264, EncoderBackend::Qsv, Some("Intel GPU"), 1, "h264_qsv"),
    ];
    let primary = choose_primary_encoder(encoders).unwrap();
    assert_eq!(primary.backend, EncoderBackend::Qsv);
}

#[test]
fn test_dedupe_encoders_keeps_first_matching_encoder() {
    let encoders = vec![
        enc(VideoCodec::H264, EncoderBackend::Qsv, Some("Intel GPU"), 1, "h264_qsv"),
        enc(VideoCodec::H264, EncoderBackend::Qsv, None, 3, "h264_qsv"),
    ];
    let deduped = dedupe_encoders(encoders);
    assert_eq!(deduped.len(), 1);
    assert_eq!(deduped[0].priority, 1);
    assert_eq!(deduped[0].device.as_deref(), Some("Intel GPU"));
}

#[test]
fn test_detect_os_framework() {
    let probe = OsFrameworkProbe {
        ffmpeg_encoders: None,
        vaapi_device: None,
        has_render_device: false,
        vainfo_output: None,
        mf_registry_present: false,
    };
    let result = detect_os_framework_encoders(HostOs::Linux, &probe);
    assert!(result.is_ok());
}

#[test]
fn test_l4_enabled_by_default() {
    let settings = L4Settings::new();
    assert!(!is_l4_enabled(&settings));
}

#[test]
fn test_set_l4_enabled() {
    let mut settings = L4Settings::new();
    set_l4_enabled(&mut settings, true);
    assert!(is_l4_enabled(&settings));
    set_l4_enabled(&mut settings, false);
    assert!(!is_l4_enabled(&settings));
}

#[test]
fn macos_framework_lists_videotoolbox() {
    let probe = OsFrameworkProbe {
        ffmpeg_encoders: Some(" V....D h264_videotoolbox  VideoToolbox H.264\n V....D hevc_videotoolbox x".to_string()),
        vaapi_device: None,
        has_render_device: false,
        vainfo_output: None,
        mf_registry_present: false,
    };
    let encoders = detect_os_framework_encoders(HostOs::Macos, &probe).unwrap();
    assert!(encoders.iter().any(|e| e.ffmpeg_name == "h264_videotoolbox" && e.priority == 2));
    assert!(encoders.iter().all(|e| e.backend == EncoderBackend::Videotoolbox));
}

#[test]
fn ffmpeg_listing_gives_hardware_encoders_only() {
    let listing = "Encoders:\n V....D libx264   x264\n V....D h264_nvenc  NVENC\n V....D hevc_qsv   QSV\n";
    let encoders = encoders_from_listing(listing);
    let names: Vec<&str> = encoders.iter().map(|e| e.ffmpeg_name.as_str()).collect();
    assert_eq!(names, vec!["h264_nvenc", "hevc_qsv"]);
    assert!(encoders.iter().all(|e| e.priority == 3));
}

#[test]
fn ffmpeg_name_for_backend_joins_codec_and_backend() {
    assert_eq!(ffmpeg_encoder_name_for_backend(EncoderBackend::Qsv, VideoCodec::Hevc), Some("hevc_qsv".to_string()));
    assert_eq!(ffmpeg_encoder_name_for_backend(EncoderBackend::Software, VideoCodec::H264), None);
}

#[test]
fn filters_keep_supported_and_matching_encoders() {
    let encoders = vec![
        enc(VideoCodec::H264, EncoderBackend::Nvenc, None, 1, "h264_nvenc"),
        enc(VideoCodec::H264, EncoderBackend::Qsv, None, 1, "h264_qsv"),
    ];
    let names = vec!["h264_qsv".to_string()];
    let kept = filter_encoders_with_ffmpeg_support(encoders, &names);
    assert_eq!(kept.len(), 1);
    assert_eq!(kept[0].backend, EncoderBackend::Qsv);

    let ffmpeg = vec![
        enc(VideoCodec::H264, EncoderBackend::Amf, None, 3, "h264_amf"),
        enc(VideoCodec::H264, EncoderBackend::Videotoolbox, None, 3, "h264_videotoolbox"),
        enc(VideoCodec::H264, EncoderBackend::Qsv, None, 3, "h264_qsv"),
    ];
    let kept = filter_ffmpeg_encoders_by_detected_hardware(ffmpeg, &[GpuVendor::Intel], HostOs::Macos);
    let names: Vec<&str> = kept.iter().map(|e| e.ffmpeg_name.as_str()).collect();
    assert_eq!(names, vec!["h264_videotoolbox", "h264_qsv"]);
}

#[test]
fn detection_layers_and_fallback() {
    let gpu = Ok(vec![enc(VideoCodec::H264, EncoderBackend::Nvenc, Some("RTX"), 1, "h264_nvenc")]);
    let os: Result<Vec<HwEncoder>, String> = Err("no framework".to_string());
    let ff = Ok(vec![
        enc(VideoCodec::H264, EncoderBackend::Nvenc, None, 3, "h264_nvenc"),
        enc(VideoCodec::H264, EncoderBackend::Amf, None, 3, "h264_amf"),
    ]);
    let names = vec!["h264_nvenc".to_string()];
    let (all, sources) = combine_detection_layers(gpu, os, ff, &names, &[GpuVendor::Nvidia], HostOs::Linux);
    assert_eq!(all.len(), 2);
    assert_eq!(sources, vec![DetectionSource::L1GpuApi, DetectionSource::L3Ffmpeg]);
    let result = finish_detection(all, sources, false, 12);
    assert_eq!(result.encoders.len(), 1);
    assert_eq!(result.primary.as_ref().unwrap().priority, 1);
    assert_eq!(result.detection_time_ms, 12);

    let empty = finish_detection(Vec::new(), Vec::new(), true, 3);
    assert_eq!(empty.encoders.len(), 1);
    assert_eq!(empty.encoders[0].ffmpeg_name, "libx264");
    assert_eq!(empty.encoders[0].backend, EncoderBackend::Software);
    assert_eq!(empty.encoders[0].priority, 10);
    assert_eq!(empty.primary.unwrap().ffmpeg_name, "libx264");
    assert_eq!(empty.sources, vec![DetectionSource::L4Runtime]);
}

#[test]
fn preferred_h264_encoder_ranks_hardware_only() {
    let gpu = Ok(vec![
        enc(VideoCodec::Hevc, EncoderBackend::Nvenc, None, 1, "hevc_nvenc"),
        enc(VideoCodec::H264, EncoderBackend::Amf, None, 1, "h264_amf"),
    ]);
    let ff = Ok(vec![enc(VideoCodec::H264, EncoderBackend::Qsv, None, 3, "h264_qsv")]);
    let names = vec!["hevc_nvenc".to_string(), "h264_amf".to_string(), "h264_qsv".to_string()];
    let best = detect_preferred_h264_encoder(gpu, Ok(Vec::new()), ff, &names, &[GpuVendor::Intel], HostOs::Linux);
    assert_eq!(best.unwrap().ffmpeg_name, "h264_amf");
    let none = detect_preferred_h264_encoder(Ok(Vec::new()), Ok(Vec::new()), Ok(Vec::new()), &[], &[], HostOs::Linux);
    assert!(none.is_none());
}

#[test]
fn runtime_validation_keeps_passing_encoders() {
    let encoders = vec![
        enc(VideoCodec::H264, EncoderBackend::Nvenc, None, 1, "h264_nvenc"),
        enc(VideoCodec::H264, EncoderBackend::Qsv, None, 1, "h264_qsv"),
    ];
    let mut settings = L4Settings::new();
    assert_eq!(validate_encoders_runtime(&settings, &encoders, &[false, false]).len(), 2);
    set_l4_enabled(&mut settings, true);
    let kept = validate_encoders_runtime(&settings, &encoders, &[false, true]);
    assert_eq!(kept.len(), 1);
    assert_eq!(kept[0].ffmpeg_name, "h264_qsv");
    assert!(validate_encoders_runtime(&settings, &encoders, &[false, false]).is_empty());
}

#[test]
fn runtime_output_judged_by_status_and_errors() {
    assert!(runtime_output_ok(true, "frame=25 fps=0.0\n"));
    assert!(!runtime_output_ok(false, ""));
    assert!(!runtime_output_ok(true, "[h264_nvenc] Cannot load libcuda\nError initializing output stream\n"));
    assert!(runtime_output_ok(true, "Warning: error concealment deprecated\n"));
    assert!(stderr_reports_fatal_error("failed", &["conversion failed".to_string()]));
    assert!(!stderr_reports_fatal_error("all good", &["conversion failed".to_string()]));
    assert!(!stderr_reports_fatal_error("failed", &["deprecated: failed option".to_string()]));
    assert_eq!(validation_args("h264_qsv")[7], "h264_qsv");
    assert_eq!(validation_args("h264_qsv").len(), 12);
}

#[test]
fn gpu_probes_from_plain_values() {
    assert_eq!(nvidia_name_from_smi("  NVIDIA GeForce RTX 3080 \n"), Some("NVIDIA GeForce RTX 3080".to_string()));
    assert_eq!(nvidia_name_from_smi("   "), None);
    let entries = vec![
        DrmEntry { name: "card0-HDMI-A-1".to_string(), vendor: Some("0x8086".to_string()) },
        DrmEntry { name: "card1".to_string(), vendor: Some(" 0X1002\n".to_string()) },
    ];
    assert!(drm_vendor_exists(&entries, "0x1002"));
    assert!(!drm_vendor_exists(&entries, "0x8086"));
    assert!(windows_gpu_name_matches(Some("NVIDIA GeForce RTX 4090"), &["nvidia", "geforce"]));
    assert!(!windows_gpu_name_matches(None, &["nvidia"]));
}

#[test]
fn vaapi_device_and_render_nodes() {
    let cards = vec![
        DrmCard { name: "renderD128".to_string(), driver: DriverLink::Named("i915".to_string()) },
        DrmCard { name: "card0".to_string(), driver: DriverLink::Unreadable },
        DrmCard { name: "card1".to_string(), driver: DriverLink::Named("amdgpu".to_string()) },
    ];
    assert_eq!(detect_vaapi_device_name(&cards), Some("amdgpu (VAAPI)".to_string()));
    assert_eq!(detect_vaapi_device_name(&[]), Some("VAAPI".to_string()));
    let unnamed = vec![DrmCard { name: "card0".to_string(), driver: DriverLink::Unnamed }];
    assert_eq!(detect_vaapi_device_name(&unnamed), None);
    assert!(has_render_node(&["card0".to_string(), "renderD128".to_string()]));
    assert!(!has_render_node(&["card0".to_string()]));
}

#[test]
fn ffmpeg_search_order() {
    let paths = ffmpeg_search_paths(HostOs::Linux, "/work", Some("/proj"), &["/usr/local/bin".to_string()]);
    assert_eq!(
        paths,
        vec![
            "/work/ffmpeg",
            "/proj/ffmpeg",
            "/usr/local/bin/ffmpeg",
            "/usr/bin/ffmpeg",
            "/usr/local/bin/ffmpeg",
            "/opt/ffmpeg/bin/ffmpeg"
        ]
    );
    assert_eq!(find_ffmpeg(&paths, &[false, true]), Ok("/proj/ffmpeg".to_string()));
    assert_eq!(find_ffmpeg(&paths, &[false]), Err("FFmpeg not found in any searched location".to_string()));
}

#[test]
fn dedupe_keeps_order_and_is_idempotent() {
    let encoders = vec![
        enc(VideoCodec::Hevc, EncoderBackend::Nvenc, None, 3, "hevc_nvenc"),
        enc(VideoCodec::H264, EncoderBackend::Qsv, None, 3, "h264_qsv"),
        enc(VideoCodec::Hevc, EncoderBackend::Nvenc, Some("RTX"), 1, "hevc_nvenc"),
        enc(VideoCodec::H264, EncoderBackend::Vaapi, None, 2, "h264_vaapi"),
    ];
    let once = dedupe_encoders(encoders);
    let names: Vec<&str> = once.iter().map(|e| e.ffmpeg_name.as_str()).collect();
    assert_eq!(names, vec!["hevc_nvenc", "h264_qsv", "h264_vaapi"]);
    assert_eq!(once[0].priority, 3);
    let twice = dedupe_encoders(once.clone());
    let names2: Vec<&str> = twice.iter().map(|e| e.ffmpeg_name.as_str()).collect();
    assert_eq!(names, names2);
}

#[test]
fn tracked_encoder_names_follow_the_codec_backend_pattern() {
    for codec in ["h264", "hevc", "av1"] {
        for backend in ["nvenc", "qsv", "amf", "videotoolbox", "vaapi"] {
            let name = format!("{}_{}", codec, backend);
            let info = FfmpegEncoderInfo { ffmpeg_name: name.clone(), codec_name: codec.to_string(), is_hardware: true };
            let e = map_ffmpeg_encoder(&info).unwrap();
            assert_eq!(e.ffmpeg_name, name);
            assert_eq!(e.priority, 3);
            assert!(e.device.is_none());
        }
    }
    let av1 = FfmpegEncoderInfo { ffmpeg_name: "av1_qsv".to_string(), codec_name: "av1".to_string(), is_hardware: true };
    let e = map_ffmpeg_encoder(&av1).unwrap();
    assert_eq!((e.codec, e.backend), (VideoCodec::Av1, EncoderBackend::Qsv));
    for other in ["libx264", "h264_mf", "vp9_vaapi", "h264_v4l2m2m"] {
        let info = FfmpegEncoderInfo { ffmpeg_name: other.to_string(), codec_name: String::new(), is_hardware: false };
        assert!(map_ffmpeg_encoder(&info).is_none());
    }
    let line = parse_encoder_line(" V....D hevc_vaapi  H.265/HEVC (VAAPI)").unwrap();
    assert!(map_ffmpeg_encoder(&line).is_some());
}

#[test]
fn all_encoder_names_of_a_listing() {
    let listing = "Encoders:\n V..... = Video\n ------\n V....D libx264              libx264 H.264\n V....D h264_mf  H264 via MediaFoundation\n V....D vp9_vaapi  VP9 (VAAPI)\n";
    let names = encoder_names_from_listing(listing);
    assert_eq!(names, vec!["libx264", "h264_mf", "vp9_vaapi"]);
}
