use facepass::config::{
    default_active_preset, default_anti_spoof_mode, default_color_order, default_consecutive_match_frames,
    default_data_dir, default_device, default_embedding_dim, default_input_layout, default_log_level,
    default_max_frames, default_socket_path, default_timeout, default_valid_frames, normalize_preset_name,
    validate_config, AntiSpoofMode, ColorOrder, DaemonConfig, DetectorKind, InputLayout, RecognizerKind,
    StorageConfig, ValidationFacts,
};
use facepass::error::Error;
use facepass::preset::{
    clone_value, default_dev_preset, merge_toml_value, validate_preset_override, ConfigFile, TomlEntry, TomlValue,
};
use facepass::runtime::{apply_log_level, daemon_runtime_state, log_level_filter, reconcile_daemon, LogLevel};

fn existing_path() -> String {
    "/bin/sh".to_string()
}

fn missing_model_path(name: &str) -> String {
    format!("/tmp/facepass-test-missing-{name}.onnx")
}

/// The facts of a valid configuration, with every model found.
fn valid_base_facts() -> ValidationFacts {
    ValidationFacts {
        detector_path: existing_path(),
        detector_path_exists: true,
        detector_input_width: 640,
        detector_input_height: 640,
        detector_score_threshold_in_unit_range: true,
        detector_nms_threshold_in_unit_range: true,
        recognizer_path: existing_path(),
        recognizer_path_exists: true,
        recognizer_model_id: "ghostfacenet-512".to_string(),
        recognizer_embedding_dim: 512,
        recognizer_input_width: 112,
        recognizer_input_height: 112,
        recognizer_std_all_positive: true,
        similarity_threshold_in_unit_range: true,
        anti_spoof_threshold_in_unit_range: true,
        v2_input_size: 80,
        v1se_input_size: 80,
        v2_crop_scale_in_range: true,
        v1se_crop_scale_in_range: true,
        valid_crop_scale_in_range: true,
        max_frames: default_max_frames(),
        valid_frames: default_valid_frames(),
        consecutive_match_frames: default_consecutive_match_frames(),
        timeout: default_timeout(),
    }
}

fn table(entries: Vec<(&str, TomlValue)>) -> TomlValue {
    TomlValue::Table(entries.into_iter().map(|(k, v)| TomlEntry { key: k.to_string(), value: v }).collect())
}

fn get<'a>(v: &'a TomlValue, key: &str) -> Option<&'a TomlValue> {
    match v {
        TomlValue::Table(entries) => entries.iter().find(|e| e.key == key).map(|e| &e.value),
        _ => None,
    }
}

fn integer(v: Option<&TomlValue>) -> Option<i64> {
    match v {
        Some(TomlValue::Integer(n)) => Some(*n),
        _ => None,
    }
}

#[test]
fn test_default_config_uses_scrfd_and_ghostfacenet() {
    assert_eq!(DetectorKind::default(), DetectorKind::Scrfd);
    assert_eq!(RecognizerKind::default(), RecognizerKind::Ghostfacenet);
}

#[test]
fn test_default_values() {
    assert_eq!(default_device(), "/dev/video0");
    assert_eq!(default_timeout(), 5);
    assert_eq!(default_max_frames(), 30);
    assert_eq!(default_valid_frames(), 5);
    assert_eq!(default_consecutive_match_frames(), 1);
    assert_eq!(default_socket_path(), "/run/facepass/facepass.sock");
    assert_eq!(default_log_level(), "info");
    assert_eq!(default_data_dir(), "/var/lib/facepass/faces");
    assert_eq!(default_active_preset(), "default");
    assert_eq!(default_input_layout(), InputLayout::Nhwc);
    assert_eq!(default_color_order(), ColorOrder::Rgb);
    assert_eq!(default_embedding_dim(), 512);
    assert_eq!(default_anti_spoof_mode(), AntiSpoofMode::MiniFASNetV2);
    assert_eq!(AntiSpoofMode::Fusion.as_str(), "fusion");
    assert_eq!(InputLayout::Nchw.as_str(), "nchw");
    let daemon = DaemonConfig::default();
    assert_eq!(daemon.pid_file, "/run/facepass/facepass.pid");
}

#[test]
fn test_validate_allows_missing_anti_spoof_models() {
    let facts = valid_base_facts();
    let _ = (missing_model_path("anti-spoof-v2"), missing_model_path("anti-spoof-v1se"));
    assert!(validate_config(&facts).is_ok());
}

#[test]
fn test_validate_rejects_missing_active_model() {
    let mut facts = valid_base_facts();
    facts.recognizer_path = missing_model_path("ghost");
    facts.recognizer_path_exists = false;
    let err = validate_config(&facts).unwrap_err();
    assert!(err.message().contains("Active recognizer model not found"));
}

#[test]
fn test_validate_rejects_invalid_preprocess_std() {
    let mut facts = valid_base_facts();
    facts.recognizer_std_all_positive = false;
    let err = validate_config(&facts).unwrap_err();
    assert!(err.message().contains("Recognizer preprocess std values must be greater than 0"));
}

#[test]
fn test_validate_frame_rules_in_order() {
    let mut facts = valid_base_facts();
    facts.max_frames = 3;
    facts.valid_frames = 5;
    assert_eq!(
        validate_config(&facts).unwrap_err(),
        Error::Config("video.max_frames (3) must be greater than or equal to recognition.valid_frames (5)".to_string())
    );
    facts.max_frames = 0;
    facts.consecutive_match_frames = 6;
    assert_eq!(
        validate_config(&facts).unwrap_err(),
        Error::Config(
            "recognition.consecutive_match_frames (6) must be less than or equal to recognition.valid_frames (5)"
                .to_string()
        )
    );
    facts.consecutive_match_frames = 1;
    facts.valid_frames = 0;
    facts.timeout = 0;
    assert!(validate_config(&facts).unwrap_err().message().contains("cannot all be 0"));
    let mut facts = valid_base_facts();
    facts.detector_path = "   ".to_string();
    facts.recognizer_path_exists = false;
    assert_eq!(
        validate_config(&facts).unwrap_err(),
        Error::Config("Active detector model not found:    ".to_string())
    );
}

#[test]
fn test_normalize_preset_name() {
    assert_eq!(normalize_preset_name("  dev \n"), Ok("dev"));
    assert_eq!(normalize_preset_name(" \t"), Err(Error::Config("Preset name cannot be empty".to_string())));
}

fn sample_file() -> ConfigFile {
    let base = table(vec![
        ("video", table(vec![("timeout", TomlValue::Integer(5)), ("max_frames", TomlValue::Integer(30))])),
        ("storage", table(vec![("data_dir", TomlValue::String("/var/lib/facepass/faces".to_string()))])),
    ]);
    ConfigFile {
        active_preset: "default".to_string(),
        base,
        presets: vec![
            TomlEntry {
                key: "dev".to_string(),
                value: table(vec![("video", table(vec![("timeout", TomlValue::Integer(0))]))]),
            },
            TomlEntry { key: "odd".to_string(), value: TomlValue::Integer(3) },
        ],
    }
}

#[test]
fn test_list_presets_puts_default_first() {
    let file = sample_file();
    assert_eq!(file.list_presets(), vec!["default".to_string(), "dev".to_string(), "odd".to_string()]);
    let mut with_default = sample_file();
    with_default.presets.insert(0, TomlEntry { key: "default".to_string(), value: table(vec![]) });
    assert_eq!(with_default.list_presets(), vec!["default".to_string(), "dev".to_string(), "odd".to_string()]);
}

#[test]
fn test_resolve_preset_overlays_base() {
    let file = sample_file();
    let dev = file.resolve_preset(" dev ").unwrap();
    let video = get(&dev, "video");
    assert_eq!(integer(video.and_then(|v| get(v, "timeout"))), Some(0));
    assert_eq!(integer(video.and_then(|v| get(v, "max_frames"))), Some(30));
    assert!(get(&dev, "storage").is_some());
    let default = file.resolve_preset("default").unwrap();
    assert_eq!(integer(get(&default, "video").and_then(|v| get(v, "timeout"))), Some(5));
}

#[test]
fn test_preset_errors() {
    let file = sample_file();
    assert_eq!(
        file.resolve_preset("prod").unwrap_err(),
        Error::Config("Unknown preset 'prod'. Available presets: default, dev, odd".to_string())
    );
    assert_eq!(
        file.resolve_preset("odd").unwrap_err(),
        Error::Config("Preset override must be a TOML table".to_string())
    );
    assert_eq!(file.resolve_preset("  ").unwrap_err(), Error::Config("Preset name cannot be empty".to_string()));
    assert!(validate_preset_override(&TomlValue::Boolean(true)).is_err());
    assert!(validate_preset_override(&table(vec![])).is_ok());
}

#[test]
fn test_set_active_preset_then_read_back() {
    let mut file = sample_file();
    file.set_active_preset("  dev ").unwrap();
    assert_eq!(file.active_preset_name().unwrap(), "dev");
    let active = file.resolve_active_preset().unwrap();
    assert_eq!(integer(get(&active, "video").and_then(|v| get(v, "timeout"))), Some(0));
    assert!(file.set_active_preset("prod").is_err());
    assert_eq!(file.active_preset, "dev");
    assert!(file.set_active_preset("default").is_ok());
    assert_eq!(file.active_preset_name().unwrap(), "default");
}

#[test]
fn test_merge_toml_value_rules() {
    let mut base = table(vec![("a", TomlValue::Integer(1)), ("t", table(vec![("x", TomlValue::Integer(1))]))]);
    let overlay = table(vec![
        ("t", table(vec![("y", TomlValue::Integer(2))])),
        ("b", TomlValue::String("new".to_string())),
    ]);
    merge_toml_value(&mut base, &overlay);
    assert_eq!(integer(get(&base, "a")), Some(1));
    assert_eq!(integer(get(get(&base, "t").unwrap(), "x")), Some(1));
    assert_eq!(integer(get(get(&base, "t").unwrap(), "y")), Some(2));
    assert!(matches!(get(&base, "b"), Some(TomlValue::String(s)) if s == "new"));

    let mut leaf = TomlValue::Integer(9);
    merge_toml_value(&mut leaf, &table(vec![("k", TomlValue::Boolean(true))]));
    assert!(matches!(get(&leaf, "k"), Some(TomlValue::Boolean(true))));

    let mut replaced = table(vec![("k", TomlValue::Boolean(true))]);
    merge_toml_value(&mut replaced, &TomlValue::Float(1.5f64.to_bits()));
    assert!(matches!(replaced, TomlValue::Float(b) if b == 1.5f64.to_bits()));

    let copy = clone_value(&overlay);
    assert!(matches!(get(&copy, "b"), Some(TomlValue::String(s)) if s == "new"));
}

#[test]
fn test_reload_defers_socket_and_pid() {
    let running = DaemonConfig::default();
    let loaded = DaemonConfig {
        socket_path: "/tmp/other.sock".to_string(),
        log_level: "debug".to_string(),
        pid_file: running.pid_file.clone(),
    };
    let (settled, deferred) = reconcile_daemon(&running, loaded);
    assert_eq!(deferred, vec!["daemon.socket_path"]);
    assert_eq!(settled.socket_path, running.socket_path);
    assert_eq!(settled.log_level, "debug");
    let again = reconcile_daemon(&running, settled).1;
    assert!(again.is_empty());
    let state = daemon_runtime_state("dev", &running);
    assert_eq!(state.running_preset, "dev");
    assert_eq!(state.socket_path, running.socket_path);
}

#[test]
fn test_log_level_names() {
    assert_eq!(log_level_filter("trace"), LogLevel::Trace);
    assert_eq!(log_level_filter("debug"), LogLevel::Debug);
    assert_eq!(log_level_filter("warn"), LogLevel::Warn);
    assert_eq!(log_level_filter("error"), LogLevel::Error);
    assert_eq!(log_level_filter("info"), LogLevel::Info);
    assert_eq!(log_level_filter("verbose"), LogLevel::Info);
    apply_log_level("warn");
}

#[test]
fn test_default_dev_preset() {
    let dev = default_dev_preset();
    assert!(validate_preset_override(&dev).is_ok());
    let keys: Vec<String> = match &dev {
        TomlValue::Table(entries) => entries.iter().map(|e| e.key.clone()).collect(),
        _ => panic!("the dev preset is a table"),
    };
    assert_eq!(keys, vec!["anti_spoof", "daemon", "models", "recognition", "storage", "video"]);
    let video = get(&dev, "video");
    assert_eq!(integer(video.and_then(|v| get(v, "timeout"))), Some(5));
    assert_eq!(integer(video.and_then(|v| get(v, "max_frames"))), Some(50));
    let recognition = get(&dev, "recognition");
    assert_eq!(integer(recognition.and_then(|v| get(v, "valid_frames"))), Some(30));
    match recognition.and_then(|v| get(v, "similarity_threshold")) {
        Some(TomlValue::Float(bits)) => assert_eq!(f64::from_bits(*bits), 0.4),
        _ => panic!("the similarity threshold is a float"),
    }
    let scrfd = get(&dev, "models").and_then(|m| get(m, "scrfd"));
    assert_eq!(integer(scrfd.and_then(|v| get(v, "input_width"))), Some(640));
    let ghost = get(&dev, "models").and_then(|m| get(m, "ghostfacenet"));
    match ghost.and_then(|g| get(g, "preprocess")).and_then(|p| get(p, "std")) {
        Some(TomlValue::Array(items)) => {
            assert_eq!(items.len(), 3);
            for item in items {
                match item {
                    TomlValue::Float(bits) => assert_eq!(f64::from_bits(*bits), 128.0),
                    _ => panic!("std holds floats"),
                }
            }
        },
        _ => panic!("preprocess has a std array"),
    }
    match get(&dev, "daemon").and_then(|d| get(d, "log_level")) {
        Some(TomlValue::String(s)) => assert_eq!(s, "debug"),
        _ => panic!("the log level is a string"),
    }
}

#[test]
fn test_user_data_dir() {
    let storage = StorageConfig { data_dir: "/var/lib/facepass/faces".to_string() };
    assert_eq!(storage.user_data_dir("alice"), "/var/lib/facepass/faces/alice");
    let trailing = StorageConfig { data_dir: "/data/".to_string() };
    assert_eq!(trailing.user_data_dir("bob"), "/data/bob");
    assert_eq!(trailing.user_data_dir("/abs"), "/abs");
}

#[test]
fn test_kind_names_are_distinct() {
    assert_eq!(DetectorKind::Yunet.as_str(), "yunet");
    assert_eq!(DetectorKind::Scrfd.as_str(), "scrfd");
    assert_ne!(DetectorKind::Yunet.as_str(), DetectorKind::Scrfd.as_str());
    let recognizers = [RecognizerKind::Sface, RecognizerKind::Mobilefacenet, RecognizerKind::Ghostfacenet];
    for (i, a) in recognizers.iter().enumerate() {
        for (j, b) in recognizers.iter().enumerate() {
            assert_eq!(a.as_str() == b.as_str(), i == j);
        }
    }
    assert_ne!(InputLayout::Nchw.as_str(), InputLayout::Nhwc.as_str());
    assert_ne!(ColorOrder::Bgr.as_str(), ColorOrder::Rgb.as_str());
    let modes = [AntiSpoofMode::MiniFASNetV2, AntiSpoofMode::MiniFASNetV1SE, AntiSpoofMode::Fusion];
    for (i, a) in modes.iter().enumerate() {
        for (j, b) in modes.iter().enumerate() {
            assert_eq!(a.as_str() == b.as_str(), i == j);
        }
    }
}
