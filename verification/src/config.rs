//! Configuration: model kinds, the sections without floating-point fields and
//! their defaults, preset names, and the ordered validation rules.

use crate::error::Error;
use crate::selector::same_error;
use crate::storage::{join_path, path_join};
use crate::text::{decimal, push_decimal, trim, trimmed};
use vstd::prelude::*;
use vstd::string::StringExecFns;

verus! {

pub const DEFAULT_CONFIG_PATH: &'static str = "/etc/facepass/config.toml";
pub const USER_CONFIG_PATH: &'static str = ".config/facepass/config.toml";
pub const DEFAULT_RUNTIME_STATE_PATH: &'static str = "/run/facepass/runtime-state.json";
pub const DEFAULT_PRESET_NAME: &'static str = "default";
pub const DEFAULT_DATA_DIR: &'static str = "/var/lib/facepass/faces";
pub const DEFAULT_MODELS_DIR: &'static str = "/usr/share/facepass/models";
pub const DEFAULT_SOCKET_PATH: &'static str = "/run/facepass/facepass.sock";

/// Face detector backends.
#[derive(Debug, Clone, Copy, PartialEq, Eq, Structural)]
pub enum DetectorKind {
    Yunet,
    Scrfd,
}

/// The name of a `DetectorKind` in configuration files.
pub open spec fn detector_name(k: DetectorKind) -> Seq<char> {
    match k {
        DetectorKind::Yunet => "yunet"@,
        DetectorKind::Scrfd => "scrfd"@,
    }
}

impl DetectorKind {
    /// The name used in configuration files.
    pub fn as_str(self) -> (r: &'static str)
        ensures
            r@ == detector_name(self),
    {
        match self {
            DetectorKind::Yunet => "yunet",
            DetectorKind::Scrfd => "scrfd",
        }
    }
}

impl Default for DetectorKind {
    fn default() -> (r: Self)
        ensures
            r == DetectorKind::Scrfd,
    {
        DetectorKind::Scrfd
    }
}

/// Face recognizer backends.
#[derive(Debug, Clone, Copy, PartialEq, Eq, Structural)]
pub enum RecognizerKind {
    Sface,
    Mobilefacenet,
    Ghostfacenet,
}

/// The name of a `RecognizerKind` in configuration files.
pub open spec fn recognizer_name(k: RecognizerKind) -> Seq<char> {
    match k {
        RecognizerKind::Sface => "sface"@,
        RecognizerKind::Mobilefacenet => "mobilefacenet"@,
        RecognizerKind::Ghostfacenet => "ghostfacenet"@,
    }
}

impl RecognizerKind {
    /// The name used in configuration files.
    pub fn as_str(self) -> (r: &'static str)
        ensures
            r@ == recognizer_name(self),
    {
        match self {
            RecognizerKind::Sface => "sface",
            RecognizerKind::Mobilefacenet => "mobilefacenet",
            RecognizerKind::Ghostfacenet => "ghostfacenet",
        }
    }
}

impl Default for RecognizerKind {
    fn default() -> (r: Self)
        ensures
            r == RecognizerKind::Ghostfacenet,
    {
        RecognizerKind::Ghostfacenet
    }
}

/// Tensor layout of the recognizer input.
#[derive(Debug, Clone, Copy, PartialEq, Eq, Structural)]
pub enum InputLayout {
    Nchw,
    Nhwc,
}

/// The name of a `InputLayout` in configuration files.
pub open spec fn layout_name(k: InputLayout) -> Seq<char> {
    match k {
        InputLayout::Nchw => "nchw"@,
        InputLayout::Nhwc => "nhwc"@,
    }
}

impl InputLayout {
    /// The name used in configuration files.
    pub fn as_str(self) -> (r: &'static str)
        ensures
            r@ == layout_name(self),
    {
        match self {
            InputLayout::Nchw => "nchw",
            InputLayout::Nhwc => "nhwc",
        }
    }
}

/// Channel order of the recognizer input.
#[derive(Debug, Clone, Copy, PartialEq, Eq, Structural)]
pub enum ColorOrder {
    Bgr,
    Rgb,
}

/// The name of a `ColorOrder` in configuration files.
pub open spec fn color_order_name(k: ColorOrder) -> Seq<char> {
    match k {
        ColorOrder::Bgr => "bgr"@,
        ColorOrder::Rgb => "rgb"@,
    }
}

impl ColorOrder {
    /// The name used in configuration files.
    pub fn as_str(self) -> (r: &'static str)
        ensures
            r@ == color_order_name(self),
    {
        match self {
            ColorOrder::Bgr => "bgr",
            ColorOrder::Rgb => "rgb",
        }
    }
}

/// Which liveness models run.
#[derive(Debug, Clone, Copy, PartialEq, Eq, Structural)]
pub enum AntiSpoofMode {
    MiniFASNetV2,
    MiniFASNetV1SE,
    Fusion,
}

/// The name of a `AntiSpoofMode` in configuration files.
pub open spec fn anti_spoof_mode_name(k: AntiSpoofMode) -> Seq<char> {
    match k {
        AntiSpoofMode::MiniFASNetV2 => "minifasnet_v2"@,
        AntiSpoofMode::MiniFASNetV1SE => "minifasnet_v1se"@,
        AntiSpoofMode::Fusion => "fusion"@,
    }
}

impl AntiSpoofMode {
    /// The name used in configuration files.
    pub fn as_str(self) -> (r: &'static str)
        ensures
            r@ == anti_spoof_mode_name(self),
    {
        match self {
            AntiSpoofMode::MiniFASNetV2 => "minifasnet_v2",
            AntiSpoofMode::MiniFASNetV1SE => "minifasnet_v1se",
            AntiSpoofMode::Fusion => "fusion",
        }
    }
}

impl Default for AntiSpoofMode {
    fn default() -> (r: Self)
        ensures
            r == AntiSpoofMode::MiniFASNetV2,
    {
        AntiSpoofMode::MiniFASNetV2
    }
}

/// Each configuration name names one variant only: two variants of a kind
/// with the same name are the same variant.
pub proof fn lemma_kind_names_distinct()
    ensures
        forall|a: DetectorKind, b: DetectorKind| #[trigger] detector_name(a) == #[trigger] detector_name(b) ==> a == b,
        forall|a: RecognizerKind, b: RecognizerKind|
            #[trigger] recognizer_name(a) == #[trigger] recognizer_name(b) ==> a == b,
        forall|a: InputLayout, b: InputLayout| #[trigger] layout_name(a) == #[trigger] layout_name(b) ==> a == b,
        forall|a: ColorOrder, b: ColorOrder|
            #[trigger] color_order_name(a) == #[trigger] color_order_name(b) ==> a == b,
        forall|a: AntiSpoofMode, b: AntiSpoofMode|
            #[trigger] anti_spoof_mode_name(a) == #[trigger] anti_spoof_mode_name(b) ==> a == b,
{
    reveal_strlit("yunet");
    reveal_strlit("scrfd");
    reveal_strlit("sface");
    reveal_strlit("mobilefacenet");
    reveal_strlit("ghostfacenet");
    reveal_strlit("nchw");
    reveal_strlit("nhwc");
    reveal_strlit("bgr");
    reveal_strlit("rgb");
    reveal_strlit("minifasnet_v2");
    reveal_strlit("minifasnet_v1se");
    reveal_strlit("fusion");
    assert("yunet"@[0] != "scrfd"@[0]);
    assert("sface"@.len() != "mobilefacenet"@.len());
    assert("sface"@.len() != "ghostfacenet"@.len());
    assert("mobilefacenet"@.len() != "ghostfacenet"@.len());
    assert("nchw"@[2] != "nhwc"@[2]);
    assert("bgr"@[0] != "rgb"@[0]);
    assert("minifasnet_v2"@.len() != "minifasnet_v1se"@.len());
    assert("minifasnet_v2"@.len() != "fusion"@.len());
    assert("minifasnet_v1se"@.len() != "fusion"@.len());
}

/// Camera settings.
#[derive(Debug)]
pub struct VideoConfig {
    pub device: String,
    pub timeout: u32,
    pub max_frames: u32,
    pub frame_width: u32,
    pub frame_height: u32,
}

pub fn default_device() -> (r: String)
    ensures
        r@ == "/dev/video0"@,
{
    String::from_str("/dev/video0")
}

pub fn default_timeout() -> (r: u32)
    ensures
        r == 5,
{
    5
}

pub fn default_max_frames() -> (r: u32)
    ensures
        r == 30,
{
    30
}

pub fn default_frame_width() -> (r: u32)
    ensures
        r == 640,
{
    640
}

pub fn default_frame_height() -> (r: u32)
    ensures
        r == 480,
{
    480
}

impl Default for VideoConfig {
    fn default() -> (r: Self)
        ensures
            r.device@ == "/dev/video0"@,
            r.timeout == 5,
            r.max_frames == 30,
            r.frame_width == 640,
            r.frame_height == 480,
    {
        VideoConfig {
            device: default_device(),
            timeout: default_timeout(),
            max_frames: default_max_frames(),
            frame_width: default_frame_width(),
            frame_height: default_frame_height(),
        }
    }
}

pub fn default_max_faces_per_group() -> (r: u32)
    ensures
        r == 5,
{
    5
}

pub fn default_consecutive_match_frames() -> (r: u32)
    ensures
        r == 1,
{
    1
}

pub fn default_valid_frames() -> (r: u32)
    ensures
        r == 5,
{
    5
}

pub fn default_stop_on_valid_frames() -> (r: bool)
    ensures
        r,
{
    true
}

/// Conditions under which face authentication is skipped.
#[derive(Debug)]
pub struct SecurityConfig {
    pub ignore_ssh: bool,
    pub ignore_closed_lid: bool,
    pub show_notification: bool,
}

pub fn default_ignore_ssh() -> (r: bool)
    ensures
        r,
{
    true
}

pub fn default_ignore_closed_lid() -> (r: bool)
    ensures
        r,
{
    true
}

impl Default for SecurityConfig {
    fn default() -> (r: Self)
        ensures
            r.ignore_ssh,
            r.ignore_closed_lid,
            !r.show_notification,
    {
        SecurityConfig {
            ignore_ssh: default_ignore_ssh(),
            ignore_closed_lid: default_ignore_closed_lid(),
            show_notification: false,
        }
    }
}

/// Daemon settings.
#[derive(Debug)]
pub struct DaemonConfig {
    pub socket_path: String,
    pub log_level: String,
    pub pid_file: String,
}

pub fn default_socket_path() -> (r: String)
    ensures
        r@ == DEFAULT_SOCKET_PATH@,
{
    String::from_str(DEFAULT_SOCKET_PATH)
}

pub fn default_log_level() -> (r: String)
    ensures
        r@ == "info"@,
{
    String::from_str("info")
}

pub fn default_pid_file() -> (r: String)
    ensures
        r@ == "/run/facepass/facepass.pid"@,
{
    String::from_str("/run/facepass/facepass.pid")
}

impl Default for DaemonConfig {
    fn default() -> (r: Self)
        ensures
            r.socket_path@ == DEFAULT_SOCKET_PATH@,
            r.log_level@ == "info"@,
            r.pid_file@ == "/run/facepass/facepass.pid"@,
    {
        DaemonConfig {
            socket_path: default_socket_path(),
            log_level: default_log_level(),
            pid_file: default_pid_file(),
        }
    }
}

pub fn default_detector_input_width() -> (r: i32)
    ensures
        r == 640,
{
    640
}

pub fn default_detector_input_height() -> (r: i32)
    ensures
        r == 640,
{
    640
}

pub fn default_recognizer_input_width() -> (r: i32)
    ensures
        r == 112,
{
    112
}

pub fn default_recognizer_input_height() -> (r: i32)
    ensures
        r == 112,
{
    112
}

pub fn default_input_layout() -> (r: InputLayout)
    ensures
        r == InputLayout::Nhwc,
{
    InputLayout::Nhwc
}

pub fn default_color_order() -> (r: ColorOrder)
    ensures
        r == ColorOrder::Rgb,
{
    ColorOrder::Rgb
}

pub fn default_l2_normalize() -> (r: bool)
    ensures
        r,
{
    true
}

pub fn default_embedding_dim() -> (r: usize)
    ensures
        r == 512,
{
    512
}

fn models_path(file: &str) -> (r: String)
    ensures
        r@ == DEFAULT_MODELS_DIR@ + "/"@ + file@,
{
    let mut r = String::from_str(DEFAULT_MODELS_DIR);
    r.append("/");
    r.append(file);
    r
}

pub fn default_anti_spoof_v2_path() -> (r: String)
    ensures
        r@ == DEFAULT_MODELS_DIR@ + "/"@ + "MiniFASNetV2.onnx"@,
{
    models_path("MiniFASNetV2.onnx")
}

pub fn default_anti_spoof_v1se_path() -> (r: String)
    ensures
        r@ == DEFAULT_MODELS_DIR@ + "/"@ + "MiniFASNetV1SE.onnx"@,
{
    models_path("MiniFASNetV1SE.onnx")
}

pub fn default_anti_spoof_enabled() -> (r: bool)
    ensures
        r,
{
    true
}

pub fn default_anti_spoof_mode() -> (r: AntiSpoofMode)
    ensures
        r == AntiSpoofMode::MiniFASNetV2,
{
    AntiSpoofMode::MiniFASNetV2
}

pub fn default_v2_input_size() -> (r: i32)
    ensures
        r == 80,
{
    80
}

pub fn default_v1se_input_size() -> (r: i32)
    ensures
        r == 80,
{
    80
}

/// Where face data is kept.
#[derive(Debug)]
pub struct StorageConfig {
    pub data_dir: String,
}

impl StorageConfig {
    /// The directory that holds one user's face data: the data directory
    /// joined with the user's name.
    pub fn user_data_dir(&self, username: &str) -> (r: String)
        ensures
            r@ == path_join(self.data_dir@, username@),
    {
        join_path(self.data_dir.as_str(), username)
    }
}

pub fn default_data_dir() -> (r: String)
    ensures
        r@ == DEFAULT_DATA_DIR@,
{
    String::from_str(DEFAULT_DATA_DIR)
}

impl Default for StorageConfig {
    fn default() -> (r: Self)
        ensures
            r.data_dir@ == DEFAULT_DATA_DIR@,
    {
        StorageConfig { data_dir: default_data_dir() }
    }
}

/// What the running daemon publishes about itself.
#[derive(Debug)]
pub struct DaemonRuntimeState {
    pub running_preset: String,
    pub socket_path: String,
    pub pid_file: String,
}

// ---------------------------------------------------------------------------
// Presets

/// The name of the preset used when none is chosen.
pub fn default_active_preset() -> (r: String)
    ensures
        r@ == DEFAULT_PRESET_NAME@,
{
    String::from_str(DEFAULT_PRESET_NAME)
}

pub open spec fn empty_preset_text() -> Seq<char> {
    "Preset name cannot be empty"@
}

/// A configuration error whose message is `m`.
pub open spec fn is_config_error(e: Error, m: Seq<char>) -> bool {
    e matches Error::Config(x) && x@ == m
}

/// The preset name without surrounding whitespace; refused when empty.
pub fn normalize_preset_name(value: &str) -> (r: Result<&str, Error>)
    ensures
        trimmed(value@).len() > 0 ==> (r matches Ok(n) && n@ == trimmed(value@)),
        trimmed(value@).len() == 0 ==> (r matches Err(e) && is_config_error(e, empty_preset_text())),
{
    let t = trim(value);
    if t.unicode_len() == 0 {
        return Err(Error::Config(String::from_str("Preset name cannot be empty")));
    }
    Ok(t)
}

// ---------------------------------------------------------------------------
// Validation

/// The values that validation reads from a configuration. Checks on
/// floating-point settings and on the file system arrive as their outcomes.
#[derive(Debug)]
pub struct ValidationFacts {
    pub detector_path: String,
    pub detector_path_exists: bool,
    pub detector_input_width: i32,
    pub detector_input_height: i32,
    pub detector_score_threshold_in_unit_range: bool,
    pub detector_nms_threshold_in_unit_range: bool,
    pub recognizer_path: String,
    pub recognizer_path_exists: bool,
    pub recognizer_model_id: String,
    pub recognizer_embedding_dim: usize,
    pub recognizer_input_width: i32,
    pub recognizer_input_height: i32,
    pub recognizer_std_all_positive: bool,
    pub similarity_threshold_in_unit_range: bool,
    pub anti_spoof_threshold_in_unit_range: bool,
    pub v2_input_size: i32,
    pub v1se_input_size: i32,
    pub v2_crop_scale_in_range: bool,
    pub v1se_crop_scale_in_range: bool,
    pub valid_crop_scale_in_range: bool,
    pub max_frames: u32,
    pub valid_frames: u32,
    pub consecutive_match_frames: u32,
    pub timeout: u32,
}

pub open spec fn frames_order_text(max_frames: u32, valid_frames: u32) -> Seq<char> {
    "video.max_frames ("@ + decimal(max_frames as nat)
        + ") must be greater than or equal to recognition.valid_frames ("@ + decimal(valid_frames as nat) + ")"@
}

pub open spec fn consecutive_order_text(consecutive: u32, valid_frames: u32) -> Seq<char> {
    "recognition.consecutive_match_frames ("@ + decimal(consecutive as nat)
        + ") must be less than or equal to recognition.valid_frames ("@ + decimal(valid_frames as nat) + ")"@
}

pub open spec fn no_stop_condition_text() -> Seq<char> {
    "Invalid configuration: video.max_frames, recognition.valid_frames, and video.timeout cannot all be 0. 必须添加有效终止条件，若要测试请使用--debug"@
}

/// The first rule that a configuration breaks, as its message; `None` when all hold.
pub open spec fn first_config_violation(f: ValidationFacts) -> Option<Seq<char>> {
    if trimmed(f.detector_path@).len() == 0 || !f.detector_path_exists {
        Some("Active detector model not found: "@ + f.detector_path@)
    } else if f.detector_input_width <= 0 || f.detector_input_height <= 0 {
        Some("Detector input size must be positive"@)
    } else if !f.detector_score_threshold_in_unit_range {
        Some("Detector score_threshold must be between 0.0 and 1.0"@)
    } else if !f.detector_nms_threshold_in_unit_range {
        Some("Detector nms_threshold must be between 0.0 and 1.0"@)
    } else if trimmed(f.recognizer_path@).len() == 0 || !f.recognizer_path_exists {
        Some("Active recognizer model not found: "@ + f.recognizer_path@)
    } else if trimmed(f.recognizer_model_id@).len() == 0 {
        Some("Active recognizer model_id cannot be empty"@)
    } else if f.recognizer_embedding_dim == 0 {
        Some("Active recognizer embedding_dim must be greater than 0"@)
    } else if f.recognizer_input_width <= 0 || f.recognizer_input_height <= 0 {
        Some("Recognizer input size must be positive"@)
    } else if !f.recognizer_std_all_positive {
        Some("Recognizer preprocess std values must be greater than 0"@)
    } else if !f.similarity_threshold_in_unit_range {
        Some("recognition.similarity_threshold must be between 0.0 and 1.0"@)
    } else if !f.anti_spoof_threshold_in_unit_range {
        Some("anti_spoof.threshold must be between 0.0 and 1.0"@)
    } else if f.v2_input_size <= 0 || f.v2_input_size > 512 {
        Some("anti_spoof.v2_input_size must be between 1 and 512"@)
    } else if f.v1se_input_size <= 0 || f.v1se_input_size > 512 {
        Some("anti_spoof.v1se_input_size must be between 1 and 512"@)
    } else if !f.v2_crop_scale_in_range {
        Some("anti_spoof.v2_crop_scale must be between 0.0 and 10.0"@)
    } else if !f.v1se_crop_scale_in_range {
        Some("anti_spoof.v1se_crop_scale must be between 0.0 and 10.0"@)
    } else if !f.valid_crop_scale_in_range {
        Some("recognition.valid_crop_scale must be between 0.0 and 10.0"@)
    } else if f.max_frames != 0 && f.valid_frames != 0 && f.max_frames < f.valid_frames {
        Some(frames_order_text(f.max_frames, f.valid_frames))
    } else if f.valid_frames != 0 && f.consecutive_match_frames > f.valid_frames {
        Some(consecutive_order_text(f.consecutive_match_frames, f.valid_frames))
    } else if f.max_frames == 0 && f.valid_frames == 0 && f.timeout == 0 {
        Some(no_stop_condition_text())
    } else {
        None
    }
}

fn config_error(m: String) -> (r: Error)
    ensures
        is_config_error(r, m@),
{
    Error::Config(m)
}

fn literal_error(m: &str) -> (r: Error)
    ensures
        is_config_error(r, m@),
{
    Error::Config(String::from_str(m))
}

/// Checks a configuration's values in a fixed order and reports the first rule
/// that fails.
pub fn validate_config(f: &ValidationFacts) -> (r: Result<(), Error>)
    ensures
        match first_config_violation(*f) {
            None => r is Ok,
            Some(m) => r matches Err(e) && is_config_error(e, m),
        },
{
    if trim(f.detector_path.as_str()).unicode_len() == 0 || !f.detector_path_exists {
        let mut m = String::from_str("Active detector model not found: ");
        m.append(f.detector_path.as_str());
        return Err(config_error(m));
    }
    if f.detector_input_width <= 0 || f.detector_input_height <= 0 {
        return Err(literal_error("Detector input size must be positive"));
    }
    if !f.detector_score_threshold_in_unit_range {
        return Err(literal_error("Detector score_threshold must be between 0.0 and 1.0"));
    }
    if !f.detector_nms_threshold_in_unit_range {
        return Err(literal_error("Detector nms_threshold must be between 0.0 and 1.0"));
    }
    if trim(f.recognizer_path.as_str()).unicode_len() == 0 || !f.recognizer_path_exists {
        let mut m = String::from_str("Active recognizer model not found: ");
        m.append(f.recognizer_path.as_str());
        return Err(config_error(m));
    }
    if trim(f.recognizer_model_id.as_str()).unicode_len() == 0 {
        return Err(literal_error("Active recognizer model_id cannot be empty"));
    }
    if f.recognizer_embedding_dim == 0 {
        return Err(literal_error("Active recognizer embedding_dim must be greater than 0"));
    }
    if f.recognizer_input_width <= 0 || f.recognizer_input_height <= 0 {
        return Err(literal_error("Recognizer input size must be positive"));
    }
    if !f.recognizer_std_all_positive {
        return Err(literal_error("Recognizer preprocess std values must be greater than 0"));
    }
    if !f.similarity_threshold_in_unit_range {
        return Err(literal_error("recognition.similarity_threshold must be between 0.0 and 1.0"));
    }
    if !f.anti_spoof_threshold_in_unit_range {
        return Err(literal_error("anti_spoof.threshold must be between 0.0 and 1.0"));
    }
    if f.v2_input_size <= 0 || f.v2_input_size > 512 {
        return Err(literal_error("anti_spoof.v2_input_size must be between 1 and 512"));
    }
    if f.v1se_input_size <= 0 || f.v1se_input_size > 512 {
        return Err(literal_error("anti_spoof.v1se_input_size must be between 1 and 512"));
    }
    if !f.v2_crop_scale_in_range {
        return Err(literal_error("anti_spoof.v2_crop_scale must be between 0.0 and 10.0"));
    }
    if !f.v1se_crop_scale_in_range {
        return Err(literal_error("anti_spoof.v1se_crop_scale must be between 0.0 and 10.0"));
    }
    if !f.valid_crop_scale_in_range {
        return Err(literal_error("recognition.valid_crop_scale must be between 0.0 and 10.0"));
    }
    if f.max_frames != 0 && f.valid_frames != 0 && f.max_frames < f.valid_frames {
        let mut m = String::from_str("video.max_frames (");
        push_decimal(&mut m, f.max_frames as u64);
        m.append(") must be greater than or equal to recognition.valid_frames (");
        push_decimal(&mut m, f.valid_frames as u64);
        m.append(")");
        assert(m@ =~= frames_order_text(f.max_frames, f.valid_frames));
        return Err(config_error(m));
    }
    if f.valid_frames != 0 && f.consecutive_match_frames > f.valid_frames {
        let mut m = String::from_str("recognition.consecutive_match_frames (");
        push_decimal(&mut m, f.consecutive_match_frames as u64);
        m.append(") must be less than or equal to recognition.valid_frames (");
        push_decimal(&mut m, f.valid_frames as u64);
        m.append(")");
        assert(m@ =~= consecutive_order_text(f.consecutive_match_frames, f.valid_frames));
        return Err(config_error(m));
    }
    if f.max_frames == 0 && f.valid_frames == 0 && f.timeout == 0 {
        return Err(literal_error(
            "Invalid configuration: video.max_frames, recognition.valid_frames, and video.timeout cannot all be 0. 必须添加有效终止条件，若要测试请使用--debug",
        ));
    }
    Ok(())
}


/// The rule that some stop condition is set: validation fails with its
/// message only when the frame budget, the required valid frames and the
/// timeout are all 0, and a configuration with all three at 0 never passes.
pub proof fn lemma_stop_condition_rule(f: ValidationFacts)
    ensures
        first_config_violation(f) == Some(no_stop_condition_text())
            ==> f.max_frames == 0 && f.valid_frames == 0 && f.timeout == 0,
        f.max_frames == 0 && f.valid_frames == 0 && f.timeout == 0 ==> first_config_violation(f) is Some,
{
    reveal_strlit("Active detector model not found: ");
    reveal_strlit("Detector input size must be positive");
    reveal_strlit("Detector score_threshold must be between 0.0 and 1.0");
    reveal_strlit("Detector nms_threshold must be between 0.0 and 1.0");
    reveal_strlit("Active recognizer model not found: ");
    reveal_strlit("Active recognizer model_id cannot be empty");
    reveal_strlit("Active recognizer embedding_dim must be greater than 0");
    reveal_strlit("Recognizer input size must be positive");
    reveal_strlit("Recognizer preprocess std values must be greater than 0");
    reveal_strlit("recognition.similarity_threshold must be between 0.0 and 1.0");
    reveal_strlit("anti_spoof.threshold must be between 0.0 and 1.0");
    reveal_strlit("anti_spoof.v2_input_size must be between 1 and 512");
    reveal_strlit("anti_spoof.v1se_input_size must be between 1 and 512");
    reveal_strlit("anti_spoof.v2_crop_scale must be between 0.0 and 10.0");
    reveal_strlit("anti_spoof.v1se_crop_scale must be between 0.0 and 10.0");
    reveal_strlit("recognition.valid_crop_scale must be between 0.0 and 10.0");
    reveal_strlit("video.max_frames (");
    reveal_strlit("recognition.consecutive_match_frames (");
    reveal_strlit("Invalid configuration: video.max_frames, recognition.valid_frames, and video.timeout cannot all be 0. 必须添加有效终止条件，若要测试请使用--debug");
    let t = no_stop_condition_text();
    assert(t[0] == 'I');
    if first_config_violation(f) == Some(t) && !(f.max_frames == 0 && f.valid_frames == 0 && f.timeout == 0) {
        let m = first_config_violation(f)->Some_0;
        assert(m[0] != 'I');
    }
}

} // verus!
