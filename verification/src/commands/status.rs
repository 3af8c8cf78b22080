//! The `status` command: the report it prints, assembled from the facts the
//! caller gathered (file checks, the daemon's socket, the configuration;
//! thresholds arrive already rendered).

use crate::config::DaemonRuntimeState;
use crate::error::Error;
use crate::text::{decimal, push_decimal, push_signed_decimal, signed_decimal};
use vstd::prelude::*;
use vstd::string::StringExecFns;

verus! {

/// The daemon's recorded state, when it could be read.
pub fn load_runtime_state(loaded: Result<DaemonRuntimeState, Error>) -> (r: Option<DaemonRuntimeState>)
    ensures
        match loaded {
            Ok(s) => r == Some(s),
            Err(_) => r is None,
        },
{
    match loaded {
        Ok(s) => Some(s),
        Err(_) => None,
    }
}

/// The socket the report checks: the one the daemon recorded, else the
/// configured one.
pub fn runtime_socket_path(runtime_state: Option<&DaemonRuntimeState>, configured: &str) -> (r: String)
    ensures
        r@ == match runtime_state {
            Some(s) => s.socket_path@,
            None => configured@,
        },
{
    match runtime_state {
        Some(s) => s.socket_path.clone(),
        None => String::from_str(configured),
    }
}

/// The preset the daemon runs, when it recorded one and answers on its socket.
pub fn running_preset(runtime_state: Option<&DaemonRuntimeState>, daemon_running: bool) -> (r: Option<String>)
    ensures
        match runtime_state {
            Some(s) => if daemon_running { r matches Some(p) && p@ == s.running_preset@ } else { r is None },
            None => r is None,
        },
{
    match runtime_state {
        Some(s) => {
            if daemon_running {
                Some(s.running_preset.clone())
            } else {
                None
            }
        },
        None => None,
    }
}

/// One configured detector model.
#[derive(Debug)]
pub struct DetectorStatus {
    pub name: String,
    pub found: bool,
    pub input_width: i32,
    pub input_height: i32,
    /// The score threshold, rendered with two decimals.
    pub score: String,
    /// The NMS threshold, rendered with two decimals.
    pub nms: String,
    pub path: String,
}

/// One configured recognizer model.
#[derive(Debug)]
pub struct RecognizerStatus {
    pub name: String,
    pub found: bool,
    pub model_id: String,
    pub embedding_dim: usize,
    pub input_width: i32,
    pub input_height: i32,
    pub layout: String,
    pub color_order: String,
    pub path: String,
}

/// What the status report shows.
#[derive(Debug)]
pub struct StatusFacts {
    pub daemon_running: bool,
    pub socket_path: String,
    pub socket_exists: bool,
    pub active_detector: String,
    pub active_detector_path: String,
    pub active_recognizer: String,
    pub active_recognizer_path: String,
    pub active_model_id: String,
    pub active_embedding_dim: usize,
    pub active_layout: String,
    pub active_input_width: i32,
    pub active_input_height: i32,
    pub active_color_order: String,
    pub detectors: Vec<DetectorStatus>,
    pub recognizers: Vec<RecognizerStatus>,
    pub anti_spoof_enabled: bool,
    /// The liveness threshold, rendered with two decimals.
    pub anti_spoof_threshold: String,
    pub anti_spoof_mode: String,
    /// The recognition crop scale, rendered with two decimals.
    pub valid_crop_scale: String,
    pub v2_found: bool,
    pub v2_path: String,
    pub v1se_found: bool,
    pub v1se_path: String,
    pub camera_available: bool,
    pub camera_device: String,
    pub pam_installed: bool,
    pub ssh_session: bool,
    pub lid_closed: bool,
    /// The preset the running daemon uses, if it runs.
    pub running_preset: Option<String>,
    pub config_active_preset: String,
    pub config_source: Option<String>,
    pub data_dir_exists: bool,
    pub data_dir: String,
}

pub open spec fn found_text(found: bool) -> Seq<char> {
    if found { "OK Found"@ } else { "X Missing"@ }
}

/// The two lines of a detector.
pub open spec fn detector_texts(d: DetectorStatus) -> Seq<Seq<char>> {
    seq![
        "  "@ + d.name@ + ": "@ + found_text(d.found) + " | input: "@ + signed_decimal(d.input_width as int) + "x"@
            + signed_decimal(d.input_height as int) + " | score: "@ + d.score@ + " | nms: "@ + d.nms@,
        "    "@ + d.path@,
    ]
}

/// The two lines of a recognizer.
pub open spec fn recognizer_texts(r: RecognizerStatus) -> Seq<Seq<char>> {
    seq![
        "  "@ + r.name@ + ": "@ + found_text(r.found) + " | model_id: "@ + r.model_id@ + " | dim: "@
            + decimal(r.embedding_dim as nat) + " | input: "@ + signed_decimal(r.input_width as int) + "x"@
            + signed_decimal(r.input_height as int) + " "@ + r.layout@ + " "@ + r.color_order@,
        "    "@ + r.path@,
    ]
}

pub open spec fn detectors_texts(ds: Seq<DetectorStatus>) -> Seq<Seq<char>>
    decreases ds.len(),
{
    if ds.len() == 0 {
        Seq::empty()
    } else {
        detectors_texts(ds.drop_last()) + detector_texts(ds.last())
    }
}

pub open spec fn recognizers_texts(rs: Seq<RecognizerStatus>) -> Seq<Seq<char>>
    decreases rs.len(),
{
    if rs.len() == 0 {
        Seq::empty()
    } else {
        recognizers_texts(rs.drop_last()) + recognizer_texts(rs.last())
    }
}

/// The daemon and socket lines.
pub open spec fn daemon_texts(f: StatusFacts) -> Seq<Seq<char>> {
    seq![
        "FacePass System Status"@,
        "======================"@,
        ""@,
        "Daemon: "@ + (if f.daemon_running { "OK Running"@ } else { "X Not running"@ }),
        "Socket: "@ + (if f.socket_exists { "OK "@ + f.socket_path@ } else { "X Not found"@ }),
        ""@,
        "Recognition Backend:"@,
        "  Active detector: "@ + f.active_detector@,
        "  Active detector path: "@ + f.active_detector_path@,
        "  Active recognizer: "@ + f.active_recognizer@,
        "  Active recognizer path: "@ + f.active_recognizer_path@,
        "  Active model ID: "@ + f.active_model_id@ + " | embedding_dim: "@ + decimal(f.active_embedding_dim as nat),
        "  Recognizer preprocess: "@ + f.active_layout@ + " "@ + signed_decimal(f.active_input_width as int) + "x"@
            + signed_decimal(f.active_input_height as int) + " "@ + f.active_color_order@,
        ""@,
        "Configured Detectors:"@,
    ]
}

/// The anti-spoofing lines.
pub open spec fn anti_spoof_texts(f: StatusFacts) -> Seq<Seq<char>> {
    seq![
        "  Anti-spoofing: "@ + (if f.anti_spoof_enabled {
            "OK Enabled (threshold: "@ + f.anti_spoof_threshold@ + ", mode: "@ + f.anti_spoof_mode@ + ")"@
        } else {
            "X Disabled"@
        }),
        "  Valid crop scale (recognition): "@ + f.valid_crop_scale@,
        "  Anti-spoof V2: "@ + found_text(f.v2_found),
        "    "@ + f.v2_path@,
        "  Anti-spoof V1SE: "@ + found_text(f.v1se_found),
        "    "@ + f.v1se_path@,
    ]
}

/// The camera, PAM, security and configuration lines.
pub open spec fn system_texts(f: StatusFacts) -> Seq<Seq<char>> {
    seq![
        ""@,
        "Camera:"@,
        "  Device: "@ + (if f.camera_available { "OK "@ + f.camera_device@ } else { "X Not available: "@ + f.camera_device@ }),
        ""@,
        "PAM Module:"@,
        "  Library: "@ + (if f.pam_installed { "OK Installed"@ } else { "X Not installed"@ }),
        ""@,
        "Security:"@,
        "  SSH Session: "@ + (if f.ssh_session { "Yes (face auth will be skipped)"@ } else { "No"@ }),
        "  Laptop Lid: "@ + (if f.lid_closed { "Closed (face auth will be skipped)"@ } else { "Open"@ }),
        ""@,
        "Configuration:"@,
        "  Running preset: "@ + match f.running_preset {
            Some(p) => p@,
            None => "(daemon not running)"@,
        },
        "  Config active preset: "@ + f.config_active_preset@,
        "  Config file: "@ + match f.config_source {
            Some(p) => "OK "@ + p@,
            None => "X Not found (using defaults)"@,
        },
        "  Data directory: "@ + (if f.data_dir_exists { "OK "@ + f.data_dir@ } else { "X Not found"@ }),
    ]
}

/// The whole report, line by line.
pub open spec fn report_texts(f: StatusFacts) -> Seq<Seq<char>> {
    daemon_texts(f) + detectors_texts(f.detectors@) + seq![""@, "Configured Recognizers:"@]
        + recognizers_texts(f.recognizers@) + anti_spoof_texts(f) + system_texts(f)
}

/// The lines' texts.
pub open spec fn texts(v: Seq<String>) -> Seq<Seq<char>> {
    v.map_values(|l: String| l@)
}

fn line(parts: &str) -> (r: String)
    ensures
        r@ == parts@,
{
    String::from_str(parts)
}

fn joined(a: &str, b: &str) -> (r: String)
    ensures
        r@ == a@ + b@,
{
    let mut s = String::from_str(a);
    s.append(b);
    s
}

fn found_str(found: bool) -> (r: &'static str)
    ensures
        r@ == found_text(found),
{
    if found { "OK Found" } else { "X Missing" }
}

fn push_lines(out: &mut Vec<String>, more: Vec<String>)
    ensures
        texts(final(out)@) == texts(old(out)@) + texts(more@),
{
    let mut more = more;
    let ghost m = more@;
    let ghost o = out@;
    out.append(&mut more);
    assert(texts(out@) =~= texts(o) + texts(m));
}

fn daemon_lines(f: &StatusFacts) -> (r: Vec<String>)
    ensures
        texts(r@) == daemon_texts(*f),
{
    let mut v: Vec<String> = Vec::new();
    v.push(line("FacePass System Status"));
    v.push(line("======================"));
    v.push(line(""));
    v.push(joined("Daemon: ", if f.daemon_running { "OK Running" } else { "X Not running" }));
    let mut socket = String::from_str("Socket: ");
    if f.socket_exists {
        socket.append("OK ");
        socket.append(f.socket_path.as_str());
    } else {
        socket.append("X Not found");
    }
    v.push(socket);
    v.push(line(""));
    v.push(line("Recognition Backend:"));
    v.push(joined("  Active detector: ", f.active_detector.as_str()));
    v.push(joined("  Active detector path: ", f.active_detector_path.as_str()));
    v.push(joined("  Active recognizer: ", f.active_recognizer.as_str()));
    v.push(joined("  Active recognizer path: ", f.active_recognizer_path.as_str()));
    let mut model = joined("  Active model ID: ", f.active_model_id.as_str());
    model.append(" | embedding_dim: ");
    push_decimal(&mut model, f.active_embedding_dim as u64);
    v.push(model);
    let mut pre = joined("  Recognizer preprocess: ", f.active_layout.as_str());
    pre.append(" ");
    push_signed_decimal(&mut pre, f.active_input_width as i64);
    pre.append("x");
    push_signed_decimal(&mut pre, f.active_input_height as i64);
    pre.append(" ");
    pre.append(f.active_color_order.as_str());
    v.push(pre);
    v.push(line(""));
    v.push(line("Configured Detectors:"));
    assert(texts(v@) =~~= daemon_texts(*f));
    v
}

fn detector_lines(ds: &Vec<DetectorStatus>) -> (r: Vec<String>)
    ensures
        texts(r@) == detectors_texts(ds@),
{
    let mut v: Vec<String> = Vec::new();
    let mut i: usize = 0;
    while i < ds.len()
        invariant
            i <= ds.len(),
            texts(v@) == detectors_texts(ds@.take(i as int)),
        decreases ds.len() - i,
    {
        proof {
            assert(ds@.take(i + 1).drop_last() =~= ds@.take(i as int));
        }
        let d = &ds[i];
        let ghost before = texts(v@);
        let mut a = joined("  ", d.name.as_str());
        a.append(": ");
        a.append(found_str(d.found));
        a.append(" | input: ");
        push_signed_decimal(&mut a, d.input_width as i64);
        a.append("x");
        push_signed_decimal(&mut a, d.input_height as i64);
        a.append(" | score: ");
        a.append(d.score.as_str());
        a.append(" | nms: ");
        a.append(d.nms.as_str());
        v.push(a);
        v.push(joined("    ", d.path.as_str()));
        assert(texts(v@) =~= before + detector_texts(*d));
        i = i + 1;
    }
    assert(ds@.take(ds@.len() as int) =~= ds@);
    v
}

fn recognizer_lines(rs: &Vec<RecognizerStatus>) -> (r: Vec<String>)
    ensures
        texts(r@) == recognizers_texts(rs@),
{
    let mut v: Vec<String> = Vec::new();
    let mut i: usize = 0;
    while i < rs.len()
        invariant
            i <= rs.len(),
            texts(v@) == recognizers_texts(rs@.take(i as int)),
        decreases rs.len() - i,
    {
        proof {
            assert(rs@.take(i + 1).drop_last() =~= rs@.take(i as int));
        }
        let r = &rs[i];
        let ghost before = texts(v@);
        let mut a = joined("  ", r.name.as_str());
        a.append(": ");
        a.append(found_str(r.found));
        a.append(" | model_id: ");
        a.append(r.model_id.as_str());
        a.append(" | dim: ");
        push_decimal(&mut a, r.embedding_dim as u64);
        a.append(" | input: ");
        push_signed_decimal(&mut a, r.input_width as i64);
        a.append("x");
        push_signed_decimal(&mut a, r.input_height as i64);
        a.append(" ");
        a.append(r.layout.as_str());
        a.append(" ");
        a.append(r.color_order.as_str());
        v.push(a);
        v.push(joined("    ", r.path.as_str()));
        assert(texts(v@) =~= before + recognizer_texts(*r));
        i = i + 1;
    }
    assert(rs@.take(rs@.len() as int) =~= rs@);
    v
}

fn anti_spoof_lines(f: &StatusFacts) -> (r: Vec<String>)
    ensures
        texts(r@) == anti_spoof_texts(*f),
{
    let mut v: Vec<String> = Vec::new();
    let mut a = String::from_str("  Anti-spoofing: ");
    if f.anti_spoof_enabled {
        a.append("OK Enabled (threshold: ");
        a.append(f.anti_spoof_threshold.as_str());
        a.append(", mode: ");
        a.append(f.anti_spoof_mode.as_str());
        a.append(")");
    } else {
        a.append("X Disabled");
    }
    v.push(a);
    v.push(joined("  Valid crop scale (recognition): ", f.valid_crop_scale.as_str()));
    v.push(joined("  Anti-spoof V2: ", found_str(f.v2_found)));
    v.push(joined("    ", f.v2_path.as_str()));
    v.push(joined("  Anti-spoof V1SE: ", found_str(f.v1se_found)));
    v.push(joined("    ", f.v1se_path.as_str()));
    assert(texts(v@) =~~= anti_spoof_texts(*f));
    v
}

fn system_lines(f: &StatusFacts) -> (r: Vec<String>)
    ensures
        texts(r@) == system_texts(*f),
{
    let mut v: Vec<String> = Vec::new();
    v.push(line(""));
    v.push(line("Camera:"));
    let mut cam = String::from_str("  Device: ");
    if f.camera_available {
        cam.append("OK ");
    } else {
        cam.append("X Not available: ");
    }
    cam.append(f.camera_device.as_str());
    v.push(cam);
    v.push(line(""));
    v.push(line("PAM Module:"));
    v.push(joined("  Library: ", if f.pam_installed { "OK Installed" } else { "X Not installed" }));
    v.push(line(""));
    v.push(line("Security:"));
    v.push(joined("  SSH Session: ", if f.ssh_session { "Yes (face auth will be skipped)" } else { "No" }));
    v.push(joined("  Laptop Lid: ", if f.lid_closed { "Closed (face auth will be skipped)" } else { "Open" }));
    v.push(line(""));
    v.push(line("Configuration:"));
    let mut running = String::from_str("  Running preset: ");
    match &f.running_preset {
        Some(p) => running.append(p.as_str()),
        None => running.append("(daemon not running)"),
    }
    v.push(running);
    v.push(joined("  Config active preset: ", f.config_active_preset.as_str()));
    let mut source = String::from_str("  Config file: ");
    match &f.config_source {
        Some(p) => {
            source.append("OK ");
            source.append(p.as_str());
        },
        None => source.append("X Not found (using defaults)"),
    }
    v.push(source);
    let mut data = String::from_str("  Data directory: ");
    if f.data_dir_exists {
        data.append("OK ");
        data.append(f.data_dir.as_str());
    } else {
        data.append("X Not found");
    }
    v.push(data);
    assert(texts(v@) =~~= system_texts(*f));
    v
}

/// The status report, line by line.
pub fn run(facts: &StatusFacts) -> (r: Vec<String>)
    ensures
        texts(r@) == report_texts(*facts),
{
    let mut out = daemon_lines(facts);
    push_lines(&mut out, detector_lines(&facts.detectors));
    let mut mid: Vec<String> = Vec::new();
    mid.push(line(""));
    mid.push(line("Configured Recognizers:"));
    assert(texts(mid@) =~= seq![""@, "Configured Recognizers:"@]);
    push_lines(&mut out, mid);
    push_lines(&mut out, recognizer_lines(&facts.recognizers));
    push_lines(&mut out, anti_spoof_lines(facts));
    push_lines(&mut out, system_lines(facts));
    out
}


/// The line `a` differs from `b` where their characters at `i` differ.
proof fn lemma_char_differs(a: Seq<char>, b: Seq<char>, i: int)
    requires
        0 <= i < a.len(),
        i < b.len(),
        a[i] != b[i],
    ensures
        a != b,
{
}

/// The security lines of the report follow their own facts: the report's
/// system section says the SSH session skips face authentication exactly
/// when there is an SSH session, that the lid is closed (and face
/// authentication skipped) exactly when the lid is closed, and that the PAM
/// library is installed exactly when it is.
pub proof fn lemma_security_lines(f: StatusFacts)
    ensures
        system_texts(f).contains("  Laptop Lid: Closed (face auth will be skipped)"@) <==> f.lid_closed,
        system_texts(f).contains("  Laptop Lid: Open"@) <==> !f.lid_closed,
        system_texts(f).contains("  SSH Session: Yes (face auth will be skipped)"@) <==> f.ssh_session,
        system_texts(f).contains("  SSH Session: No"@) <==> !f.ssh_session,
        system_texts(f).contains("  Library: OK Installed"@) <==> f.pam_installed,
{
    reveal_strlit("");
    reveal_strlit("Camera:");
    reveal_strlit("  Device: ");
    reveal_strlit("OK ");
    reveal_strlit("X Not available: ");
    reveal_strlit("PAM Module:");
    reveal_strlit("  Library: ");
    reveal_strlit("OK Installed");
    reveal_strlit("X Not installed");
    reveal_strlit("Security:");
    reveal_strlit("  SSH Session: ");
    reveal_strlit("Yes (face auth will be skipped)");
    reveal_strlit("No");
    reveal_strlit("  Laptop Lid: ");
    reveal_strlit("Closed (face auth will be skipped)");
    reveal_strlit("Open");
    reveal_strlit("Configuration:");
    reveal_strlit("  Running preset: ");
    reveal_strlit("(daemon not running)");
    reveal_strlit("  Config active preset: ");
    reveal_strlit("  Config file: ");
    reveal_strlit("X Not found (using defaults)");
    reveal_strlit("  Data directory: ");
    reveal_strlit("X Not found");
    reveal_strlit("  Laptop Lid: Closed (face auth will be skipped)");
    reveal_strlit("  Laptop Lid: Open");
    reveal_strlit("  SSH Session: Yes (face auth will be skipped)");
    reveal_strlit("  SSH Session: No");
    reveal_strlit("  Library: OK Installed");
    let t = system_texts(f);
    let lid_closed = "  Laptop Lid: Closed (face auth will be skipped)"@;
    let lid_open = "  Laptop Lid: Open"@;
    let ssh_yes = "  SSH Session: Yes (face auth will be skipped)"@;
    let ssh_no = "  SSH Session: No"@;
    let pam_ok = "  Library: OK Installed"@;
    assert(t.len() == 16);
    assert(t[9] == lid_closed <==> f.lid_closed) by {
        if !f.lid_closed { lemma_char_differs(t[9], lid_closed, 14); } else { assert(t[9] =~= lid_closed); }
    }
    assert(t[9] == lid_open <==> !f.lid_closed) by {
        if f.lid_closed { lemma_char_differs(t[9], lid_open, 14); } else { assert(t[9] =~= lid_open); }
    }
    assert(t[8] == ssh_yes <==> f.ssh_session) by {
        if !f.ssh_session { lemma_char_differs(t[8], ssh_yes, 15); } else { assert(t[8] =~= ssh_yes); }
    }
    assert(t[8] == ssh_no <==> !f.ssh_session) by {
        if f.ssh_session { lemma_char_differs(t[8], ssh_no, 15); } else { assert(t[8] =~= ssh_no); }
    }
    assert(t[5] == pam_ok <==> f.pam_installed) by {
        if !f.pam_installed { lemma_char_differs(t[5], pam_ok, 11); } else { assert(t[5] =~= pam_ok); }
    }
    assert forall|k: int| 0 <= k < 16 && k != 9 implies t[k] != lid_closed && t[k] != lid_open by {
        if k == 5 {
            lemma_char_differs(t[k], lid_closed, 3);
            lemma_char_differs(t[k], lid_open, 3);
        } else if t[k].len() > 2 {
            lemma_char_differs(t[k], lid_closed, 2);
            lemma_char_differs(t[k], lid_open, 2);
        }
    }
    assert forall|k: int| 0 <= k < 16 && k != 8 implies t[k] != ssh_yes && t[k] != ssh_no by {
        if t[k].len() > 2 {
            lemma_char_differs(t[k], ssh_yes, 2);
            lemma_char_differs(t[k], ssh_no, 2);
        }
    }
    assert forall|k: int| 0 <= k < 16 && k != 5 implies t[k] != pam_ok by {
        if k == 9 {
            lemma_char_differs(t[k], pam_ok, 3);
        } else if t[k].len() > 2 {
            lemma_char_differs(t[k], pam_ok, 2);
        }
    }
    if f.lid_closed { assert(t[9] == lid_closed); } else { assert(t[9] == lid_open); }
    if f.ssh_session { assert(t[8] == ssh_yes); } else { assert(t[8] == ssh_no); }
    if f.pam_installed { assert(t[5] == pam_ok); }
}

} // verus!
