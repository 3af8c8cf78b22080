//! Configuration presets: a configuration file holds a base configuration
//! and named presets, each a TOML table that overrides parts of the base.
//! Resolving a preset lays its table over the base, key by key.

use crate::config::{empty_preset_text, is_config_error, normalize_preset_name};
use crate::error::Error;
use crate::text::{str_eq, trimmed};
use vstd::prelude::*;
use vstd::string::StringExecFns;

verus! {

/// A TOML value. Floats are kept by their IEEE-754 bits; tables are lists
/// of entries with distinct keys, whose order carries no meaning.
#[derive(Debug)]
pub enum TomlValue {
    String(String),
    Integer(i64),
    Float(u64),
    Boolean(bool),
    Datetime(String),
    Array(Vec<TomlValue>),
    Table(Vec<TomlEntry>),
}

/// One key of a TOML table with its value.
#[derive(Debug)]
pub struct TomlEntry {
    pub key: String,
    pub value: TomlValue,
}

/// The mathematical form of a TOML value: strings as character sequences,
/// arrays as sequences, tables as sequences of (key, value) pairs.
pub enum TomlView {
    String(Seq<char>),
    Integer(i64),
    Float(u64),
    Boolean(bool),
    Datetime(Seq<char>),
    Array(Seq<TomlView>),
    Table(Seq<(Seq<char>, TomlView)>),
}

/// The mathematical form of a value.
pub open spec fn value_view(v: TomlValue) -> TomlView
    decreases v, 0nat,
{
    match v {
        TomlValue::String(s) => TomlView::String(s@),
        TomlValue::Integer(n) => TomlView::Integer(n),
        TomlValue::Float(b) => TomlView::Float(b),
        TomlValue::Boolean(b) => TomlView::Boolean(b),
        TomlValue::Datetime(s) => TomlView::Datetime(s@),
        TomlValue::Array(a) => TomlView::Array(values_view(a@)),
        TomlValue::Table(t) => TomlView::Table(entries_view(t@)),
    }
}

/// The mathematical form of a list of values.
pub open spec fn values_view(s: Seq<TomlValue>) -> Seq<TomlView>
    decreases s, 1nat,
{
    if s.len() == 0 {
        Seq::empty()
    } else {
        values_view(s.subrange(0, s.len() - 1)).push(value_view(s[s.len() - 1]))
    }
}

/// The mathematical form of a list of table entries.
pub open spec fn entries_view(s: Seq<TomlEntry>) -> Seq<(Seq<char>, TomlView)>
    decreases s, 1nat,
{
    if s.len() == 0 {
        Seq::empty()
    } else {
        entries_view(s.subrange(0, s.len() - 1)).push((s[s.len() - 1].key@, value_view(s[s.len() - 1].value)))
    }
}

impl View for TomlValue {
    type V = TomlView;

    open spec fn view(&self) -> TomlView {
        value_view(*self)
    }
}

/// Position of the first entry at or after `start` whose key is `k`.
pub open spec fn key_index_from(entries: Seq<(Seq<char>, TomlView)>, k: Seq<char>, start: int) -> Option<int>
    decreases entries.len() - start,
{
    if start < 0 || start >= entries.len() {
        None
    } else if entries[start].0 == k {
        Some(start)
    } else {
        key_index_from(entries, k, start + 1)
    }
}

/// Position of the entry whose key is `k`.
pub open spec fn key_index(entries: Seq<(Seq<char>, TomlView)>, k: Seq<char>) -> Option<int> {
    key_index_from(entries, k, 0)
}

/// `key_index_from` gives the first position from `start` on that holds key `k`, if any.
pub proof fn lemma_key_index_from(entries: Seq<(Seq<char>, TomlView)>, k: Seq<char>, start: int)
    requires
        0 <= start,
    ensures
        key_index_from(entries, k, start) matches Some(i) ==> start <= i < entries.len() && entries[i].0 == k
            && forall|j: int| start <= j < i ==> entries[j].0 != k,
        key_index_from(entries, k, start) is None ==> forall|j: int| start <= j < entries.len() ==> entries[j].0 != k,
    decreases entries.len() - start,
{
    if start < entries.len() && entries[start].0 != k {
        lemma_key_index_from(entries, k, start + 1);
    }
}

/// `overlay` laid over `base`: two tables merge key by key (keys of the
/// overlay that the base lacks are added, shared keys merge their values);
/// anything else is replaced by the overlay.
pub open spec fn merged(base: TomlView, overlay: TomlView) -> TomlView
    decreases overlay, 0nat,
{
    match overlay {
        TomlView::Table(o) => match base {
            TomlView::Table(b) => TomlView::Table(merged_entries(b, o)),
            _ => overlay,
        },
        _ => overlay,
    }
}

/// The entries of `base` after laying the overlay entries `o` over them,
/// one after the other.
pub open spec fn merged_entries(base: Seq<(Seq<char>, TomlView)>, o: Seq<(Seq<char>, TomlView)>) -> Seq<
    (Seq<char>, TomlView),
>
    decreases o, 1nat,
{
    if o.len() == 0 {
        base
    } else {
        merged_entry(merged_entries(base, o.subrange(0, o.len() - 1)), o[o.len() - 1])
    }
}

/// The entries of `base` after laying one overlay entry over them.
pub open spec fn merged_entry(base: Seq<(Seq<char>, TomlView)>, e: (Seq<char>, TomlView)) -> Seq<
    (Seq<char>, TomlView),
>
    decreases e, 2nat,
{
    match key_index(base, e.0) {
        Some(i) => base.update(i, (base[i].0, merged(base[i].1, e.1))),
        None => base.push(e),
    }
}


// ---------------------------------------------------------------------------
// Views of lists

/// The view of a list of values is the list of their views.
pub proof fn lemma_values_view(s: Seq<TomlValue>)
    ensures
        values_view(s).len() == s.len(),
        forall|i: int| 0 <= i < s.len() ==> #[trigger] values_view(s)[i] == value_view(s[i]),
    decreases s.len(),
{
    if s.len() > 0 {
        lemma_values_view(s.subrange(0, s.len() - 1));
    }
}

/// The view of a list of entries is the list of their keys and values, viewed.
pub proof fn lemma_entries_view(s: Seq<TomlEntry>)
    ensures
        entries_view(s).len() == s.len(),
        forall|i: int| 0 <= i < s.len() ==> #[trigger] entries_view(s)[i] == (s[i].key@, value_view(s[i].value)),
    decreases s.len(),
{
    if s.len() > 0 {
        lemma_entries_view(s.subrange(0, s.len() - 1));
    }
}

/// Two lists of entries whose entries have the same views have the same view.
proof fn lemma_entries_view_eq(a: Seq<TomlEntry>, b: Seq<TomlEntry>)
    requires
        a.len() == b.len(),
        forall|i: int| 0 <= i < a.len() ==> a[i].key@ == b[i].key@ && value_view(a[i].value) == value_view(b[i].value),
    ensures
        entries_view(a) == entries_view(b),
{
    lemma_entries_view(a);
    lemma_entries_view(b);
    assert(entries_view(a) =~= entries_view(b));
}

proof fn lemma_values_view_eq(a: Seq<TomlValue>, b: Seq<TomlValue>)
    requires
        a.len() == b.len(),
        forall|i: int| 0 <= i < a.len() ==> value_view(a[i]) == value_view(b[i]),
    ensures
        values_view(a) == values_view(b),
{
    lemma_values_view(a);
    lemma_values_view(b);
    assert(values_view(a) =~= values_view(b));
}

// ---------------------------------------------------------------------------
// Copying and merging

/// A copy of a value.
pub fn clone_value(v: &TomlValue) -> (r: TomlValue)
    ensures
        r@ == v@,
    decreases v,
{
    match v {
        TomlValue::String(s) => TomlValue::String(s.clone()),
        TomlValue::Integer(n) => TomlValue::Integer(*n),
        TomlValue::Float(b) => TomlValue::Float(*b),
        TomlValue::Boolean(b) => TomlValue::Boolean(*b),
        TomlValue::Datetime(s) => TomlValue::Datetime(s.clone()),
        TomlValue::Array(a) => TomlValue::Array(clone_values(a)),
        TomlValue::Table(t) => {
            let out = clone_entries(t);
            TomlValue::Table(out)
        },
    }
}

fn clone_values(a: &Vec<TomlValue>) -> (r: Vec<TomlValue>)
    ensures
        values_view(r@) == values_view(a@),
    decreases a,
{
    let mut out: Vec<TomlValue> = Vec::new();
    let mut i: usize = 0;
    while i < a.len()
        invariant
            i <= a.len(),
            out@.len() == i,
            forall|k: int| 0 <= k < i ==> value_view(#[trigger] out@[k]) == value_view(a@[k]),
        decreases a.len() - i,
    {
        proof {
            assert(decreases_to!(*a => a[i as int]));
        }
        let c = clone_value(&a[i]);
        out.push(c);
        i = i + 1;
    }
    proof {
        lemma_values_view_eq(out@, a@);
    }
    out
}

fn clone_entries(t: &Vec<TomlEntry>) -> (r: Vec<TomlEntry>)
    ensures
        entries_view(r@) == entries_view(t@),
    decreases t,
{
    let mut out: Vec<TomlEntry> = Vec::new();
    let mut i: usize = 0;
    while i < t.len()
        invariant
            i <= t.len(),
            out@.len() == i,
            forall|k: int| 0 <= k < i ==> (#[trigger] out@[k]).key@ == t@[k].key@ && value_view(out@[k].value)
                == value_view(t@[k].value),
        decreases t.len() - i,
    {
        proof {
            assert(decreases_to!(*t => t[i as int].value));
        }
        let e = TomlEntry { key: t[i].key.clone(), value: clone_value(&t[i].value) };
        out.push(e);
        i = i + 1;
    }
    proof {
        lemma_entries_view_eq(out@, t@);
    }
    out
}

/// Position of the entry with key `key`.
fn find_key(entries: &Vec<TomlEntry>, key: &str) -> (r: Option<usize>)
    ensures
        match key_index(entries_view(entries@), key@) {
            Some(i) => r == Some(i as usize),
            None => r is None,
        },
{
    proof {
        lemma_entries_view(entries@);
    }
    let ghost ev = entries_view(entries@);
    let mut i: usize = 0;
    while i < entries.len()
        invariant
            i <= entries.len(),
            ev == entries_view(entries@),
            ev.len() == entries@.len(),
            forall|k: int| 0 <= k < entries@.len() ==> #[trigger] ev[k] == (entries@[k].key@, value_view(entries@[k].value)),
            key_index_from(ev, key@, 0) == key_index_from(ev, key@, i as int),
        decreases entries.len() - i,
    {
        if str_eq(entries[i].key.as_str(), key) {
            assert(ev[i as int].0 == key@);
            return Some(i);
        }
        i = i + 1;
    }
    None
}

/// Lays `overlay` over `base` (see `merged`).
pub fn merge_toml_value(base: &mut TomlValue, overlay: &TomlValue)
    ensures
        final(base)@ == merged(old(base)@, overlay@),
    decreases overlay, 0nat,
{
    match overlay {
        TomlValue::Table(o) => {
            let mut taken = TomlValue::Boolean(false);
            std::mem::swap(base, &mut taken);
            match taken {
                TomlValue::Table(mut b) => {
                    merge_entries_into(&mut b, o);
                    *base = TomlValue::Table(b);
                },
                _ => {
                    *base = clone_value(overlay);
                },
            }
        },
        _ => {
            *base = clone_value(overlay);
        },
    }
}

fn merge_entries_into(base: &mut Vec<TomlEntry>, o: &Vec<TomlEntry>)
    ensures
        entries_view(final(base)@) == merged_entries(entries_view(old(base)@), entries_view(o@)),
    decreases o, 1nat,
{
    let ghost b0 = entries_view(base@);
    let mut i: usize = 0;
    proof {
        assert(o@.take(0) =~= Seq::<TomlEntry>::empty());
        assert(entries_view(o@.take(0)) =~= Seq::<(Seq<char>, TomlView)>::empty());
    }
    while i < o.len()
        invariant
            i <= o.len(),
            entries_view(base@) == merged_entries(b0, entries_view(o@.take(i as int))),
        decreases o.len() - i,
    {
        let ghost before = base@;
        let ghost prefix = entries_view(o@.take(i as int));
        proof {
            assert(o@.take(i + 1).subrange(0, i as int) =~= o@.take(i as int));
            assert(entries_view(o@.take(i + 1)) == prefix.push((o@[i as int].key@, value_view(o@[i as int].value))));
            let next = entries_view(o@.take(i + 1));
            assert(next.subrange(0, next.len() - 1) =~= prefix);
            assert(merged_entries(b0, next) == merged_entry(merged_entries(b0, prefix), next[next.len() - 1]));
            assert(next[next.len() - 1] == (o@[i as int].key@, value_view(o@[i as int].value)));
            lemma_entries_view(before);
        }
        let e = &o[i];
        let n = base.len();
        assert(before.len() == n);
        match find_key(base, e.key.as_str()) {
            Some(j) => {
                proof {
                    lemma_key_index_from(entries_view(before), e.key@, 0);
                    assert(decreases_to!(*o => o[i as int].value));
                }
                let old_entry = base.remove(j);
                let mut value = old_entry.value;
                merge_toml_value(&mut value, &e.value);
                base.insert(j, TomlEntry { key: old_entry.key, value });
                proof {
                    lemma_entries_view(base@);
                    let want = entries_view(before).update(
                        j as int,
                        (entries_view(before)[j as int].0, merged(entries_view(before)[j as int].1, value_view(e.value))),
                    );
                    assert(entries_view(base@) =~= want);
                    assert(key_index(entries_view(before), e.key@) == Some(j as int));
                    assert(entries_view(base@) == merged_entry(entries_view(before), (e.key@, value_view(e.value))));
                }
            },
            None => {
                let entry = TomlEntry { key: e.key.clone(), value: clone_value(&e.value) };
                base.push(entry);
                proof {
                    lemma_entries_view(base@);
                    assert(entries_view(base@) =~= entries_view(before).push((e.key@, value_view(e.value))));
                    assert(entries_view(base@) == merged_entry(entries_view(before), (e.key@, value_view(e.value))));
                }
            },
        }
        i = i + 1;
    }
    proof {
        assert(o@.take(o@.len() as int) =~= o@);
    }
}


// ---------------------------------------------------------------------------
// Presets

pub open spec fn table_required_text() -> Seq<char> {
    "Preset override must be a TOML table"@
}

/// Accepts a preset override only when it is a table.
pub fn validate_preset_override(value: &TomlValue) -> (r: Result<&TomlValue, Error>)
    ensures
        value@ is Table ==> r == Ok::<&TomlValue, Error>(value),
        !(value@ is Table) ==> (r matches Err(e) && is_config_error(e, table_required_text())),
{
    match value {
        TomlValue::Table(_) => Ok(value),
        _ => Err(Error::Config(String::from_str("Preset override must be a TOML table"))),
    }
}

// ---------------------------------------------------------------------------
// The `dev` preset

/// IEEE-754 bits of the decimal constants that the `dev` preset uses
/// (0.3, 0.4, 0.5, 0.9, 1.0, 2.0, 127.5 and 128.0).
pub const FLOAT_0_3: u64 = 0x3fd3333333333333;
pub const FLOAT_0_4: u64 = 0x3fd999999999999a;
pub const FLOAT_0_5: u64 = 0x3fe0000000000000;
pub const FLOAT_0_9: u64 = 0x3feccccccccccccd;
pub const FLOAT_1_0: u64 = 0x3ff0000000000000;
pub const FLOAT_2_0: u64 = 0x4000000000000000;
pub const FLOAT_127_5: u64 = 0x405fe00000000000;
pub const FLOAT_128_0: u64 = 0x4060000000000000;

/// The preprocessing table of a recognition model: 112 by 112 input, the
/// same mean and the same scale on each of the three channels, and
/// L2-normalised embeddings.
pub open spec fn preprocess_view(layout: Seq<char>, order: Seq<char>, mean: u64, scale: u64) -> TomlView {
    TomlView::Table(seq![
        ("color_order"@, TomlView::String(order)),
        ("input_height"@, TomlView::Integer(112)),
        ("input_layout"@, TomlView::String(layout)),
        ("input_width"@, TomlView::Integer(112)),
        ("l2_normalize"@, TomlView::Boolean(true)),
        ("mean"@, TomlView::Array(seq![TomlView::Float(mean), TomlView::Float(mean), TomlView::Float(mean)])),
        ("std"@, TomlView::Array(seq![TomlView::Float(scale), TomlView::Float(scale), TomlView::Float(scale)])),
    ])
}

/// The table of a face detector model.
pub open spec fn detector_view(path: Seq<char>, size: i64, score: u64, nms: u64) -> TomlView {
    TomlView::Table(seq![
        ("input_height"@, TomlView::Integer(size)),
        ("input_width"@, TomlView::Integer(size)),
        ("nms_threshold"@, TomlView::Float(nms)),
        ("path"@, TomlView::String(path)),
        ("score_threshold"@, TomlView::Float(score)),
    ])
}

/// The table of a face recognition model.
pub open spec fn recognizer_view(dim: i64, model_id: Seq<char>, path: Seq<char>, preprocess: TomlView) -> TomlView {
    TomlView::Table(seq![
        ("embedding_dim"@, TomlView::Integer(dim)),
        ("model_id"@, TomlView::String(model_id)),
        ("path"@, TomlView::String(path)),
        ("preprocess"@, preprocess),
    ])
}

/// The entries of the `[models]` table of the `dev` preset.
pub open spec fn dev_models_entries() -> Seq<(Seq<char>, TomlView)> {
    seq![
        ("active_detector"@, TomlView::String("scrfd"@)),
        ("active_recognizer"@, TomlView::String("ghostfacenet"@)),
        ("anti_spoof_v1se_path"@, TomlView::String("/home/ysltr/builds/FacePass/facepass/models/MiniFASNetV1SE.onnx"@)),
        ("anti_spoof_v2_path"@, TomlView::String("/home/ysltr/builds/FacePass/facepass/models/MiniFASNetV2.onnx"@)),
        ("ghostfacenet"@, recognizer_view(
            512,
            "ghostfacenet-w1.3-s1-arcface-ir11-512"@,
            "/home/ysltr/builds/FacePass/facepass/models/GhostFaceNet_W1.3_S1_ArcFace-ir11.onnx"@,
            preprocess_view("nhwc"@, "rgb"@, FLOAT_127_5, FLOAT_128_0),
        )),
        ("mobilefacenet"@, recognizer_view(
            128,
            "mobilefacenet-128"@,
            "/home/ysltr/builds/FacePass/facepass/models/MobileFaceNet.onnx"@,
            preprocess_view("nchw"@, "rgb"@, FLOAT_127_5, FLOAT_127_5),
        )),
        ("scrfd"@, detector_view(
            "/home/ysltr/builds/FacePass/facepass/models/SCRFD_2.5g_bnkps.onnx"@, 640, FLOAT_0_5, FLOAT_0_4,
        )),
        ("sface"@, recognizer_view(
            128,
            "sface-128"@,
            "/home/ysltr/builds/FacePass/facepass/models/face_recognition_sface_2021dec.onnx"@,
            preprocess_view("nchw"@, "bgr"@, 0, FLOAT_1_0),
        )),
        ("yunet"@, detector_view(
            "/home/ysltr/builds/FacePass/facepass/models/face_detection_yunet_2023mar.onnx"@, 320, FLOAT_0_9, FLOAT_0_3,
        )),
    ]
}

/// The entries of the `dev` preset of a fresh configuration file, its keys
/// in ascending order at every level.
pub open spec fn dev_preset_entries() -> Seq<(Seq<char>, TomlView)> {
    seq![
        ("anti_spoof"@, TomlView::Table(seq![("threshold"@, TomlView::Float(FLOAT_0_9))])),
        ("daemon"@, TomlView::Table(seq![("log_level"@, TomlView::String("debug"@))])),
        ("models"@, TomlView::Table(dev_models_entries())),
        ("recognition"@, TomlView::Table(seq![
            ("consecutive_match_frames"@, TomlView::Integer(10)),
            ("similarity_threshold"@, TomlView::Float(FLOAT_0_4)),
            ("valid_crop_scale"@, TomlView::Float(FLOAT_2_0)),
            ("valid_frames"@, TomlView::Integer(30)),
        ])),
        ("storage"@, TomlView::Table(seq![
            ("data_dir"@, TomlView::String("/home/ysltr/builds/FacePass/facepass/data/faces"@)),
        ])),
        ("video"@, TomlView::Table(seq![
            ("device"@, TomlView::String("/dev/video2"@)),
            ("frame_height"@, TomlView::Integer(480)),
            ("frame_width"@, TomlView::Integer(640)),
            ("max_frames"@, TomlView::Integer(50)),
            ("timeout"@, TomlView::Integer(5)),
        ])),
    ]
}

/// The `dev` preset of a fresh configuration file.
pub open spec fn dev_preset_view() -> TomlView {
    TomlView::Table(dev_preset_entries())
}

/// Appends the entry `key = value` to a table under construction.
fn push_entry(entries: &mut Vec<TomlEntry>, key: &str, value: TomlValue)
    ensures
        entries_view(final(entries)@) == entries_view(old(entries)@).push((key@, value@)),
{
    let ghost before = entries@;
    entries.push(TomlEntry { key: String::from_str(key), value });
    proof {
        assert(entries@.subrange(0, entries@.len() - 1) =~= before);
    }
}

fn text_value(s: &str) -> (r: TomlValue)
    ensures
        r@ == TomlView::String(s@),
{
    TomlValue::String(String::from_str(s))
}

/// Appends `value` to an array under construction.
fn push_item(items: &mut Vec<TomlValue>, value: TomlValue)
    ensures
        values_view(final(items)@) == values_view(old(items)@).push(value@),
{
    let ghost before = items@;
    items.push(value);
    proof {
        assert(items@.subrange(0, items@.len() - 1) =~= before);
    }
}

/// An array of the same float three times.
fn float_triple(bits: u64) -> (r: TomlValue)
    ensures
        r@ == TomlView::Array(seq![TomlView::Float(bits), TomlView::Float(bits), TomlView::Float(bits)]),
{
    let mut items: Vec<TomlValue> = Vec::new();
    push_item(&mut items, TomlValue::Float(bits));
    push_item(&mut items, TomlValue::Float(bits));
    push_item(&mut items, TomlValue::Float(bits));
    proof {
        assert(values_view(Seq::<TomlValue>::empty()) =~= Seq::empty());
        assert(values_view(items@) =~= seq![TomlView::Float(bits), TomlView::Float(bits), TomlView::Float(bits)]);
    }
    TomlValue::Array(items)
}

fn preprocess_value(layout: &str, order: &str, mean: u64, scale: u64) -> (r: TomlValue)
    ensures
        r@ == preprocess_view(layout@, order@, mean, scale),
{
    let mut t: Vec<TomlEntry> = Vec::new();
    push_entry(&mut t, "color_order", text_value(order));
    push_entry(&mut t, "input_height", TomlValue::Integer(112));
    push_entry(&mut t, "input_layout", text_value(layout));
    push_entry(&mut t, "input_width", TomlValue::Integer(112));
    push_entry(&mut t, "l2_normalize", TomlValue::Boolean(true));
    push_entry(&mut t, "mean", float_triple(mean));
    push_entry(&mut t, "std", float_triple(scale));
    proof {
        assert(entries_view(Seq::<TomlEntry>::empty()) =~= Seq::empty());
        assert(entries_view(t@) =~= seq![
            ("color_order"@, TomlView::String(order@)),
            ("input_height"@, TomlView::Integer(112)),
            ("input_layout"@, TomlView::String(layout@)),
            ("input_width"@, TomlView::Integer(112)),
            ("l2_normalize"@, TomlView::Boolean(true)),
            ("mean"@, TomlView::Array(seq![TomlView::Float(mean), TomlView::Float(mean), TomlView::Float(mean)])),
            ("std"@, TomlView::Array(seq![TomlView::Float(scale), TomlView::Float(scale), TomlView::Float(scale)])),
        ]);
    }
    TomlValue::Table(t)
}

fn detector_value(path: &str, size: i64, score: u64, nms: u64) -> (r: TomlValue)
    ensures
        r@ == detector_view(path@, size, score, nms),
{
    let mut t: Vec<TomlEntry> = Vec::new();
    push_entry(&mut t, "input_height", TomlValue::Integer(size));
    push_entry(&mut t, "input_width", TomlValue::Integer(size));
    push_entry(&mut t, "nms_threshold", TomlValue::Float(nms));
    push_entry(&mut t, "path", text_value(path));
    push_entry(&mut t, "score_threshold", TomlValue::Float(score));
    proof {
        assert(entries_view(Seq::<TomlEntry>::empty()) =~= Seq::empty());
        assert(entries_view(t@) =~= seq![
            ("input_height"@, TomlView::Integer(size)),
            ("input_width"@, TomlView::Integer(size)),
            ("nms_threshold"@, TomlView::Float(nms)),
            ("path"@, TomlView::String(path@)),
            ("score_threshold"@, TomlView::Float(score)),
        ]);
    }
    TomlValue::Table(t)
}

fn recognizer_value(dim: i64, model_id: &str, path: &str, preprocess: TomlValue) -> (r: TomlValue)
    ensures
        r@ == recognizer_view(dim, model_id@, path@, preprocess@),
{
    let ghost pre = preprocess@;
    let mut t: Vec<TomlEntry> = Vec::new();
    push_entry(&mut t, "embedding_dim", TomlValue::Integer(dim));
    push_entry(&mut t, "model_id", text_value(model_id));
    push_entry(&mut t, "path", text_value(path));
    push_entry(&mut t, "preprocess", preprocess);
    proof {
        assert(entries_view(Seq::<TomlEntry>::empty()) =~= Seq::empty());
        assert(entries_view(t@) =~= seq![
            ("embedding_dim"@, TomlView::Integer(dim)),
            ("model_id"@, TomlView::String(model_id@)),
            ("path"@, TomlView::String(path@)),
            ("preprocess"@, pre),
        ]);
    }
    TomlValue::Table(t)
}

fn dev_models_value() -> (r: TomlValue)
    ensures
        r@ == TomlView::Table(dev_models_entries()),
{
    let mut t: Vec<TomlEntry> = Vec::new();
    push_entry(&mut t, "active_detector", text_value("scrfd"));
    push_entry(&mut t, "active_recognizer", text_value("ghostfacenet"));
    push_entry(
        &mut t,
        "anti_spoof_v1se_path",
        text_value("/home/ysltr/builds/FacePass/facepass/models/MiniFASNetV1SE.onnx"),
    );
    push_entry(
        &mut t,
        "anti_spoof_v2_path",
        text_value("/home/ysltr/builds/FacePass/facepass/models/MiniFASNetV2.onnx"),
    );
    push_entry(&mut t, "ghostfacenet", recognizer_value(
        512,
        "ghostfacenet-w1.3-s1-arcface-ir11-512",
        "/home/ysltr/builds/FacePass/facepass/models/GhostFaceNet_W1.3_S1_ArcFace-ir11.onnx",
        preprocess_value("nhwc", "rgb", FLOAT_127_5, FLOAT_128_0),
    ));
    push_entry(&mut t, "mobilefacenet", recognizer_value(
        128,
        "mobilefacenet-128",
        "/home/ysltr/builds/FacePass/facepass/models/MobileFaceNet.onnx",
        preprocess_value("nchw", "rgb", FLOAT_127_5, FLOAT_127_5),
    ));
    push_entry(&mut t, "scrfd", detector_value(
        "/home/ysltr/builds/FacePass/facepass/models/SCRFD_2.5g_bnkps.onnx", 640, FLOAT_0_5, FLOAT_0_4,
    ));
    push_entry(&mut t, "sface", recognizer_value(
        128,
        "sface-128",
        "/home/ysltr/builds/FacePass/facepass/models/face_recognition_sface_2021dec.onnx",
        preprocess_value("nchw", "bgr", 0, FLOAT_1_0),
    ));
    push_entry(&mut t, "yunet", detector_value(
        "/home/ysltr/builds/FacePass/facepass/models/face_detection_yunet_2023mar.onnx", 320, FLOAT_0_9, FLOAT_0_3,
    ));
    proof {
        assert(entries_view(Seq::<TomlEntry>::empty()) =~= Seq::empty());
    }
    assert(entries_view(t@) =~= dev_models_entries());
    TomlValue::Table(t)
}

fn single_table(key: &str, value: TomlValue) -> (r: TomlValue)
    ensures
        r@ == TomlView::Table(seq![(key@, value@)]),
{
    let mut t: Vec<TomlEntry> = Vec::new();
    push_entry(&mut t, key, value);
    proof {
        assert(entries_view(Seq::<TomlEntry>::empty()) =~= Seq::empty());
        assert(entries_view(t@) =~= seq![(key@, value@)]);
    }
    TomlValue::Table(t)
}

/// The `dev` preset that a fresh configuration file carries: a table of
/// development overrides (camera device, thresholds, model paths). It is a
/// table, so it is a valid preset override.
pub fn default_dev_preset() -> (r: TomlValue)
    ensures
        r@ == dev_preset_view(),
        r@ is Table,
{
    proof {
        assert(entries_view(Seq::<TomlEntry>::empty()) =~= Seq::empty());
    }
    let mut recognition: Vec<TomlEntry> = Vec::new();
    push_entry(&mut recognition, "consecutive_match_frames", TomlValue::Integer(10));
    push_entry(&mut recognition, "similarity_threshold", TomlValue::Float(FLOAT_0_4));
    push_entry(&mut recognition, "valid_crop_scale", TomlValue::Float(FLOAT_2_0));
    push_entry(&mut recognition, "valid_frames", TomlValue::Integer(30));
    assert(entries_view(recognition@) =~= seq![
        ("consecutive_match_frames"@, TomlView::Integer(10)),
        ("similarity_threshold"@, TomlView::Float(FLOAT_0_4)),
        ("valid_crop_scale"@, TomlView::Float(FLOAT_2_0)),
        ("valid_frames"@, TomlView::Integer(30)),
    ]);
    let mut video: Vec<TomlEntry> = Vec::new();
    push_entry(&mut video, "device", text_value("/dev/video2"));
    push_entry(&mut video, "frame_height", TomlValue::Integer(480));
    push_entry(&mut video, "frame_width", TomlValue::Integer(640));
    push_entry(&mut video, "max_frames", TomlValue::Integer(50));
    push_entry(&mut video, "timeout", TomlValue::Integer(5));
    assert(entries_view(video@) =~= seq![
        ("device"@, TomlView::String("/dev/video2"@)),
        ("frame_height"@, TomlView::Integer(480)),
        ("frame_width"@, TomlView::Integer(640)),
        ("max_frames"@, TomlView::Integer(50)),
        ("timeout"@, TomlView::Integer(5)),
    ]);
    let mut root: Vec<TomlEntry> = Vec::new();
    push_entry(&mut root, "anti_spoof", single_table("threshold", TomlValue::Float(FLOAT_0_9)));
    push_entry(&mut root, "daemon", single_table("log_level", text_value("debug")));
    push_entry(&mut root, "models", dev_models_value());
    push_entry(&mut root, "recognition", TomlValue::Table(recognition));
    push_entry(
        &mut root,
        "storage",
        single_table("data_dir", text_value("/home/ysltr/builds/FacePass/facepass/data/faces")),
    );
    push_entry(&mut root, "video", TomlValue::Table(video));
    assert(entries_view(root@) =~= dev_preset_entries());
    TomlValue::Table(root)
}

/// A configuration file: the active preset's name, the base configuration
/// as a TOML table, and the presets by name (in ascending order of name).
#[derive(Debug)]
pub struct ConfigFile {
    pub active_preset: String,
    pub base: TomlValue,
    pub presets: Vec<TomlEntry>,
}

/// The preset names other than `default`, in order.
pub open spec fn names_besides_default(presets: Seq<TomlEntry>) -> Seq<Seq<char>>
    decreases presets.len(),
{
    if presets.len() == 0 {
        Seq::empty()
    } else {
        let rest = names_besides_default(presets.drop_last());
        if presets.last().key@ == "default"@ {
            rest
        } else {
            rest.push(presets.last().key@)
        }
    }
}

/// The presets a file offers: `default` first, then the others in order.
pub open spec fn preset_list(presets: Seq<TomlEntry>) -> Seq<Seq<char>> {
    seq!["default"@] + names_besides_default(presets)
}

/// Names joined with `, `.
pub open spec fn joined_names(names: Seq<Seq<char>>) -> Seq<char>
    decreases names.len(),
{
    if names.len() == 0 {
        Seq::empty()
    } else if names.len() == 1 {
        names[0]
    } else {
        joined_names(names.drop_last()) + ", "@ + names.last()
    }
}

pub open spec fn unknown_preset_text(name: Seq<char>, presets: Seq<TomlEntry>) -> Seq<char> {
    "Unknown preset '"@ + name + "'. Available presets: "@ + joined_names(preset_list(presets))
}

/// The override that a preset name selects: its table, none for `default`
/// when the file has no such preset, or the error text.
pub open spec fn override_of(presets: Seq<TomlEntry>, name: Seq<char>) -> Result<Option<TomlView>, Seq<char>> {
    match key_index(entries_view(presets), name) {
        Some(i) => if entries_view(presets)[i].1 is Table {
            Ok(Some(entries_view(presets)[i].1))
        } else {
            Err(table_required_text())
        },
        None => if name == "default"@ {
            Ok(None)
        } else {
            Err(unknown_preset_text(name, presets))
        },
    }
}

/// The configuration a preset resolves to, before it is read as a
/// configuration: the base with the preset's override laid over it.
pub open spec fn resolved_value(base: TomlView, presets: Seq<TomlEntry>, name: Seq<char>) -> Result<TomlView, Seq<char>> {
    if trimmed(name).len() == 0 {
        Err(empty_preset_text())
    } else {
        match override_of(presets, trimmed(name)) {
            Err(m) => Err(m),
            Ok(None) => Ok(base),
            Ok(Some(o)) => Ok(merged(base, o)),
        }
    }
}

fn joined_list(names: &Vec<String>) -> (r: String)
    ensures
        r@ == joined_names(names@.map_values(|n: String| n@)),
{
    let ghost all = names@.map_values(|n: String| n@);
    let mut s = String::from_str("");
    proof {
        reveal_strlit("");
    }
    let mut i: usize = 0;
    while i < names.len()
        invariant
            i <= names.len(),
            all == names@.map_values(|n: String| n@),
            s@ == joined_names(all.take(i as int)),
        decreases names.len() - i,
    {
        proof {
            assert(all.take(i + 1).drop_last() =~= all.take(i as int));
        }
        if i > 0 {
            s.append(", ");
        }
        s.append(names[i].as_str());
        assert(s@ =~= joined_names(all.take(i + 1)));
        i = i + 1;
    }
    assert(all.take(all.len() as int) =~= all);
    s
}

impl ConfigFile {
    /// The presets the file offers: `default` first, then the others in order.
    pub fn list_presets(&self) -> (r: Vec<String>)
        ensures
            r@.map_values(|n: String| n@) == preset_list(self.presets@),
    {
        let mut out: Vec<String> = Vec::new();
        out.push(String::from_str("default"));
        let mut i: usize = 0;
        proof {
            assert(self.presets@.take(0) =~= Seq::<TomlEntry>::empty());
            assert(out@.map_values(|n: String| n@) =~= preset_list(self.presets@.take(0)));
        }
        while i < self.presets.len()
            invariant
                i <= self.presets.len(),
                out@.map_values(|n: String| n@) == preset_list(self.presets@.take(i as int)),
            decreases self.presets.len() - i,
        {
            proof {
                assert(self.presets@.take(i + 1).drop_last() =~= self.presets@.take(i as int));
            }
            let ghost before = out@.map_values(|n: String| n@);
            let key = &self.presets[i].key;
            if !str_eq(key.as_str(), "default") {
                out.push(key.clone());
                assert(out@.map_values(|n: String| n@) =~= before.push(key@));
            }
            assert(out@.map_values(|n: String| n@) =~= preset_list(self.presets@.take(i + 1)));
            i = i + 1;
        }
        assert(self.presets@.take(self.presets@.len() as int) =~= self.presets@);
        out
    }

    /// The active preset's name, trimmed; refused when empty.
    pub fn active_preset_name(&self) -> (r: Result<String, Error>)
        ensures
            trimmed(self.active_preset@).len() > 0 ==> (r matches Ok(n) && n@ == trimmed(self.active_preset@)),
            trimmed(self.active_preset@).len() == 0 ==> (r matches Err(e) && is_config_error(e, empty_preset_text())),
    {
        match normalize_preset_name(self.active_preset.as_str()) {
            Ok(n) => Ok(String::from_str(n)),
            Err(e) => Err(e),
        }
    }

    /// The override of the preset `name` (already trimmed).
    pub fn preset_override(&self, name: &str) -> (r: Result<Option<&TomlValue>, Error>)
        ensures
            match override_of(self.presets@, name@) {
                Ok(None) => r matches Ok(None),
                Ok(Some(v)) => r matches Ok(Some(x)) && x@ == v,
                Err(m) => r matches Err(e) && is_config_error(e, m),
            },
    {
        proof {
            lemma_entries_view(self.presets@);
            lemma_key_index_from(entries_view(self.presets@), name@, 0);
        }
        let count = self.presets.len();
        assert(entries_view(self.presets@).len() == count);
        match find_key(&self.presets, name) {
            Some(i) => {
                assert(key_index(entries_view(self.presets@), name@) == Some(i as int));
                let v = &self.presets[i].value;
                assert(entries_view(self.presets@)[i as int].1 == v@);
                match validate_preset_override(v) {
                    Ok(x) => Ok(Some(x)),
                    Err(e) => Err(e),
                }
            },
            None => {
                if str_eq(name, "default") {
                    Ok(None)
                } else {
                    let names = self.list_presets();
                    let mut m = String::from_str("Unknown preset '");
                    m.append(name);
                    m.append("'. Available presets: ");
                    let list = joined_list(&names);
                    m.append(list.as_str());
                    assert(m@ =~= unknown_preset_text(name@, self.presets@));
                    Err(Error::Config(m))
                }
            },
        }
    }

    /// Makes `name` (trimmed) the active preset, when the file has it (or it is
    /// `default`) and its override is a table.
    pub fn set_active_preset(&mut self, name: &str) -> (r: Result<(), Error>)
        ensures
            trimmed(name@).len() == 0 ==> (r matches Err(e) && is_config_error(e, empty_preset_text())),
            trimmed(name@).len() > 0 ==> match override_of(old(self).presets@, trimmed(name@)) {
                Err(m) => r matches Err(e) && is_config_error(e, m),
                Ok(_) => r is Ok,
            },
            r is Ok ==> final(self).active_preset@ == trimmed(name@),
            r is Err ==> final(self).active_preset@ == old(self).active_preset@,
            final(self).presets@ == old(self).presets@,
            final(self).base@ == old(self).base@,
    {
        let n = match normalize_preset_name(name) {
            Ok(n) => n,
            Err(e) => return Err(e),
        };
        match self.preset_override(n) {
            Err(e) => return Err(e),
            Ok(_) => {},
        }
        self.active_preset = String::from_str(n);
        Ok(())
    }

    /// The configuration value of the preset `name`: the base with the
    /// preset's override laid over it.
    pub fn resolve_preset(&self, name: &str) -> (r: Result<TomlValue, Error>)
        ensures
            match resolved_value(self.base@, self.presets@, name@) {
                Ok(v) => r matches Ok(x) && x@ == v,
                Err(m) => r matches Err(e) && is_config_error(e, m),
            },
    {
        let n = match normalize_preset_name(name) {
            Ok(n) => n,
            Err(e) => return Err(e),
        };
        let overlay = match self.preset_override(n) {
            Ok(o) => o,
            Err(e) => return Err(e),
        };
        let mut merged_value = clone_value(&self.base);
        match overlay {
            Some(o) => merge_toml_value(&mut merged_value, o),
            None => {},
        }
        Ok(merged_value)
    }

    /// The configuration value of the active preset.
    pub fn resolve_active_preset(&self) -> (r: Result<TomlValue, Error>)
        ensures
            trimmed(self.active_preset@).len() == 0 ==> (r matches Err(e) && is_config_error(e, empty_preset_text())),
            trimmed(self.active_preset@).len() > 0 ==> match resolved_value(self.base@, self.presets@, self.active_preset@) {
                Ok(v) => r matches Ok(x) && x@ == v,
                Err(m) => r matches Err(e) && is_config_error(e, m),
            },
    {
        let name = match self.active_preset_name() {
            Ok(n) => n,
            Err(e) => return Err(e),
        };
        proof {
            crate::text::lemma_trimmed_idempotent(self.active_preset@);
        }
        self.resolve_preset(name.as_str())
    }
}


// ---------------------------------------------------------------------------
// Laws

/// The value a table gives for key `k`.
pub open spec fn lookup(entries: Seq<(Seq<char>, TomlView)>, k: Seq<char>) -> Option<TomlView> {
    match key_index(entries, k) {
        Some(i) => Some(entries[i].1),
        None => None,
    }
}

/// No key occurs twice.
pub open spec fn distinct_keys(entries: Seq<(Seq<char>, TomlView)>) -> bool {
    forall|i: int, j: int| 0 <= i < j < entries.len() ==> entries[i].0 != entries[j].0
}

proof fn lemma_key_index_is(e: Seq<(Seq<char>, TomlView)>, k: Seq<char>, i: int)
    requires
        0 <= i < e.len(),
        e[i].0 == k,
        forall|j: int| 0 <= j < i ==> e[j].0 != k,
    ensures
        key_index(e, k) == Some(i),
{
    lemma_key_index_from(e, k, 0);
}

proof fn lemma_key_index_same_keys(a: Seq<(Seq<char>, TomlView)>, b: Seq<(Seq<char>, TomlView)>, k: Seq<char>)
    requires
        a.len() == b.len(),
        forall|j: int| 0 <= j < a.len() ==> a[j].0 == b[j].0,
    ensures
        key_index(a, k) == key_index(b, k),
{
    lemma_key_index_from(a, k, 0);
    lemma_key_index_from(b, k, 0);
    match key_index(a, k) {
        Some(i) => lemma_key_index_is(b, k, i),
        None => {},
    }
}

proof fn lemma_key_index_push(e: Seq<(Seq<char>, TomlView)>, x: (Seq<char>, TomlView), k: Seq<char>)
    ensures
        key_index(e.push(x), k) == match key_index(e, k) {
            Some(i) => Some(i),
            None => if x.0 == k { Some(e.len() as int) } else { None },
        },
{
    lemma_key_index_from(e, k, 0);
    lemma_key_index_from(e.push(x), k, 0);
    match key_index(e, k) {
        Some(i) => lemma_key_index_is(e.push(x), k, i),
        None => if x.0 == k {
            lemma_key_index_is(e.push(x), k, e.len() as int);
        },
    }
}

/// What laying the entries `o` over `b` gives for key `k`.
pub open spec fn merged_lookup(b: Seq<(Seq<char>, TomlView)>, o: Seq<(Seq<char>, TomlView)>, k: Seq<char>) -> Option<
    TomlView,
> {
    match lookup(o, k) {
        None => lookup(b, k),
        Some(ov) => Some(
            match lookup(b, k) {
                Some(bv) => merged(bv, ov),
                None => ov,
            },
        ),
    }
}

/// Laying a table over another keeps every key of the base that the overlay
/// lacks with its value, adds the overlay's new keys with their values, and
/// merges the values of shared keys: for each key, the merged table gives
/// exactly `merged_lookup`. (An overlay read from TOML never repeats a key.)
pub proof fn lemma_merged_lookup(b: Seq<(Seq<char>, TomlView)>, o: Seq<(Seq<char>, TomlView)>, k: Seq<char>)
    requires
        distinct_keys(o),
    ensures
        lookup(merged_entries(b, o), k) == merged_lookup(b, o, k),
    decreases o.len(),
{
    if o.len() > 0 {
        let rest = o.subrange(0, o.len() - 1);
        let e = o[o.len() - 1];
        assert(o =~= rest.push(e));
        lemma_merged_lookup(b, rest, k);
        let x = merged_entries(b, rest);
        lemma_key_index_push(rest, e, k);
        lemma_key_index_from(rest, k, 0);
        lemma_key_index_from(x, k, 0);
        lemma_key_index_from(x, e.0, 0);
        match key_index(x, e.0) {
            Some(i) => {
                let y = x.update(i, (x[i].0, merged(x[i].1, e.1)));
                assert(merged_entry(x, e) == y);
                lemma_key_index_same_keys(y, x, k);
            },
            None => {
                assert(merged_entry(x, e) == x.push(e));
                lemma_key_index_push(x, e, k);
            },
        }
    }
}

/// Laying a value that is not a table over anything gives that value.
pub proof fn lemma_merge_leaf_replaces(base: TomlView, overlay: TomlView)
    requires
        !(overlay is Table),
    ensures
        merged(base, overlay) == overlay,
{
}

/// Laying an empty table over a table leaves it as it was.
pub proof fn lemma_merge_empty_overlay(b: Seq<(Seq<char>, TomlView)>)
    ensures
        merged(TomlView::Table(b), TomlView::Table(Seq::empty())) == TomlView::Table(b),
{
}

/// Once the active preset was set to `name`, resolving the active preset
/// resolves `name`: the stored name reads back trimmed, and resolves alike.
pub proof fn lemma_active_after_set(stored: Seq<char>, name: Seq<char>, base: TomlView, presets: Seq<TomlEntry>)
    requires
        trimmed(name).len() > 0,
        stored == trimmed(name),
    ensures
        trimmed(stored) == trimmed(name),
        trimmed(stored).len() > 0,
        resolved_value(base, presets, stored) == resolved_value(base, presets, name),
{
    crate::text::lemma_trimmed_idempotent(name);
}

/// The `default` preset without an entry of its own is the base itself.
pub proof fn lemma_default_is_base(base: TomlView, presets: Seq<TomlEntry>)
    requires
        key_index(entries_view(presets), "default"@) is None,
    ensures
        resolved_value(base, presets, "default"@) == Ok::<TomlView, Seq<char>>(base),
{
    reveal_strlit("default");
    assert(trimmed("default"@) == "default"@) by {
        assert(crate::text::leading_space("default"@) == 0);
        assert(crate::text::trailing_space("default"@) == 0);
        assert("default"@.skip(0) =~= "default"@);
        assert("default"@.skip(0).take(7) =~= "default"@);
    }
}


/// The names of a list of presets, in order.
pub open spec fn keys_of(p: Seq<TomlEntry>) -> Seq<Seq<char>> {
    p.map_values(|e: TomlEntry| e.key@)
}

proof fn lemma_names_besides_default(p: Seq<TomlEntry>)
    ensures
        forall|i: int| 0 <= i < names_besides_default(p).len() ==> #[trigger] names_besides_default(p)[i] != "default"@
            && keys_of(p).contains(names_besides_default(p)[i]),
        forall|k: int| 0 <= k < p.len() && p[k].key@ != "default"@ ==> names_besides_default(p).contains(#[trigger] p[k].key@),
        (forall|a: int, b: int| 0 <= a < b < p.len() ==> p[a].key@ != p[b].key@) ==> forall|i: int, j: int|
            0 <= i < j < names_besides_default(p).len() ==> names_besides_default(p)[i] != names_besides_default(p)[j],
    decreases p.len(),
{
    if p.len() > 0 {
        let q = p.drop_last();
        let e = p.last();
        lemma_names_besides_default(q);
        let nq = names_besides_default(q);
        let np = names_besides_default(p);
        assert(keys_of(p) =~= keys_of(q).push(e.key@));
        assert forall|i: int| 0 <= i < np.len() implies #[trigger] np[i] != "default"@ && keys_of(p).contains(np[i]) by {
            if i < nq.len() {
                assert(np[i] == nq[i]);
                let m = choose|m: int| 0 <= m < keys_of(q).len() && keys_of(q)[m] == nq[i];
                assert(keys_of(p)[m] == nq[i]);
            } else {
                assert(np[i] == e.key@);
                assert(keys_of(p)[p.len() - 1] == e.key@);
            }
        }
        assert forall|k: int| 0 <= k < p.len() && p[k].key@ != "default"@ implies np.contains(#[trigger] p[k].key@) by {
            if k < p.len() - 1 {
                assert(p[k] == q[k]);
                assert(nq.contains(q[k].key@));
                let m = choose|m: int| 0 <= m < nq.len() && nq[m] == q[k].key@;
                assert(np[m] == nq[m]);
            } else {
                assert(np[np.len() - 1] == e.key@);
            }
        }
        if forall|a: int, b: int| 0 <= a < b < p.len() ==> p[a].key@ != p[b].key@ {
            assert forall|a: int, b: int| 0 <= a < b < q.len() implies q[a].key@ != q[b].key@ by {
                assert(q[a] == p[a] && q[b] == p[b]);
            }
            assert forall|i: int, j: int| 0 <= i < j < np.len() implies np[i] != np[j] by {
                if j < nq.len() {
                    assert(np[i] == nq[i] && np[j] == nq[j]);
                } else {
                    assert(np[i] == nq[i]);
                    assert(keys_of(q).contains(nq[i]));
                    let m = choose|m: int| 0 <= m < keys_of(q).len() && keys_of(q)[m] == nq[i];
                    assert(q[m] == p[m]);
                    assert(np[j] == e.key@);
                }
            }
        }
    }
}

/// The preset list starts with `default`, names each preset of the file,
/// and (as the file's names are distinct) names none twice.
pub proof fn lemma_preset_list(presets: Seq<TomlEntry>)
    requires
        forall|a: int, b: int| 0 <= a < b < presets.len() ==> presets[a].key@ != presets[b].key@,
    ensures
        preset_list(presets)[0] == "default"@,
        forall|k: int| 0 <= k < presets.len() ==> preset_list(presets).contains(#[trigger] presets[k].key@),
        forall|i: int, j: int| 0 <= i < j < preset_list(presets).len() ==> preset_list(presets)[i] != preset_list(presets)[j],
{
    lemma_names_besides_default(presets);
    let l = preset_list(presets);
    let n = names_besides_default(presets);
    assert forall|k: int| 0 <= k < presets.len() implies l.contains(#[trigger] presets[k].key@) by {
        if presets[k].key@ == "default"@ {
            assert(l[0] == "default"@);
        } else {
            assert(n.contains(presets[k].key@));
            let m = choose|m: int| 0 <= m < n.len() && n[m] == presets[k].key@;
            assert(l[m + 1] == n[m]);
        }
    }
    assert forall|i: int, j: int| 0 <= i < j < l.len() implies l[i] != l[j] by {
        assert(l[j] == n[j - 1]);
        if i > 0 {
            assert(l[i] == n[i - 1]);
        }
    }
}

} // verus!
