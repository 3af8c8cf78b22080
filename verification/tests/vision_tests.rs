use facepass::config::AntiSpoofMode;
use facepass::error::Error;
use facepass::vision::{active_profiles, camera_candidates, normalize_roi_rect, probe_input_sizes, AntiSpoofModel, RoiRect};

#[test]
fn test_normalize_roi_rect_clamps_rounded_overflow() {
    let roi = normalize_roi_rect(640, 480, (1, 0, 640, 480)).unwrap();
    assert_eq!(roi.x, 1);
    assert_eq!(roi.y, 0);
    assert_eq!(roi.width, 639);
    assert_eq!(roi.height, 480);
}

#[test]
fn test_normalize_roi_rect_edges() {
    assert_eq!(
        normalize_roi_rect(0, 480, (0, 0, 10, 10)),
        Err(Error::AntiSpoofing("Cannot crop anti-spoof ROI from an empty frame".to_string()))
    );
    assert_eq!(
        normalize_roi_rect(640, 480, (-3, 4, 0, 7)),
        Err(Error::AntiSpoofing("Invalid anti-spoof ROI dimensions: x=-3, y=4, width=0, height=7".to_string()))
    );
    assert_eq!(
        normalize_roi_rect(640, 480, (-20, 900, 50, 50)),
        Ok(RoiRect { x: 0, y: 479, width: 50, height: 1 })
    );
}

#[test]
fn test_probe_input_sizes_order() {
    assert_eq!(probe_input_sizes(0), vec![80, 40, 112, 128, 64]);
    assert_eq!(probe_input_sizes(112), vec![112, 80, 40, 128, 64]);
    assert_eq!(probe_input_sizes(96), vec![96, 80, 40, 112, 128, 64]);
}

#[test]
fn test_active_profiles_and_cameras() {
    assert_eq!(active_profiles(AntiSpoofMode::Fusion), vec![AntiSpoofModel::MiniFASNetV2, AntiSpoofModel::MiniFASNetV1SE]);
    assert_eq!(active_profiles(AntiSpoofMode::MiniFASNetV1SE), vec![AntiSpoofModel::MiniFASNetV1SE]);
    assert_eq!(AntiSpoofModel::MiniFASNetV2.label(), "MiniFASNetV2");
    let cams = camera_candidates();
    assert_eq!(cams.len(), 10);
    assert_eq!(cams[0], "/dev/video0");
    assert_eq!(cams[9], "/dev/video9");
}

use facepass::matching::{
    compatible_candidates, ensure_comparable, ensure_query_embedding_valid, face_data_is_valid, EmbeddingMeta,
    StoredFaceMeta,
};

fn query(model: &str, dim: usize, len: usize) -> EmbeddingMeta {
    EmbeddingMeta { model_id: model.to_string(), embedding_dim: dim, feature_len: len }
}

fn stored(label: &str, model: &str, dim: usize, len: usize) -> StoredFaceMeta {
    StoredFaceMeta { label: label.to_string(), model_id: model.to_string(), embedding_dim: dim, feature_len: len }
}

#[test]
fn test_cosine_similarity_rejects_cross_model_compare() {
    let err = ensure_comparable(&query("sface-128", 128, 128), &stored("face1", "ghostfacenet-512", 512, 512)).unwrap_err();
    assert!(err.message().contains("different models"));
}

#[test]
fn test_comparison_checks_in_order() {
    assert_eq!(
        ensure_query_embedding_valid(&query(" ", 4, 4)),
        Err(Error::Recognition("Query embedding is missing model metadata or has an invalid length".to_string()))
    );
    assert_eq!(
        ensure_comparable(&query("m", 4, 4), &stored("  ", "m", 4, 4)),
        Err(Error::Recognition("Stored face '  ' has invalid embedding metadata".to_string()))
    );
    assert_eq!(
        ensure_comparable(&query("m", 4, 4), &stored("f", "m", 3, 3)),
        Err(Error::Recognition("Embedding dimension mismatch for model 'm': 4 vs 3".to_string()))
    );
    assert_eq!(ensure_comparable(&query("m", 4, 4), &stored("f", "m", 4, 4)), Ok(()));
    let faces = vec![stored("a", "m", 4, 4), stored("b", "n", 4, 4), stored("c", "m", 5, 5), stored("d", "m", 4, 4)];
    assert_eq!(compatible_candidates(&faces, "m", 4), vec![0, 3]);
}

#[test]
fn test_status_line_padding() {
    use_status_line();
}

fn use_status_line() {
    let (line, width) = facepass::commands::test::status_line(8, "abc");
    assert_eq!(line, "\rabc     ");
    assert_eq!(width, 3);
    let (line, width) = facepass::commands::test::status_line(2, "abcd");
    assert_eq!(line, "\rabcd");
    assert_eq!(width, 4);
    assert_eq!(facepass::commands::test::clear_status_line(0), None);
    assert_eq!(facepass::commands::test::clear_status_line(2).as_deref(), Some("\r  \r"));
}

#[test]
fn test_face_data_validation() {
    let valid = StoredFaceMeta {
        label: "test".to_string(),
        model_id: "ghostfacenet-512".to_string(),
        embedding_dim: 512,
        feature_len: 512,
    };
    assert!(face_data_is_valid(&valid));

    let invalid = StoredFaceMeta { embedding_dim: 128, feature_len: 64, ..valid };
    assert!(!face_data_is_valid(&invalid));
}
