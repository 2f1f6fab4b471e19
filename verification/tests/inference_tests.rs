use firered_vad::inference::{validate_caches_shape, validate_probs_shape, validate_shape};

#[test]
fn matching_shape_is_accepted() {
    assert!(validate_shape("probs", &[1, 3, 1], &[1, 3, 1]).is_ok());
}

#[test]
fn mismatching_shape_reports_the_actual_shape() {
    let err = validate_shape("probs", &[1, 2, 3], &[1, 3, 1]).unwrap_err();
    assert_eq!(err.tensor, "probs");
    assert_eq!(err.shape, vec![1, 2, 3]);
    let err = validate_shape("caches_out", &[8, 1], &[8, 1, 128, 19]).unwrap_err();
    assert_eq!(err.shape, vec![8, 1]);
}

#[test]
fn model_output_shapes_follow_the_contract() {
    assert!(validate_probs_shape(4, &[1, 4, 1]).is_ok());
    let err = validate_probs_shape(4, &[1, 5, 1]).unwrap_err();
    assert_eq!(err.tensor, "probs");
    assert_eq!(err.shape, vec![1, 5, 1]);
    assert!(validate_caches_shape(&[8, 1, 128, 19]).is_ok());
    let err = validate_caches_shape(&[8, 1, 128, 18]).unwrap_err();
    assert_eq!(err.tensor, "caches_out");
    assert_eq!(err.shape, vec![8, 1, 128, 18]);
}
