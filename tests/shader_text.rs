use fennec_gfx::animator::COMPUTE_SHADER;
use fennec_gfx::shader::{
    preprocess, ShaderError, ShaderFeature, CAMERA_CODE, NOISE_CODE, TRANSFORM_CODE,
};

const HEAD: &str = "#version 450\n\n";

#[test]
fn plain_source_gets_version_and_loses_carriage_returns() {
    let (code, features) = preprocess("#version 450\r\nvoid main() {}\r\n").unwrap();
    assert_eq!(code, format!("{}\nvoid main() {{}}\n", HEAD));
    assert!(features.is_empty());
}

#[test]
fn every_version_pragma_is_removed() {
    let (code, _) = preprocess("a#version 450b#version 450").unwrap();
    assert_eq!(code, format!("{}ab", HEAD));
}

#[test]
fn empty_source() {
    let (code, features) = preprocess("").unwrap();
    assert_eq!(code, HEAD);
    assert!(features.is_empty());
}

#[test]
fn feature_marker_is_replaced_by_feature_code() {
    let (code, features) = preprocess("#[feature(camera, transform)]\nvoid main() {}").unwrap();
    assert_eq!(features, vec![ShaderFeature::Camera, ShaderFeature::Transform]);
    assert_eq!(
        code,
        format!("{}{}\n{}\n\nvoid main() {{}}", HEAD, CAMERA_CODE, TRANSFORM_CODE)
    );
    assert!(code.contains("uniform mat4 _u_view;"));
    assert!(code.contains("uniform mat4 _u_projection;"));
    assert!(code.contains("uniform mat4 _u_transform;"));
    assert!(!code.contains("#["));
}

#[test]
fn later_markers_are_inserted_first() {
    let (code, features) = preprocess("#[feature(camera)]\n#[feature( noise )]\nx").unwrap();
    assert_eq!(features, vec![ShaderFeature::Camera, ShaderFeature::Noise]);
    assert_eq!(code, format!("{}{}\n{}\n\n\nx", HEAD, NOISE_CODE, CAMERA_CODE));
}

#[test]
fn every_marker_is_removed() {
    let (code, features) = preprocess("a#[feature(transform)]b#[feature(transform)]c").unwrap();
    assert_eq!(features, vec![ShaderFeature::Transform, ShaderFeature::Transform]);
    assert!(code.ends_with("abc"));
}

#[test]
fn bracket_on_a_later_line_is_no_marker() {
    let (code, features) = preprocess("#[feature(camera)\n]").unwrap();
    assert!(features.is_empty());
    assert_eq!(code, format!("{}#[feature(camera)\n]", HEAD));
}

#[test]
fn unknown_directive_is_refused() {
    assert_eq!(preprocess("#[foo(bar)]\n"), Err(ShaderError::UnknownDirective));
    assert_eq!(preprocess("#[feature]\n"), Err(ShaderError::UnknownDirective));
    assert_eq!(preprocess("#[feature(camera]\n"), Err(ShaderError::UnknownDirective));
}

#[test]
fn unknown_feature_is_refused() {
    assert_eq!(preprocess("#[feature(sky)]"), Err(ShaderError::UnknownFeature));
    assert_eq!(preprocess("#[feature()]"), Err(ShaderError::UnknownFeature));
    assert_eq!(preprocess("#[feature(camera,)]"), Err(ShaderError::UnknownFeature));
}

#[test]
fn unknown_directive_wins_over_earlier_unknown_feature() {
    assert_eq!(preprocess("#[feature(sky)]\n#[other(x)]"), Err(ShaderError::UnknownDirective));
}

#[test]
fn feature_names() {
    assert_eq!(ShaderFeature::from_name("camera"), Some(ShaderFeature::Camera));
    assert_eq!(ShaderFeature::from_name(" transform\t"), Some(ShaderFeature::Transform));
    assert_eq!(ShaderFeature::from_name("noise"), Some(ShaderFeature::Noise));
    assert_eq!(ShaderFeature::from_name("Camera"), None);
    assert_eq!(ShaderFeature::from_name(""), None);
    assert_eq!(ShaderFeature::Transform.inserted_code(), TRANSFORM_CODE);
}

#[test]
fn animation_shader_preprocesses() {
    let (code, features) = preprocess(COMPUTE_SHADER).unwrap();
    assert!(features.is_empty());
    assert!(code.starts_with(HEAD));
    assert!(code.contains("uniform float _u_delta_time;"));
}
