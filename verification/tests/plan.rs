use ytclip::plan::{make_plan, bitrate_for, Directive, PlanError};

fn trim() -> (String, String) {
    ("0:00".to_string(), "1:30".to_string())
}

#[test]
fn matching_extension_without_quality_needs_no_transcode() {
    let p = make_plan("url", "output.webm", &None, &trim()).unwrap();
    assert!(p.transcode.is_none());
    assert!(!p.remove_intermediate);
    assert_eq!(p.intermediate, "output.webm");
}

#[test]
fn quality_alone_forces_a_transcode() {
    let p = make_plan("url", "output.webm", &Some("100".to_string()), &trim()).unwrap();
    let t = p.transcode.expect("a transcode step");
    assert_eq!(t.directive, Directive::StreamCopy);
    assert!(p.remove_intermediate);
}

#[test]
fn different_extension_forces_a_transcode() {
    let p = make_plan("url", "output.mp4", &None, &trim()).unwrap();
    let t = p.transcode.expect("a transcode step");
    assert_eq!(t.input, "output.webm");
    assert_eq!(t.output, "output.mp4");
    assert_eq!(t.directive, Directive::StreamCopy);
    assert!(p.remove_intermediate);
}

#[test]
fn half_quality_caps_the_bitrate_at_six() {
    let p = make_plan("url", "output.mp4", &Some("50".to_string()), &trim()).unwrap();
    let t = p.transcode.expect("a transcode step");
    assert_eq!(t.directive, Directive::BitrateLimit(6));
}

#[test]
fn plan_carries_the_arguments_through() {
    let p = make_plan("https://example/v", "clip.mp4", &None, &trim()).unwrap();
    assert_eq!(p.url, "https://example/v");
    assert_eq!(p.trim_start, "0:00");
    assert_eq!(p.trim_end, "1:30");
    assert_eq!(p.intermediate, "clip.webm");
}

#[test]
fn invalid_quality_is_an_error() {
    assert_eq!(
        make_plan("url", "output.mp4", &Some("none".to_string()), &trim()),
        Err(PlanError::InvalidQuality)
    );
    assert_eq!(
        make_plan("url", "output.webm", &Some("999".to_string()), &trim()),
        Err(PlanError::InvalidQuality)
    );
}

#[test]
fn bitrate_scales_linearly() {
    assert_eq!(bitrate_for(50), 6);
    assert_eq!(bitrate_for(100), 12);
    assert_eq!(bitrate_for(0), 0);
    assert_eq!(bitrate_for(99), 11);
    assert_eq!(bitrate_for(25), 3);
}
