use rustdesk_bridge::quality::{
    push_headless_quality_status, take_headless_quality_status, HeadlessQualityStatus,
    QualityStatus,
};

fn nothing() -> QualityStatus {
    QualityStatus {
        speed: None,
        fps: Vec::new(),
        delay: None,
        target_bitrate: None,
        codec_format: None,
        chroma: None,
    }
}

#[test]
fn nothing_known_is_an_empty_object() {
    let state = HeadlessQualityStatus::new();
    assert_eq!(take_headless_quality_status(&state), "{}");
}

#[test]
fn reports_are_merged() {
    let mut state = HeadlessQualityStatus::new();
    push_headless_quality_status(
        &mut state,
        &QualityStatus {
            speed: Some("1 kB/s".to_owned()),
            fps: vec![(0, 30), (1, 15)],
            ..nothing()
        },
    );
    push_headless_quality_status(&mut state, &QualityStatus { delay: Some(20), ..nothing() });
    push_headless_quality_status(
        &mut state,
        &QualityStatus { codec_format: Some("VP9".to_owned()), fps: vec![(0, 25)], ..nothing() },
    );
    assert_eq!(
        take_headless_quality_status(&state),
        "{\"speed\":\"1 kB/s\",\"fps\":25,\"delay\":20,\"codec_format\":\"VP9\"}"
    );
    push_headless_quality_status(
        &mut state,
        &QualityStatus { target_bitrate: Some(-3), ..nothing() },
    );
    assert_eq!(
        take_headless_quality_status(&state),
        "{\"speed\":\"1 kB/s\",\"fps\":25,\"delay\":20,\"target_bitrate\":-3,\"codec_format\":\"VP9\"}"
    );
}
