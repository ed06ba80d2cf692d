use music_sorter::fingerprint::{
    acoustid_lookup_url, generate_or_cached, parse_acoustid_response, AcoustIdResult, FingerprintResult,
};

fn result(passes: bool, ids: Option<Vec<Option<&str>>>) -> AcoustIdResult {
    AcoustIdResult {
        passes,
        recordings: ids.map(|v| v.into_iter().map(|i| i.map(|s| s.to_string())).collect()),
    }
}

#[test]
fn test_parse_acoustid_response_with_match() {
    let results = Some(vec![result(true, Some(vec![Some("abc-123-def")]))]);
    assert_eq!(parse_acoustid_response(&results), Some("abc-123-def".into()));
}

#[test]
fn test_parse_acoustid_response_low_score() {
    let results = Some(vec![result(false, Some(vec![Some("abc-123")]))]);
    assert_eq!(parse_acoustid_response(&results), None);
}

#[test]
fn test_parse_acoustid_response_empty() {
    let results: Option<Vec<AcoustIdResult>> = Some(vec![]);
    assert_eq!(parse_acoustid_response(&results), None);
}

#[test]
fn test_parse_acoustid_response_no_recordings() {
    let results = Some(vec![result(true, None)]);
    assert_eq!(parse_acoustid_response(&results), None);
}

#[test]
fn acoustid_first_string_id_of_a_passing_result() {
    let results = Some(vec![
        result(false, Some(vec![Some("low")])),
        result(true, Some(vec![None, Some("second")])),
        result(true, Some(vec![Some("third")])),
    ]);
    assert_eq!(parse_acoustid_response(&results), Some("second".into()));
    assert_eq!(parse_acoustid_response(&None), None);
}

#[test]
fn cached_fingerprint_is_reused() {
    let fp = generate_or_cached(Some(("FPDATA".to_string(), 200))).unwrap();
    assert_eq!(fp.fingerprint, "FPDATA");
    assert_eq!(fp.duration, 200);
    assert!(generate_or_cached(None).is_none());
}

#[test]
fn acoustid_url() {
    let fp = FingerprintResult { duration: 245, fingerprint: "AQAD".to_string() };
    assert_eq!(
        acoustid_lookup_url("KEY", &fp),
        "https://api.acoustid.org/v2/lookup?client=KEY&duration=245&fingerprint=AQAD&meta=recordings"
    );
}
