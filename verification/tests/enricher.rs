use music_sorter::enricher::{compute_confidence, override_from_db, EnrichAction, EnrichEvent, EnrichRun};
use music_sorter::fingerprint::FingerprintResult;
use music_sorter::models::{Confidence, TrackInfo};

#[test]
fn test_confidence_high_when_api_matched() {
    assert_eq!(compute_confidence(false, true), Confidence::High);
    assert_eq!(compute_confidence(true, true), Confidence::High);
}

#[test]
fn test_confidence_medium_when_embedded_tags_no_api() {
    assert_eq!(compute_confidence(true, false), Confidence::Medium);
}

#[test]
fn test_confidence_low_when_heuristic_only() {
    assert_eq!(compute_confidence(false, false), Confidence::Low);
}

#[test]
fn test_override_from_db_sets_db_artist_and_fills_missing() {
    let mut info = TrackInfo::default();
    let db_info = TrackInfo {
        artist: Some("Boards Of Canada".into()),
        album: Some("Geogaddi".into()),
        ..Default::default()
    };
    override_from_db(&mut info, &db_info);
    assert_eq!(info.artist, Some("Boards Of Canada".into()));
    assert_eq!(info.album, Some("Geogaddi".into()));
}

#[test]
fn override_keeps_the_album_of_the_file() {
    let mut info = TrackInfo { artist: Some("boc".into()), album: Some("Geogaddi".into()), ..Default::default() };
    let db = TrackInfo { artist: Some("Boards of Canada".into()), album: Some("Warp20".into()), year: Some(2002), ..Default::default() };
    override_from_db(&mut info, &db);
    assert_eq!(info.artist, Some("Boards of Canada".into()));
    assert_eq!(info.album, Some("Geogaddi".into()));
    assert_eq!(info.year, Some(2002));
}

#[test]
fn full_tags_finish_at_once_with_medium_confidence() {
    let tags = TrackInfo {
        artist: Some("A".into()),
        album: Some("B".into()),
        title: Some("C".into()),
        year: Some(2000),
        track_number: Some(1),
        cover_art: Some(vec![1, 2]),
        ..Default::default()
    };
    let (_, action) = EnrichRun::start(tags, "/x/A - C.mp3", true, true);
    match action {
        EnrichAction::Finish { info, confidence } => {
            assert_eq!(confidence, Confidence::Medium);
            assert_eq!(info.title, Some("C".into()));
        },
        other => panic!("unexpected {:?}", other),
    }
}

#[test]
fn heuristics_then_text_search_then_cover() {
    let (mut run, action) = EnrichRun::start(TrackInfo::default(), "/in/Artist - 2001 - Record/01 - Artist - Song (Original Mix).mp3", false, false);
    match action {
        EnrichAction::SearchRecording { artist, title, existing_album } => {
            assert_eq!(artist, "Artist");
            assert_eq!(title, "Song");
            assert_eq!(existing_album, Some("Record".into()));
        },
        other => panic!("unexpected {:?}", other),
    }
    let mb = TrackInfo { artist: Some("The Artist".into()), album: Some("Other".into()), track_number: Some(1), ..Default::default() };
    let next = run.step(EnrichEvent::TextSearch(Some((mb, "rel-1".into()))));
    match next {
        EnrichAction::FetchCover { release_id } => assert_eq!(release_id, "rel-1"),
        other => panic!("unexpected {:?}", other),
    }
    let done = run.step(EnrichEvent::Cover(Some(vec![9])));
    match done {
        EnrichAction::Finish { info, confidence } => {
            assert_eq!(confidence, Confidence::High);
            assert_eq!(info.artist, Some("The Artist".into()));
            assert_eq!(info.album, Some("Record".into()));
            assert_eq!(info.year, Some(2001));
            assert_eq!(info.cover_art, Some(vec![9]));
        },
        other => panic!("unexpected {:?}", other),
    }
}

#[test]
fn fingerprint_path_and_failures() {
    let (mut run, action) = EnrichRun::start(TrackInfo::default(), "/untitled.mp3", true, false);
    assert!(matches!(action, EnrichAction::GenerateFingerprint));
    let fp = FingerprintResult { duration: 10, fingerprint: "F".into() };
    assert!(matches!(run.step(EnrichEvent::Fingerprint(Some(fp))), EnrichAction::LookupAcoustId { .. }));
    match run.step(EnrichEvent::AcoustId(None)) {
        EnrichAction::Finish { info, confidence } => {
            assert_eq!(confidence, Confidence::Low);
            assert_eq!(info.title, Some("untitled".into()));
        },
        other => panic!("unexpected {:?}", other),
    }
}
