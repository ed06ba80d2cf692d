use music_sorter::musicbrainz::{
    extract_release_id, lookup_url, parse_recording_response, parse_search_response,
    recording_lookup_outcome, checked_recording_lookup, checked_text_search, release_scorable, releases_scorable, score_release, search_url, text_search_outcome, url_encode, MbRecording,
    MbRelease,
};

fn s(v: &str) -> Option<String> {
    Some(v.to_string())
}

fn release(title: &str, id: &str, date: Option<&str>, primary: Option<&str>, secondary: &[&str],
    status: Option<&str>, offset: Option<u64>, count: Option<u64>) -> MbRelease {
    MbRelease {
        id: s(id),
        title: s(title),
        date: date.map(|d| d.to_string()),
        primary_type: primary.map(|p| p.to_string()),
        secondary_types: if secondary.is_empty() {
            None
        } else {
            Some(secondary.iter().map(|t| s(t)).collect())
        },
        status: status.map(|x| x.to_string()),
        track_offset: offset,
        track_count: count,
    }
}

fn recording(title: &str, artist: &str, genre: Option<&str>, releases: Vec<MbRelease>) -> MbRecording {
    MbRecording {
        title: s(title),
        artist: s(artist),
        genre: genre.map(|g| g.to_string()),
        score: None,
        releases: Some(releases),
    }
}

#[test]
fn test_parse_recording_response() {
    let rec = recording("Music Is Math", "Boards of Canada", Some("electronic"), vec![release(
        "Geogaddi", "release-123", Some("2002-02-04"), Some("Album"), &[], Some("Official"), Some(1), Some(23),
    )]);
    let info = parse_recording_response(&rec, None).unwrap();
    assert_eq!(info.title, Some("Music Is Math".into()));
    assert_eq!(info.artist, Some("Boards of Canada".into()));
    assert_eq!(info.album, Some("Geogaddi".into()));
    assert_eq!(info.year, Some(2002));
    assert_eq!(info.track_number, Some(2));
    assert_eq!(info.total_tracks, Some(23));
    assert_eq!(info.genre, Some("electronic".into()));

    let release_id = extract_release_id(&rec);
    assert_eq!(release_id, Some("release-123".into()));
}

#[test]
fn test_pick_best_release_prefers_album_over_compilation() {
    let rec = recording("Roygbiv", "Boards of Canada", Some("electronic"), vec![
        release("Trip-Hop Classics", "comp-1", Some("2010-01-01"), Some("Album"), &["Compilation"],
            Some("Official"), Some(5), Some(40)),
        release("Music Has the Right to Children", "album-1", Some("1998-04-20"), Some("Album"), &[],
            Some("Official"), Some(9), Some(17)),
    ]);
    let info = parse_recording_response(&rec, None).unwrap();
    assert_eq!(info.album, Some("Music Has the Right to Children".into()));
    assert_eq!(info.track_number, Some(10));
}

#[test]
fn test_pick_best_release_prefers_existing_album() {
    let rec = recording("Roygbiv", "Boards of Canada", None, vec![
        release("Music Has the Right to Children", "album-1", Some("1998-04-20"), Some("Album"), &[],
            Some("Official"), Some(9), Some(17)),
        release("Warp20 (Chosen)", "comp-2", Some("2009-01-01"), Some("Album"), &["Compilation"],
            Some("Official"), Some(2), Some(20)),
    ]);
    let info = parse_recording_response(&rec, None).unwrap();
    assert_eq!(info.album, Some("Music Has the Right to Children".into()));

    let info2 = parse_recording_response(&rec, Some("Warp20 (Chosen)")).unwrap();
    assert_eq!(info2.album, Some("Warp20 (Chosen)".into()));
}

fn search_hit(score: Option<u64>, releases: Vec<MbRelease>) -> MbRecording {
    MbRecording {
        title: s("Roygbiv"),
        artist: s("Boards of Canada"),
        genre: None,
        score,
        releases: Some(releases),
    }
}

#[test]
fn test_parse_search_response_high_score() {
    let recs = Some(vec![search_hit(Some(95), vec![release(
        "Music Has the Right to Children", "rel-456", Some("1998-04-20"), Some("Album"), &[],
        Some("Official"), None, Some(18),
    )])]);
    let (info, release_id) = parse_search_response(&recs, None).unwrap();
    assert_eq!(info.title, Some("Roygbiv".into()));
    assert_eq!(info.artist, Some("Boards of Canada".into()));
    assert_eq!(release_id, "rel-456");
}

#[test]
fn test_parse_search_response_low_score() {
    let recs = Some(vec![MbRecording {
        title: s("Something"),
        artist: s("Unknown"),
        genre: None,
        score: Some(30),
        releases: Some(vec![]),
    }]);
    assert!(parse_search_response(&recs, None).is_none());
}

#[test]
fn musicbrainz_test_parse_search_response_empty() {
    let recs: Option<Vec<MbRecording>> = Some(vec![]);
    assert!(parse_search_response(&recs, None).is_none());
}

#[test]
fn test_extract_release_id() {
    let rec = MbRecording {
        title: None,
        artist: None,
        genre: None,
        score: None,
        releases: Some(vec![MbRelease {
            id: s("abc-123"),
            title: None,
            date: None,
            primary_type: s("Album"),
            secondary_types: None,
            status: s("Official"),
            track_offset: None,
            track_count: None,
        }]),
    };
    assert_eq!(extract_release_id(&rec), Some("abc-123".into()));
}

#[test]
fn score_release_exact_values() {
    let album = release("Geogaddi", "a", Some("2002"), Some("Album"), &[], Some("Official"), None, None);
    assert_eq!(score_release(&album, None), 10 + 3 + 1);
    assert_eq!(score_release(&album, Some("GEOGADDI")), 100 + 10 + 3 + 1);
    let live = release("Live", "b", None, Some("Broadcast"), &["Live", "Remix", "DJ-mix"], None, None, None);
    assert_eq!(score_release(&live, None), -20 - 10 - 15 - 20);
    let bare = MbRelease {
        id: None, title: None, date: None, primary_type: None, secondary_types: None, status: None,
        track_offset: None, track_count: None,
    };
    assert_eq!(score_release(&bare, Some("x")), 0);
}

#[test]
fn later_release_wins_a_tie() {
    let rec = recording("t", "a", None, vec![
        release("First", "r1", None, Some("EP"), &[], None, None, None),
        release("Second", "r2", None, Some("EP"), &[], None, None, None),
    ]);
    assert_eq!(extract_release_id(&rec), Some("r2".into()));
}

#[test]
fn year_needs_four_digits() {
    let rec = recording("t", "a", None, vec![release("A", "r", Some("199"), None, &[], None, None, None)]);
    assert_eq!(parse_recording_response(&rec, None).unwrap().year, None);
    let rec = recording("t", "a", None, vec![release("A", "r", Some("19x8-01"), None, &[], None, None, None)]);
    assert_eq!(parse_recording_response(&rec, None).unwrap().year, None);
}

#[test]
fn no_releases_gives_nothing() {
    let rec = recording("t", "a", None, vec![]);
    assert!(parse_recording_response(&rec, None).is_none());
    assert_eq!(extract_release_id(&rec), None);
}

#[test]
fn lookup_outcome_requires_success() {
    let rec = recording("t", "a", None, vec![release("A", "r", None, None, &[], None, None, None)]);
    assert!(recording_lookup_outcome(false, &rec, None).is_none());
    let (info, id) = recording_lookup_outcome(true, &rec, None).unwrap();
    assert_eq!(info.album, Some("A".into()));
    assert_eq!(id, Some("r".into()));
    let recs = Some(vec![search_hit(Some(80), vec![release("A", "r", None, None, &[], None, None, None)])]);
    assert!(text_search_outcome(false, &recs, None).is_none());
    assert_eq!(text_search_outcome(true, &recs, None).unwrap().1, "r");
}

#[test]
fn query_urls() {
    assert_eq!(url_encode("artist:\"A B\""), "artist%3A%22A%20B%22");
    assert_eq!(
        search_url("Boards of Canada", "Roygbiv"),
        "https://musicbrainz.org/ws/2/recording/?query=artist%3A%22Boards%20of%20Canada%22%20AND%20recording%3A%22Roygbiv%22&fmt=json&limit=5"
    );
    assert_eq!(
        lookup_url("abc"),
        "https://musicbrainz.org/ws/2/recording/abc?inc=releases+artists+genres+release-groups&fmt=json"
    );
}

#[test]
fn ordinary_releases_are_scorable() {
    let r = release("A", "r", None, Some("Album"), &["Live", "Remix"], None, None, None);
    assert!(release_scorable(&r, None));
    assert!(releases_scorable(&vec![r], Some("A")));
}

#[test]
fn checked_outcomes_follow_the_status() {
    let rec = recording("t", "a", None, vec![release("A", "r", None, None, &[], None, None, None)]);
    assert!(checked_recording_lookup(false, &rec, None).is_none());
    assert_eq!(checked_recording_lookup(true, &rec, None).unwrap().1, Some("r".into()));
    let recs = Some(vec![search_hit(Some(90), vec![release("A", "r", None, None, &[], None, None, None)])]);
    assert!(checked_text_search(false, &recs, None).is_none());
    assert_eq!(checked_text_search(true, &recs, None).unwrap().1, "r");
}
