use music_sorter::models::{Confidence, TrackInfo};

#[test]
fn test_merge_fills_missing_fields() {
    let mut base = TrackInfo {
        artist: Some("Boards of Canada".into()),
        title: Some("Music Is Math".into()),
        ..Default::default()
    };
    let other = TrackInfo {
        artist: Some("Autre artiste".into()),
        album: Some("Geogaddi".into()),
        year: Some(2002),
        track_number: Some(2),
        genre: Some("Electronic".into()),
        ..Default::default()
    };

    base.merge(&other);

    assert_eq!(base.artist, Some("Boards of Canada".into()));
    assert_eq!(base.album, Some("Geogaddi".into()));
    assert_eq!(base.title, Some("Music Is Math".into()));
    assert_eq!(base.year, Some(2002));
    assert_eq!(base.track_number, Some(2));
    assert_eq!(base.genre, Some("Electronic".into()));
}

#[test]
fn test_merge_does_not_overwrite_existing() {
    let mut base = TrackInfo { artist: Some("BoC".into()), year: Some(2002), ..Default::default() };
    let other = TrackInfo { artist: Some("Autre".into()), year: Some(1999), ..Default::default() };

    base.merge(&other);

    assert_eq!(base.artist, Some("BoC".into()));
    assert_eq!(base.year, Some(2002));
}

#[test]
fn test_has_minimum_for_search() {
    let empty = TrackInfo::default();
    assert!(!empty.has_minimum_for_search());

    let partial = TrackInfo { artist: Some("BoC".into()), ..Default::default() };
    assert!(!partial.has_minimum_for_search());

    let enough = TrackInfo {
        artist: Some("BoC".into()),
        title: Some("Music Is Math".into()),
        ..Default::default()
    };
    assert!(enough.has_minimum_for_search());
}

#[test]
fn test_has_full_metadata_requires_all_fields() {
    let mut info = TrackInfo {
        artist: Some("a".into()),
        album: Some("b".into()),
        title: Some("c".into()),
        year: Some(2020),
        track_number: Some(1),
        genre: Some("g".into()),
        cover_art: Some(vec![1]),
        ..Default::default()
    };
    assert!(info.has_full_metadata());
    info.cover_art = None;
    assert!(!info.has_full_metadata());
}

#[test]
fn test_has_minimum_for_organization() {
    let partial = TrackInfo {
        artist: Some("BoC".into()),
        title: Some("Music Is Math".into()),
        ..Default::default()
    };
    assert!(!partial.has_minimum_for_organization());

    let enough = TrackInfo {
        artist: Some("BoC".into()),
        album: Some("Geogaddi".into()),
        title: Some("Music Is Math".into()),
        ..Default::default()
    };
    assert!(enough.has_minimum_for_organization());
}

#[test]
fn merge_copies_cover_and_track_fields() {
    let mut base = TrackInfo::empty();
    let other = TrackInfo {
        total_tracks: Some(12),
        cover_art: Some(vec![0xFF, 0xD8, 1]),
        ..Default::default()
    };
    base.merge(&other);
    assert_eq!(base.total_tracks, Some(12));
    assert_eq!(base.cover_art, Some(vec![0xFF, 0xD8, 1]));
    let copy = base.duplicate();
    assert_eq!(copy, base);
    let mut again = base.clone();
    again.merge(&base);
    assert_eq!(again, base);
}

#[test]
fn confidence_levels_compare() {
    assert_ne!(Confidence::High, Confidence::Low);
    assert_eq!(Confidence::Medium, Confidence::Medium);
}
