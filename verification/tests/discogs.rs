use music_sorter::discogs::{
    authorization_header, parse_release_details, parse_search_response, search_cache_key, search_url,
    url_encode, DiscogsImage, DiscogsRelease, DiscogsSearchHit, DiscogsTrackEntry,
};

fn s(v: &str) -> Option<String> {
    Some(v.to_string())
}

fn hit(title: Option<&str>, year_text: Option<&str>, year_number: Option<u64>) -> DiscogsSearchHit {
    DiscogsSearchHit {
        title: title.map(|t| t.to_string()),
        year_text: year_text.map(|t| t.to_string()),
        year_number,
        genre: s("Electronic"),
        resource_url: s("https://api.discogs.com/releases/12345"),
    }
}

fn image(kind: &str, uri: &str) -> DiscogsImage {
    DiscogsImage { kind: s(kind), uri: s(uri) }
}

fn geogaddi(tracklist: Vec<DiscogsTrackEntry>, images: Vec<DiscogsImage>) -> DiscogsRelease {
    DiscogsRelease {
        artist: s("Boards of Canada"),
        title: s("Geogaddi"),
        year_number: Some(2002),
        year_text: None,
        genre: s("Electronic"),
        tracklist: Some(tracklist),
        images: Some(images),
    }
}

#[test]
fn test_parse_search_response() {
    let results = Some(vec![hit(Some("Boards of Canada - Geogaddi"), Some("2002"), None)]);
    let (info, resource_url) = parse_search_response(&results).unwrap();
    assert_eq!(info.artist, Some("Boards of Canada".into()));
    assert_eq!(info.album, Some("Geogaddi".into()));
    assert_eq!(info.year, Some(2002));
    assert_eq!(info.genre, Some("Electronic".into()));
    assert_eq!(resource_url, Some("https://api.discogs.com/releases/12345".into()));
}

#[test]
fn discogs_test_parse_search_response_empty() {
    let results: Option<Vec<DiscogsSearchHit>> = Some(vec![]);
    assert!(parse_search_response(&results).is_none());
}

#[test]
fn test_parse_release_details() {
    let release = geogaddi(
        vec![
            DiscogsTrackEntry { position: s("A1"), title: s("Ready Let's Go") },
            DiscogsTrackEntry { position: s("A2"), title: s("Music Is Math") },
        ],
        vec![
            image("secondary", "https://img.discogs.com/secondary.jpg"),
            image("primary", "https://img.discogs.com/primary.jpg"),
        ],
    );
    let details = parse_release_details(&release).unwrap();
    assert_eq!(details.artist, Some("Boards of Canada".into()));
    assert_eq!(details.album, Some("Geogaddi".into()));
    assert_eq!(details.year, Some(2002));
    assert_eq!(details.genre, Some("Electronic".into()));
    assert_eq!(details.tracks.len(), 2);
    assert_eq!(details.tracks[0].position, "A1");
    assert_eq!(details.tracks[1].title, "Music Is Math");
    assert_eq!(details.cover_url, Some("https://img.discogs.com/primary.jpg".into()));
}

#[test]
fn test_parse_release_details_fallback_image() {
    let release = geogaddi(vec![], vec![
        image("secondary", "https://img.discogs.com/first.jpg"),
        image("secondary", "https://img.discogs.com/second.jpg"),
    ]);
    let details = parse_release_details(&release).unwrap();
    assert_eq!(details.cover_url, Some("https://img.discogs.com/first.jpg".into()));
}

#[test]
fn search_title_without_separator_is_the_album() {
    let results = Some(vec![hit(Some("Geogaddi"), None, Some(2002))]);
    let (info, _) = parse_search_response(&results).unwrap();
    assert_eq!(info.artist, None);
    assert_eq!(info.album, Some("Geogaddi".into()));
    assert_eq!(info.year, Some(2002));
    let results = Some(vec![hit(Some("A - B - C"), Some("year?"), Some(1999))]);
    let (info, _) = parse_search_response(&results).unwrap();
    assert_eq!(info.artist, Some("A".into()));
    assert_eq!(info.album, Some("B - C".into()));
    assert_eq!(info.year, Some(1999));
    assert!(parse_search_response(&None).is_none());
}

#[test]
fn release_details_drop_untitled_tracks() {
    let mut release = geogaddi(
        vec![
            DiscogsTrackEntry { position: None, title: s("Intro") },
            DiscogsTrackEntry { position: s("A2"), title: None },
        ],
        vec![],
    );
    release.year_number = None;
    release.year_text = s("+1998");
    let details = parse_release_details(&release).unwrap();
    assert_eq!(details.tracks.len(), 1);
    assert_eq!(details.tracks[0].position, "");
    assert_eq!(details.year, Some(1998));
    assert_eq!(details.cover_url, None);
}

#[test]
fn token_stays_out_of_the_search_url() {
    assert_eq!(url_encode("Drum & Bass?"), "Drum+%26+Bass%3F");
    let url = search_url("Boards of Canada", "Geogaddi");
    assert_eq!(
        url,
        "https://api.discogs.com/database/search?artist=Boards+of+Canada&release_title=Geogaddi&type=release&per_page=5"
    );
    assert!(!url.contains("token"));
    assert_eq!(authorization_header("SECRET"), "Discogs token=SECRET");
    assert_eq!(search_cache_key("Boards of Canada", "Geogaddi"), "boards of canada|geogaddi");
}
