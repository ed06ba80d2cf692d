use music_sorter::models::TrackInfo;
use music_sorter::tags::{
    artist_title_from_stem, cover_mime, folder_metadata_from_name, parse_artist_title_from_filename,
    parse_folder_metadata, plan_tag_update, CoverMime, TagPresence,
};

#[test]
fn test_parse_filename_artist_title_split() {
    let (a, t) = parse_artist_title_from_filename("Slope - Komputa Groove.mp3");
    assert_eq!(a, Some("Slope".into()));
    assert_eq!(t, Some("Komputa Groove".into()));
}

#[test]
fn test_parse_filename_with_track_number_prefix() {
    let (a, t) = parse_artist_title_from_filename("00- La femme - Sphynx.mp3");
    assert_eq!(a, Some("La femme".into()));
    assert_eq!(t, Some("Sphynx".into()));
}

#[test]
fn test_parse_filename_track_only_after_strip() {
    let (a, t) = parse_artist_title_from_filename("01 - Sphynx.mp3");
    assert_eq!(a, None);
    assert_eq!(t, Some("Sphynx".into()));
}

#[test]
fn test_parse_filename_keeps_parentheses_in_title() {
    let (a, t) = parse_artist_title_from_filename("Jimi Hendrix - Hey Joe (Der Joe Remix).mp3");
    assert_eq!(a, Some("Jimi Hendrix".into()));
    assert_eq!(t, Some("Hey Joe (Der Joe Remix)".into()));
}

#[test]
fn test_parse_filename_splits_on_first_separator() {
    let (a, t) = parse_artist_title_from_filename(
        "Stabfinger & K.D.S - Double Trouble - (Original Mix).mp3",
    );
    assert_eq!(a, Some("Stabfinger & K.D.S".into()));
    assert_eq!(t, Some("Double Trouble - (Original Mix)".into()));
}

#[test]
fn test_parse_filename_no_separator_returns_title_only() {
    let (a, t) = parse_artist_title_from_filename("Agent51 the return of the secret disco agent.mp3");
    assert_eq!(a, None);
    assert_eq!(t, Some("Agent51 the return of the secret disco agent".into()));
}

#[test]
fn test_parse_filename_strips_three_digit_prefix() {
    let (a, t) = parse_artist_title_from_filename("100 - Track Title.mp3");
    assert_eq!(a, None);
    assert_eq!(t, Some("Track Title".into()));
}

#[test]
fn stem_without_usable_prefix_is_kept() {
    assert_eq!(artist_title_from_stem("2001"), (None, Some("2001".to_string())));
    assert_eq!(artist_title_from_stem("1234 - X"), (Some("1234".to_string()), Some("X".to_string())));
    assert_eq!(artist_title_from_stem("   "), (None, None));
    assert_eq!(artist_title_from_stem("A - "), (None, Some("A -".to_string())));
}

#[test]
fn test_parse_folder_artist_year_album() {
    let (a, y, al) = parse_folder_metadata("/music/Boards of Canada - 2002 - Geogaddi/01 track.mp3");
    assert_eq!(a, Some("Boards of Canada".into()));
    assert_eq!(y, Some(2002));
    assert_eq!(al, Some("Geogaddi".into()));
}

#[test]
fn test_parse_folder_artist_album_no_year() {
    let (a, y, al) = parse_folder_metadata("/music/Boards of Canada - Geogaddi/01 track.mp3");
    assert_eq!(a, Some("Boards of Canada".into()));
    assert_eq!(y, None);
    assert_eq!(al, Some("Geogaddi".into()));
}

#[test]
fn test_parse_folder_no_separator_returns_none() {
    let (a, y, al) = parse_folder_metadata("/music/JustAnAlbumName/track.mp3");
    assert_eq!(a, None);
    assert_eq!(y, None);
    assert_eq!(al, None);
}

#[test]
fn test_parse_folder_skips_underscore_prefix() {
    let (a, _, al) = parse_folder_metadata("/music/_unsorted/Foo - Bar/track.mp3");
    assert_eq!(a, Some("Foo".into()));
    assert_eq!(al, Some("Bar".into()));
}

#[test]
fn test_parse_folder_skips_when_parent_starts_with_underscore() {
    let (a, y, al) = parse_folder_metadata("/music/_unsorted/track.mp3");
    assert_eq!(a, None);
    assert_eq!(y, None);
    assert_eq!(al, None);
}

#[test]
fn test_parse_folder_album_with_dashes() {
    let (a, _, al) = parse_folder_metadata("/music/Artist - Album - With - Dashes/track.mp3");
    assert_eq!(a, Some("Artist".into()));
    assert_eq!(al, Some("Album - With - Dashes".into()));
}

#[test]
fn test_parse_folder_year_out_of_range_falls_back() {
    let (a, y, al) = parse_folder_metadata("/music/Artist - 999 - Album/track.mp3");
    assert_eq!(a, Some("Artist".into()));
    assert_eq!(y, None);
    assert_eq!(al, Some("999 - Album".into()));
}

#[test]
fn folder_name_edge_cases() {
    assert_eq!(folder_metadata_from_name(".hidden - x"), (None, None, None));
    assert_eq!(
        folder_metadata_from_name("A - +2000 - B"),
        (Some("A".to_string()), Some(2000), Some("B".to_string()))
    );
    assert_eq!(
        folder_metadata_from_name("A - 99999999999 - B"),
        (Some("A".to_string()), None, Some("99999999999 - B".to_string()))
    );
    assert_eq!(parse_folder_metadata("track.mp3"), (None, None, None));
}

#[test]
fn tag_update_fills_only_missing_fields() {
    let present = TagPresence {
        artist: true,
        album: false,
        title: false,
        year: true,
        track: false,
        track_total: false,
        genre: false,
        pictures: true,
    };
    let info = TrackInfo {
        artist: Some("A".into()),
        album: Some("B".into()),
        year: Some(2000),
        track_number: Some(3),
        cover_art: Some(vec![1, 2]),
        ..Default::default()
    };
    let plan = plan_tag_update(&present, &info, false);
    assert_eq!(plan.artist, None);
    assert_eq!(plan.album, Some("B".into()));
    assert_eq!(plan.year, None);
    assert_eq!(plan.track_number, Some(3));
    assert_eq!(plan.title, None);
    assert_eq!(plan.cover_art, None);
    let plan = plan_tag_update(&present, &info, true);
    assert_eq!(plan.artist, Some("A".into()));
    assert_eq!(plan.year, Some(2000));
    assert_eq!(plan.cover_art, None);
}

#[test]
fn cover_mime_detects_jpeg_marker() {
    assert_eq!(cover_mime(&[0xFF, 0xD8, 0x00]), CoverMime::Jpeg);
    assert_eq!(cover_mime(&[0x89, 0x50]), CoverMime::Png);
    assert_eq!(cover_mime(&[0xFF]), CoverMime::Png);
}
