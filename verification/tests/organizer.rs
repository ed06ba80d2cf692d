use music_sorter::models::TrackInfo;
use music_sorter::organizer::{
    build_destination_path, error_destination, plan_transfer, redirect_to_review,
    render_relative_path, resolve_existing_folder, sanitize_filename, truncate_component,
    CopyResult, TransferPlan, DEFAULT_TEMPLATE, MAX_COMPONENT_BYTES,
};

fn no_folders() -> Vec<String> {
    Vec::new()
}

#[test]
fn test_build_destination_full_info() {
    let info = TrackInfo {
        artist: Some("Boards of Canada".into()),
        album: Some("Geogaddi".into()),
        title: Some("Music Is Math".into()),
        year: Some(2002),
        track_number: Some(2),
        ..Default::default()
    };
    let result = build_destination_path("/home/user/Music", &info, "song.flac", "/home/user/Downloads", &no_folders());
    assert_eq!(
        result,
        "/home/user/Music/Boards of Canada - 2002 - Geogaddi/02 - Music Is Math.flac"
    );
}

#[test]
fn test_build_destination_no_year() {
    let info = TrackInfo {
        artist: Some("BoC".into()),
        album: Some("Geogaddi".into()),
        title: Some("Track".into()),
        year: None,
        track_number: None,
        ..Default::default()
    };
    let result = build_destination_path("/music", &info, "file.mp3", "/downloads", &no_folders());
    assert_eq!(result, "/music/BoC - Geogaddi/Track.mp3");
}

#[test]
fn test_build_destination_no_track_number() {
    let info = TrackInfo {
        artist: Some("Artist".into()),
        album: Some("Album".into()),
        title: Some("Title".into()),
        year: Some(2020),
        track_number: None,
        ..Default::default()
    };
    let result = build_destination_path("/music", &info, "track.ogg", "/downloads", &no_folders());
    assert_eq!(result, "/music/Artist - 2020 - Album/Title.ogg");
}

#[test]
fn test_build_destination_unsorted_preserves_relative_structure() {
    let info = TrackInfo::default();
    let result = build_destination_path(
        "/music",
        &info,
        "/downloads/best of 2024/disc 1/unknown.mp3",
        "/downloads",
        &no_folders(),
    );
    assert_eq!(result, "/music/_unsorted/best of 2024/disc 1/unknown.mp3");
}

#[test]
fn test_build_destination_unsorted_at_source_root() {
    let info = TrackInfo::default();
    let result = build_destination_path("/music", &info, "/downloads/unknown.mp3", "/downloads", &no_folders());
    assert_eq!(result, "/music/_unsorted/unknown.mp3");
}

#[test]
fn test_build_destination_unsorted_falls_back_when_not_under_source() {
    let info = TrackInfo::default();
    let result = build_destination_path("/music", &info, "/elsewhere/unknown.mp3", "/downloads", &no_folders());
    assert_eq!(result, "/music/_unsorted/unknown.mp3");
}

#[test]
fn test_build_destination_reuses_existing_folder_case_insensitive() {
    let existing = vec!["other".to_string(), "Boards Of Canada - 2002 - Geogaddi".to_string()];
    let info = TrackInfo {
        artist: Some("Boards of Canada".into()),
        album: Some("Geogaddi".into()),
        title: Some("Music Is Math".into()),
        year: Some(2002),
        track_number: Some(2),
        ..Default::default()
    };
    let result = build_destination_path("/tmp/lib", &info, "song.flac", "/downloads", &existing);
    assert_eq!(result, "/tmp/lib/Boards Of Canada - 2002 - Geogaddi/02 - Music Is Math.flac");
}

#[test]
fn test_truncate_component_ascii() {
    let long = "a".repeat(300);
    let t = truncate_component(&long, 200);
    assert_eq!(t.len(), 200);
}

#[test]
fn test_truncate_component_utf8_boundary() {
    let s = "é".repeat(150);
    let t = truncate_component(&s, 201);
    assert!(t.len() <= 201, "len={}", t.len());
    assert!(t.chars().all(|c| c == 'é'), "caractère coupé");
}

#[test]
fn test_truncate_component_short_unchanged() {
    assert_eq!(truncate_component("short", 200), "short");
}

#[test]
fn truncate_component_trims_the_cut_end() {
    assert_eq!(truncate_component("abc def", 4), "abc");
    assert_eq!(truncate_component("🎵🎵", 5), "🎵");
    assert_eq!(truncate_component("🎵", 3), "");
}

#[test]
fn test_render_truncates_overlong_filename() {
    let info = TrackInfo {
        artist: Some("Artist".into()),
        album: Some("Album".into()),
        year: Some(2020),
        track_number: Some(1),
        title: Some("T".repeat(400)),
        ..Default::default()
    };
    let rel = render_relative_path(DEFAULT_TEMPLATE, &info, "mp3");
    let fname = rel.rsplit('/').next().unwrap();
    assert!(fname.len() <= MAX_COMPONENT_BYTES + 5, "nom trop long : {}", fname.len());
    assert!(fname.ends_with(".mp3"));
}

#[test]
fn test_render_empty_last_segment_uses_fallback_name() {
    let info = TrackInfo {
        artist: Some("Artist".into()),
        album: Some("Album".into()),
        year: Some(2020),
        ..Default::default()
    };
    let rel = render_relative_path(DEFAULT_TEMPLATE, &info, "mp3");
    assert_eq!(rel.rsplit('/').next().unwrap(), "track.mp3");
}

#[test]
fn render_empty_directory_segment_uses_unknown() {
    let info = TrackInfo { title: Some("T".into()), ..Default::default() };
    assert_eq!(render_relative_path("{genre}/{title}", &info, "mp3"), "unknown/T.mp3");
    assert_eq!(render_relative_path("{genre}", &info, ""), "unknown");
}

#[test]
fn render_keeps_unclosed_brace_and_unknown_tokens() {
    let info = TrackInfo { artist: Some("A".into()), ..Default::default() };
    assert_eq!(render_relative_path("{artist} {oops", &info, ""), "A {oops");
    assert_eq!(render_relative_path("x{nope}y", &info, ""), "xy");
    let info = TrackInfo { track_number: Some(123), genre: Some("G".into()), ..Default::default() };
    assert_eq!(render_relative_path("{genre}/{track}", &info, "ogg"), "G/123.ogg");
}

#[test]
fn test_error_destination_preserves_relative_structure() {
    let dest = error_destination("/music", "/src/badfolder/corrupt.mp3", "/src");
    assert_eq!(dest, "/music/_errors/badfolder/corrupt.mp3");
}

#[test]
fn test_error_destination_falls_back_to_filename() {
    let dest = error_destination("/music", "/other/x.mp3", "/src");
    assert_eq!(dest, "/music/_errors/x.mp3");
}

#[test]
fn test_redirect_to_review_rebases_under_review() {
    let review = redirect_to_review("/music", "/music/Artist - 2020 - Album/01 - Title.mp3");
    assert_eq!(review, "/music/_review/Artist - 2020 - Album/01 - Title.mp3");
}

#[test]
fn test_redirect_to_review_noop_when_not_under_target() {
    assert_eq!(redirect_to_review("/music", "/elsewhere/x.mp3"), "/elsewhere/x.mp3");
}

#[test]
fn test_render_template_full() {
    let info = TrackInfo {
        artist: Some("Boards of Canada".into()),
        album: Some("Geogaddi".into()),
        title: Some("Music Is Math".into()),
        year: Some(2002),
        track_number: Some(2),
        ..Default::default()
    };
    let rel = render_relative_path(DEFAULT_TEMPLATE, &info, "flac");
    assert_eq!(rel, "Boards of Canada - 2002 - Geogaddi/02 - Music Is Math.flac");
}

#[test]
fn test_render_template_no_year_collapses_separator() {
    let info = TrackInfo {
        artist: Some("BoC".into()),
        album: Some("Geogaddi".into()),
        title: Some("Track".into()),
        year: None,
        track_number: None,
        ..Default::default()
    };
    let rel = render_relative_path(DEFAULT_TEMPLATE, &info, "mp3");
    assert_eq!(rel, "BoC - Geogaddi/Track.mp3");
}

#[test]
fn test_render_template_no_track_collapses_separator() {
    let info = TrackInfo {
        artist: Some("Artist".into()),
        album: Some("Album".into()),
        title: Some("Title".into()),
        year: Some(2020),
        track_number: None,
        ..Default::default()
    };
    let rel = render_relative_path(DEFAULT_TEMPLATE, &info, "ogg");
    assert_eq!(rel, "Artist - 2020 - Album/Title.ogg");
}

#[test]
fn test_render_template_custom_nested_artist_folder() {
    let info = TrackInfo {
        artist: Some("Aphex Twin".into()),
        album: Some("Drukqs".into()),
        title: Some("Avril 14th".into()),
        year: Some(2001),
        track_number: Some(8),
        ..Default::default()
    };
    let rel = render_relative_path("{artist}/{year} - {album}/{track} - {title}", &info, "flac");
    assert_eq!(rel, "Aphex Twin/2001 - Drukqs/08 - Avril 14th.flac");
}

#[test]
fn test_render_template_sanitizes_each_component() {
    let info = TrackInfo {
        artist: Some("AC/DC".into()),
        album: Some("Back: In Black".into()),
        title: Some("T*N*T".into()),
        year: Some(1980),
        track_number: Some(1),
        ..Default::default()
    };
    let rel = render_relative_path(DEFAULT_TEMPLATE, &info, "mp3");
    assert_eq!(rel, "AC_DC - 1980 - Back_ In Black/01 - T_N_T.mp3");
}

#[test]
fn test_sanitize_filename() {
    assert_eq!(sanitize_filename("AC/DC"), "AC_DC");
    assert_eq!(sanitize_filename("a:b*c?d"), "a_b_c_d");
    assert_eq!(sanitize_filename("normal name"), "normal name");
}

#[test]
fn sanitize_replaces_every_invalid_character() {
    assert_eq!(sanitize_filename(" <a>|\"b\\\0 "), "_a___b__");
}

#[test]
fn resolve_existing_folder_prefers_first_case_match() {
    let names = vec!["ABBA".to_string(), "abba".to_string()];
    assert_eq!(resolve_existing_folder(&names, "Abba"), "ABBA");
    assert_eq!(resolve_existing_folder(&names, "Queen"), "Queen");
}

#[test]
fn transfer_plan_decisions() {
    // Same file: never touched, reported skipped with the destination bitrate.
    let p = plan_transfer(true, true, true, Some(320), Some(128));
    assert_eq!(p, TransferPlan::LeaveAsIs { result: CopyResult::Skipped { existing_bitrate: 128 } });
    // Free destination.
    assert_eq!(plan_transfer(false, false, false, None, None), TransferPlan::Place);
    assert_eq!(TransferPlan::Place.result(), CopyResult::Copied);
    // Better source replaces.
    let p = plan_transfer(false, false, true, Some(320), Some(128));
    assert_eq!(p, TransferPlan::Replace { bitrate: 320 });
    assert_eq!(p.result(), CopyResult::Replaced { bitrate: 320 });
    // Equal bitrate: copy keeps both, move drops the source.
    assert_eq!(
        plan_transfer(false, false, true, Some(128), Some(128)),
        TransferPlan::LeaveAsIs { result: CopyResult::Skipped { existing_bitrate: 128 } }
    );
    let p = plan_transfer(true, false, true, None, Some(128));
    assert_eq!(p, TransferPlan::DropSource { existing_bitrate: 128 });
    assert_eq!(p.result(), CopyResult::Skipped { existing_bitrate: 128 });
}
