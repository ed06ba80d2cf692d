use music_sorter::title_cleaner::clean_for_search;

#[test]
fn test_strip_original_mix_paren() {
    assert_eq!(clean_for_search("Eso Es (Original Mix)"), "Eso Es");
}

#[test]
fn test_strip_extended_mix_paren() {
    assert_eq!(clean_for_search("Track Name (Extended Mix)"), "Track Name");
}

#[test]
fn test_strip_out_now_brackets() {
    assert_eq!(clean_for_search("Loco [OUT NOW]"), "Loco");
}

#[test]
fn test_strip_free_download_paren() {
    assert_eq!(clean_for_search("Bidolibido (FREE DOWNLOAD)"), "Bidolibido");
}

#[test]
fn test_strip_soundcloud_id_suffix() {
    assert_eq!(clean_for_search("Wee Kid_260625501_soundcloud"), "Wee Kid");
}

#[test]
fn test_strip_combined_brackets_and_id() {
    assert_eq!(clean_for_search("Loco [OUT NOW]_290941905_soundcloud"), "Loco");
}

#[test]
fn test_preserves_remixer_name() {
    assert_eq!(clean_for_search("Hey Joe (Der Joe Remix)"), "Hey Joe (Der Joe Remix)");
}

#[test]
fn test_preserves_named_edit() {
    assert_eq!(
        clean_for_search("Hideway (Gary Dalhson Edit 2014)"),
        "Hideway (Gary Dalhson Edit 2014)"
    );
}

#[test]
fn test_strip_remastered_paren() {
    assert_eq!(clean_for_search("Song (Remastered)"), "Song");
}

#[test]
fn test_strip_does_not_eat_everything() {
    assert_eq!(clean_for_search("(Original Mix)"), "(Original Mix)");
}

#[test]
fn test_already_clean_unchanged() {
    assert_eq!(
        clean_for_search("Music Has the Right to Children"),
        "Music Has the Right to Children"
    );
}

#[test]
fn test_multiple_passes() {
    assert_eq!(clean_for_search("Track Name (Original Mix)_123456_soundcloud"), "Track Name");
}

#[test]
fn test_strip_trailing_domain() {
    assert_eq!(clean_for_search("Arabe music-team.net"), "Arabe");
    assert_eq!(clean_for_search("Some Track www.example.com"), "Some Track");
    assert_eq!(clean_for_search("Nom - dl.mp3blog.io"), "Nom");
}

#[test]
fn test_domain_strip_preserves_non_domain_dots() {
    assert_eq!(clean_for_search("R.E.M. Losing My Religion"), "R.E.M. Losing My Religion");
}

#[test]
fn clean_is_idempotent_on_examples() {
    for t in [
        "Eso Es (Original Mix)",
        "Loco [OUT NOW]_290941905_soundcloud",
        "(Original Mix)",
        "  Song (Remastered)  ",
        "Nom - dl.mp3blog.io",
    ] {
        let once = clean_for_search(t);
        assert_eq!(clean_for_search(&once), once);
    }
}

#[test]
fn clean_keeps_start_of_title() {
    let t = "  Track Name (Original Mix)_123456_soundcloud";
    let c = clean_for_search(t);
    assert!(t.trim().starts_with(&c));
    assert_eq!(clean_for_search("   "), "");
}

#[test]
fn clean_strips_provider_markers_and_numeric_ids() {
    assert_eq!(clean_for_search("Tune_youtube"), "Tune");
    assert_eq!(clean_for_search("Tune_bandcamp"), "Tune");
    assert_eq!(clean_for_search("Tune_spotify"), "Tune");
    assert_eq!(clean_for_search("Tune_12345"), "Tune");
    assert_eq!(clean_for_search("Tune_12a45"), "Tune_12a45");
    assert_eq!(clean_for_search("Tune (HQ) [Official Video]"), "Tune");
    assert_eq!(clean_for_search("Tune -_., "), "Tune");
}
