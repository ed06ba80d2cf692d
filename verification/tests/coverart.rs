use music_sorter::coverart::{choose_local_cover, extract_front_image_url, release_url, CoverArtImage, FolderEntry};

fn img(front: Option<bool>, url: &str) -> CoverArtImage {
    CoverArtImage { front, image: Some(url.to_string()) }
}

fn entry(path: &str, size: u64) -> FolderEntry {
    FolderEntry { path: path.to_string(), size }
}

#[test]
fn test_extract_front_image_url() {
    let images = Some(vec![
        img(Some(false), "https://coverartarchive.org/release/abc/back.jpg"),
        img(Some(true), "https://coverartarchive.org/release/abc/front.jpg"),
    ]);
    let url = extract_front_image_url(&images).unwrap();
    assert_eq!(url, "https://coverartarchive.org/release/abc/front.jpg");
}

#[test]
fn test_extract_front_image_url_fallback() {
    let images = Some(vec![
        img(Some(false), "https://coverartarchive.org/release/abc/first.jpg"),
        img(Some(false), "https://coverartarchive.org/release/abc/second.jpg"),
    ]);
    let url = extract_front_image_url(&images).unwrap();
    assert_eq!(url, "https://coverartarchive.org/release/abc/first.jpg");
}

#[test]
fn test_extract_front_image_url_empty() {
    let images: Option<Vec<CoverArtImage>> = Some(vec![]);
    assert!(extract_front_image_url(&images).is_none());
}

#[test]
fn test_find_local_cover_prefers_named() {
    let entries = vec![entry("/d/random.png", 11), entry("/d/cover.jpg", 9)];
    assert_eq!(choose_local_cover(&entries), Some(1));
}

#[test]
fn test_find_local_cover_largest_fallback() {
    let entries = vec![entry("/d/a.jpg", 4), entry("/d/b.jpg", 500)];
    assert_eq!(choose_local_cover(&entries), Some(1));
}

#[test]
fn test_find_local_cover_none_without_image() {
    let entries = vec![entry("/d/song.mp3", 5)];
    assert_eq!(choose_local_cover(&entries), None);
}

#[test]
fn local_cover_ignores_case_and_non_images() {
    let entries = vec![
        entry("/d/Folder.JPEG", 1),
        entry("/d/cover.txt", 100),
        entry("/d/big.webp", 1000),
    ];
    assert_eq!(choose_local_cover(&entries), Some(0));
    let entries = vec![entry("/d/x.png", 7), entry("/d/y.PNG", 7), entry("/d/z.gif", 9)];
    assert_eq!(choose_local_cover(&entries), Some(1));
}

#[test]
fn cover_art_archive_release_url() {
    assert_eq!(release_url("abc"), "https://coverartarchive.org/release/abc");
    assert!(extract_front_image_url(&None).is_none());
}
