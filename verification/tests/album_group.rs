use music_sorter::album_group::group_by_parent;

fn paths(v: &[&str]) -> Vec<String> {
    v.iter().map(|s| s.to_string()).collect()
}

fn group<'a>(groups: &'a [(String, Vec<String>)], key: &str) -> &'a Vec<String> {
    &groups.iter().find(|(k, _)| k == key).unwrap().1
}

#[test]
fn test_group_by_parent_dir() {
    let files = paths(&["/a/album1/1.mp3", "/a/album1/2.mp3", "/a/album2/1.mp3"]);
    let groups = group_by_parent(&files);
    assert_eq!(groups.len(), 2);
    assert_eq!(group(&groups, "/a/album1").len(), 2);
    assert_eq!(group(&groups, "/a/album2").len(), 1);
}

#[test]
fn test_group_by_parent_empty() {
    let files: Vec<String> = vec![];
    let groups = group_by_parent(&files);
    assert!(groups.is_empty());
}

#[test]
fn test_group_by_parent_no_parent_skipped() {
    let files = paths(&["/"]);
    let groups = group_by_parent(&files);
    assert!(groups.is_empty() || groups.len() <= 1);
}

#[test]
fn group_by_parent_keeps_first_appearance_order() {
    let files = paths(&["/m/b/1.mp3", "/m/a/1.mp3", "/m/b/2.mp3"]);
    let groups = group_by_parent(&files);
    assert_eq!(groups.len(), 2);
    assert_eq!(groups[0].0, "/m/b");
    assert_eq!(groups[0].1, vec!["/m/b/1.mp3".to_string(), "/m/b/2.mp3".to_string()]);
    assert_eq!(groups[1].0, "/m/a");
}
