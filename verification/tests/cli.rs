use music_sorter::cli::Args;
use music_sorter::config::Config;

fn args(source: Option<&str>, target: Option<&str>, workers: Option<usize>, move_files: bool) -> Args {
    Args {
        source: source.map(|s| s.to_string()),
        target: target.map(|s| s.to_string()),
        workers,
        move_files,
        list_processed: false,
        list_unsorted: false,
        dry_run: false,
        resume: false,
        retry_unsorted: false,
        fix_tags: false,
        rollback: false,
        apply: false,
    }
}

#[test]
fn test_resolve_cli_overrides_config() {
    let a = args(Some("/tmp/src"), Some("/tmp/dst"), Some(4), true);
    let config = Config {
        source: Some("~/Downloads".into()),
        target: Some("~/Musique".into()),
        workers: Some(2),
        move_files: Some(false),
        ..Default::default()
    };
    let resolved = a.resolve(&config);
    assert_eq!(resolved.source, "/tmp/src");
    assert_eq!(resolved.target, "/tmp/dst");
    assert_eq!(resolved.workers, 4);
    assert!(resolved.do_move);
}

#[test]
fn test_resolve_falls_back_to_config() {
    let a = args(None, None, None, false);
    let config = Config {
        source: Some("/data/music-in".into()),
        target: Some("/data/music-out".into()),
        workers: Some(2),
        move_files: Some(true),
        ..Default::default()
    };
    let resolved = a.resolve(&config);
    assert_eq!(resolved.source, "/data/music-in");
    assert_eq!(resolved.target, "/data/music-out");
    assert_eq!(resolved.workers, 2);
    assert!(resolved.do_move);
}

#[test]
fn test_resolve_falls_back_to_defaults() {
    let a = args(None, None, None, false);
    let config = Config::default();
    let resolved = a.resolve(&config);
    assert!(resolved.source.contains("chargements"));
    assert!(resolved.target.contains("Music"));
    assert_eq!(resolved.workers, 1);
    assert!(!resolved.do_move);
}

#[test]
fn resolve_expands_tilde_with_known_home() {
    let a = args(Some("~/in"), Some("/abs/out"), None, false);
    let resolved = a.resolve_with_home(&Config::default(), &Some("/home/me".to_string()));
    assert_eq!(resolved.source, "/home/me/in");
    assert_eq!(resolved.target, "/abs/out");
}

#[test]
fn resolve_defaults_without_home() {
    let a = args(None, None, None, false);
    let resolved = a.resolve_with_home(&Config::default(), &None);
    assert_eq!(resolved.source, "~/Téléchargements");
    assert_eq!(resolved.target, "~/Music");
}

#[test]
fn fix_tags_from_command_line_or_config() {
    let a = args(None, None, None, false);
    let c = Config { fix_tags: Some(true), ..Default::default() };
    assert!(a.clone().resolve(&c).fix_tags);
    assert!(!a.resolve(&Config::default()).fix_tags);
}
