use music_sorter::config::Config;

#[test]
fn test_default_config() {
    let config = Config::default();
    assert_eq!(config.discogs_token, None);
}

#[test]
fn api_cache_ttl_defaults_to_thirty_days() {
    let config = Config::default();
    assert_eq!(config.api_cache_ttl_secs(), 30 * 86400);
    let c = Config { api_cache_ttl_days: Some(7), ..Default::default() };
    assert_eq!(c.api_cache_ttl_secs(), 7 * 86400);
}
