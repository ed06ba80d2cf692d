//! User configuration (`~/.config/music-sorter/config.toml`); every field is
//! optional and falls back to a default where it is used.

use vstd::prelude::*;

verus! {

#[derive(Debug, Clone)]
pub struct Config {
    pub discogs_token: Option<String>,
    pub acoustid_api_key: Option<String>,
    pub source: Option<String>,
    pub target: Option<String>,
    pub workers: Option<usize>,
    pub move_files: Option<bool>,
    /// Default true.
    pub cache_enabled: Option<bool>,
    /// Default 30.
    pub api_cache_ttl_days: Option<u32>,
    /// Default `organizer::DEFAULT_TEMPLATE`.
    pub naming_template: Option<String>,
    /// Default 30: `_unsorted` files are retried after this many days.
    pub unsorted_ttl_days: Option<i64>,
    /// Default true: weak matches are routed to `_review/`.
    pub quarantine_enabled: Option<bool>,
    /// Default true: duplicates are detected by content hash.
    pub dedup_enabled: Option<bool>,
    /// Default true: acoustic duplicates (fingerprint and duration) go to the trash.
    pub audio_dedup: Option<bool>,
    /// Default false: canonical tags are written back on a sure match.
    pub fix_tags: Option<bool>,
}

impl Config {
    /// Whether no field is set.
    pub open spec fn is_empty(&self) -> bool {
        &&& self.discogs_token is None
        &&& self.acoustid_api_key is None
        &&& self.source is None
        &&& self.target is None
        &&& self.workers is None
        &&& self.move_files is None
        &&& self.cache_enabled is None
        &&& self.api_cache_ttl_days is None
        &&& self.naming_template is None
        &&& self.unsorted_ttl_days is None
        &&& self.quarantine_enabled is None
        &&& self.dedup_enabled is None
        &&& self.audio_dedup is None
        &&& self.fix_tags is None
    }

    /// API cache lifetime in seconds (30 days when unset).
    pub fn api_cache_ttl_secs(&self) -> (res: i64)
        ensures
            res == (match self.api_cache_ttl_days { Some(d) => d as int, None => 30 }) * 86400,
    {
        let days: i64 = match self.api_cache_ttl_days {
            Some(d) => d as i64,
            None => 30,
        };
        days * 86400
    }
}

impl Default for Config {
    fn default() -> (res: Self)
        ensures
            res.is_empty(),
    {
        Config {
            discogs_token: None,
            acoustid_api_key: None,
            source: None,
            target: None,
            workers: None,
            move_files: None,
            cache_enabled: None,
            api_cache_ttl_days: None,
            naming_template: None,
            unsorted_ttl_days: None,
            quarantine_enabled: None,
            dedup_enabled: None,
            audio_dedup: None,
            fix_tags: None,
        }
    }
}

} // verus!
