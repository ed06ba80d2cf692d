use vstd::prelude::*;

pub mod album_group;
pub mod cache;
pub mod cache_keys;
pub mod cli;
pub mod config;
pub mod coverart;
pub mod discogs;
pub mod enricher;
pub mod fingerprint;
pub mod models;
pub mod musicbrainz;
pub mod organizer;
pub mod paths;
pub mod pipeline;
pub mod rate_limiter;
pub mod retry;
pub mod rollback;
pub mod scanner;
pub mod tags;
pub mod text;
pub mod title_cleaner;

verus! {
}
