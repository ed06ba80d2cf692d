//! Track metadata, confidence levels and per-file outcomes.

use vstd::prelude::*;

verus! {

/// Metadata of an audio track.
#[derive(Debug, Clone, PartialEq)]
pub struct TrackInfo {
    pub artist: Option<String>,
    pub album: Option<String>,
    pub title: Option<String>,
    pub year: Option<u32>,
    pub track_number: Option<u32>,
    pub total_tracks: Option<u32>,
    pub genre: Option<String>,
    pub cover_art: Option<Vec<u8>>,
}

/// Mathematical model of a [`TrackInfo`].
pub struct TrackInfoView {
    pub artist: Option<Seq<char>>,
    pub album: Option<Seq<char>>,
    pub title: Option<Seq<char>>,
    pub year: Option<u32>,
    pub track_number: Option<u32>,
    pub total_tracks: Option<u32>,
    pub genre: Option<Seq<char>>,
    pub cover_art: Option<Seq<u8>>,
}

pub open spec fn opt_text(o: Option<String>) -> Option<Seq<char>> {
    match o {
        Some(s) => Some(s@),
        None => None,
    }
}

pub open spec fn opt_bytes(o: Option<Vec<u8>>) -> Option<Seq<u8>> {
    match o {
        Some(b) => Some(b@),
        None => None,
    }
}

impl View for TrackInfo {
    type V = TrackInfoView;

    open spec fn view(&self) -> TrackInfoView {
        TrackInfoView {
            artist: opt_text(self.artist),
            album: opt_text(self.album),
            title: opt_text(self.title),
            year: self.year,
            track_number: self.track_number,
            total_tracks: self.total_tracks,
            genre: opt_text(self.genre),
            cover_art: opt_bytes(self.cover_art),
        }
    }
}

/// The model with no field set.
pub open spec fn empty_info() -> TrackInfoView {
    TrackInfoView {
        artist: None,
        album: None,
        title: None,
        year: None,
        track_number: None,
        total_tracks: None,
        genre: None,
        cover_art: None,
    }
}

pub open spec fn fill<T>(mine: Option<T>, theirs: Option<T>) -> Option<T> {
    if mine is None { theirs } else { mine }
}

/// `a` completed with the fields of `b` that `a` lacks.
pub open spec fn merged(a: TrackInfoView, b: TrackInfoView) -> TrackInfoView {
    TrackInfoView {
        artist: fill(a.artist, b.artist),
        album: fill(a.album, b.album),
        title: fill(a.title, b.title),
        year: fill(a.year, b.year),
        track_number: fill(a.track_number, b.track_number),
        total_tracks: fill(a.total_tracks, b.total_tracks),
        genre: fill(a.genre, b.genre),
        cover_art: fill(a.cover_art, b.cover_art),
    }
}

pub open spec fn min_for_search(i: TrackInfoView) -> bool {
    i.artist is Some && i.title is Some
}

pub open spec fn full_metadata(i: TrackInfoView) -> bool {
    i.artist is Some && i.album is Some && i.title is Some && i.year is Some
        && i.track_number is Some && i.cover_art is Some
}

pub open spec fn min_for_organization(i: TrackInfoView) -> bool {
    i.artist is Some && i.album is Some && i.title is Some
}

/// A copy of an optional string.
pub fn copy_opt_string(o: &Option<String>) -> (res: Option<String>)
    ensures
        opt_text(res) == opt_text(*o),
{
    match o {
        Some(s) => Some(s.clone()),
        None => None,
    }
}

/// A copy of a byte vector.
pub fn copy_bytes(b: &Vec<u8>) -> (res: Vec<u8>)
    ensures
        res@ == b@,
{
    let mut out: Vec<u8> = Vec::new();
    let mut i: usize = 0;
    while i < b.len()
        invariant
            i <= b@.len(),
            out@ == b@.take(i as int),
        decreases b@.len() - i,
    {
        out.push(b[i]);
        assert(b@.take(i + 1) =~= b@.take(i as int).push(b@[i as int]));
        i += 1;
    }
    assert(b@.take(b@.len() as int) =~= b@);
    out
}

pub fn copy_opt_bytes(o: &Option<Vec<u8>>) -> (res: Option<Vec<u8>>)
    ensures
        opt_bytes(res) == opt_bytes(*o),
{
    match o {
        Some(b) => Some(copy_bytes(b)),
        None => None,
    }
}

impl Default for TrackInfo {
    fn default() -> (res: Self)
        ensures
            res@ == empty_info(),
    {
        TrackInfo {
            artist: None,
            album: None,
            title: None,
            year: None,
            track_number: None,
            total_tracks: None,
            genre: None,
            cover_art: None,
        }
    }
}

impl TrackInfo {
    /// A track with no metadata at all.
    pub fn empty() -> (res: Self)
        ensures
            res@ == empty_info(),
    {
        TrackInfo {
            artist: None,
            album: None,
            title: None,
            year: None,
            track_number: None,
            total_tracks: None,
            genre: None,
            cover_art: None,
        }
    }

    /// A field-by-field copy.
    pub fn duplicate(&self) -> (res: Self)
        ensures
            res@ == self@,
    {
        TrackInfo {
            artist: copy_opt_string(&self.artist),
            album: copy_opt_string(&self.album),
            title: copy_opt_string(&self.title),
            year: self.year,
            track_number: self.track_number,
            total_tracks: self.total_tracks,
            genre: copy_opt_string(&self.genre),
            cover_art: copy_opt_bytes(&self.cover_art),
        }
    }

    /// Fills the fields missing in `self` with those of `other`; a field that
    /// is present is never overwritten.
    pub fn merge(&mut self, other: &TrackInfo)
        ensures
            final(self)@ == merged(old(self)@, other@),
    {
        if self.artist.is_none() {
            self.artist = copy_opt_string(&other.artist);
        }
        if self.album.is_none() {
            self.album = copy_opt_string(&other.album);
        }
        if self.title.is_none() {
            self.title = copy_opt_string(&other.title);
        }
        if self.year.is_none() {
            self.year = other.year;
        }
        if self.track_number.is_none() {
            self.track_number = other.track_number;
        }
        if self.total_tracks.is_none() {
            self.total_tracks = other.total_tracks;
        }
        if self.genre.is_none() {
            self.genre = copy_opt_string(&other.genre);
        }
        if self.cover_art.is_none() {
            self.cover_art = copy_opt_bytes(&other.cover_art);
        }
    }

    /// Enough information to query the APIs: artist and title.
    pub fn has_minimum_for_search(&self) -> (res: bool)
        ensures
            res == min_for_search(self@),
    {
        self.artist.is_some() && self.title.is_some()
    }

    /// All essential fields and the cover art are present.
    pub fn has_full_metadata(&self) -> (res: bool)
        ensures
            res == full_metadata(self@),
    {
        self.artist.is_some() && self.album.is_some() && self.title.is_some()
            && self.year.is_some() && self.track_number.is_some() && self.cover_art.is_some()
    }

    /// Enough information to file the track: artist, album and title.
    pub fn has_minimum_for_organization(&self) -> (res: bool)
        ensures
            res == min_for_organization(self@),
    {
        self.artist.is_some() && self.album.is_some() && self.title.is_some()
    }
}

/// Merging a track with itself changes nothing.
pub proof fn law_merge_self(a: TrackInfoView)
    ensures
        merged(a, a) == a,
{
}

/// Merging the same source twice is merging it once.
pub proof fn law_merge_idempotent(a: TrackInfoView, b: TrackInfoView)
    ensures
        merged(merged(a, b), b) == merged(a, b),
{
}

/// Merging an empty track changes nothing, and merging into an empty track
/// copies the source.
pub proof fn law_merge_empty(a: TrackInfoView)
    ensures
        merged(a, empty_info()) == a,
        merged(empty_info(), a) == a,
{
}

/// Full metadata implies enough to organise, which implies enough to search.
pub proof fn law_metadata_levels(i: TrackInfoView)
    ensures
        full_metadata(i) ==> min_for_organization(i),
        min_for_organization(i) ==> min_for_search(i),
{
}

/// Merging never loses a level of completeness.
pub proof fn law_merge_monotone(a: TrackInfoView, b: TrackInfoView)
    ensures
        min_for_search(a) ==> min_for_search(merged(a, b)),
        min_for_organization(a) ==> min_for_organization(merged(a, b)),
        full_metadata(a) ==> full_metadata(merged(a, b)),
        min_for_organization(b) ==> min_for_organization(merged(a, b)),
{
}

/// Confidence of an enrichment, used to route weak matches.
#[derive(Debug, Clone, Copy, PartialEq, Eq, Structural)]
pub enum Confidence {
    /// Confirmed by an API (AcoustID/MusicBrainz).
    High,
    /// Complete embedded tags, without API confirmation.
    Medium,
    /// Only organisable thanks to file/folder name heuristics.
    Low,
}

/// Outcome of processing one file (paths are held as text).
#[derive(Debug)]
pub enum ProcessResult {
    Organized { from: String, to: String },
    /// Skipped through the cache: no API call, no copy.
    CachedSkip { from: String, to: String },
    ConflictResolved { path: String, kept_bitrate: u32 },
    Unsorted { from: String, to: String },
    /// Same content as a file already filed.
    Duplicate { from: String, of: String },
    /// Same recording as a file already filed in better quality.
    AcousticDuplicate { from: String, of: String },
    /// Abandoned after an interruption: neither processed nor recorded.
    Interrupted { path: String },
    Error { path: String, reason: String },
}

} // verus!
