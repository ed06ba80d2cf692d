//! Enrichment of a track's metadata: embedded tags, then file and folder name
//! heuristics, then AcoustID, MusicBrainz, the Cover Art Archive and Discogs.
//!
//! The decisions are a state machine: [`EnrichRun::start`] takes the tags read
//! from the file and gives the first thing to fetch; [`EnrichRun::step`] takes
//! what came back (`None` for a failure or an empty answer) and gives the
//! next. The caller performs the fetches and, on [`EnrichAction::Finish`],
//! applies the artist and album registries.

use vstd::prelude::*;
use crate::discogs::ReleaseDetails;
use crate::fingerprint::FingerprintResult;
use crate::models::{
    Confidence, TrackInfo, TrackInfoView, copy_opt_string, fill, full_metadata, merged,
    min_for_organization, min_for_search, opt_bytes, opt_text,
};
use crate::paths::path_file_stem;
use crate::tags::{
    artist_title_spec, folder_meta_spec, parent_folder_name, parse_artist_title_from_filename,
    parse_folder_metadata,
};
use crate::title_cleaner::{clean_for_search, clean_title};

verus! {

/// `a` after a database answer `b`: the artist of `b` wins when it has one,
/// the other missing fields are filled from `b`; an album already known is
/// kept.
pub open spec fn overridden(a: TrackInfoView, b: TrackInfoView) -> TrackInfoView {
    merged(TrackInfoView { artist: fill(b.artist, a.artist), ..a }, b)
}

/// Replaces the artist with the one given by the database (MusicBrainz or
/// Discogs) and fills the missing fields; an album already present is never
/// replaced (a compilation must not overwrite the original album).
pub fn override_from_db(info: &mut TrackInfo, db_info: &TrackInfo)
    ensures
        final(info)@ == overridden(old(info)@, db_info@),
{
    if db_info.artist.is_some() {
        info.artist = copy_opt_string(&db_info.artist);
    }
    info.merge(db_info);
}

pub open spec fn confidence_of(had_embedded_org: bool, api_matched: bool) -> Confidence {
    if api_matched {
        Confidence::High
    } else if had_embedded_org {
        Confidence::Medium
    } else {
        Confidence::Low
    }
}

/// Confidence of an enrichment: an API match gives High; otherwise complete
/// embedded tags give Medium; otherwise Low.
pub fn compute_confidence(had_embedded_org: bool, api_matched: bool) -> (res: Confidence)
    ensures
        res == confidence_of(had_embedded_org, api_matched),
{
    if api_matched {
        Confidence::High
    } else if had_embedded_org {
        Confidence::Medium
    } else {
        Confidence::Low
    }
}

/// What the enrichment waits for.
#[derive(Debug, Clone, Copy, PartialEq, Eq, Structural)]
pub enum EnrichStage {
    Fingerprint,
    AcoustId,
    Recording,
    TextSearch,
    Cover,
    DiscogsSearch,
    DiscogsDetails,
    DiscogsImage,
    Finished,
}

/// The work asked of the caller.
#[derive(Debug)]
pub enum EnrichAction {
    /// Compute (or take from the cache) the file's fingerprint.
    GenerateFingerprint,
    /// Look the fingerprint up on AcoustID.
    LookupAcoustId { fingerprint: FingerprintResult },
    /// Look a recording up on MusicBrainz by its id.
    LookupRecording { recording_id: String, existing_album: Option<String> },
    /// Search MusicBrainz for a recording by artist and cleaned title.
    SearchRecording { artist: String, title: String, existing_album: Option<String> },
    /// Fetch the cover of a MusicBrainz release.
    FetchCover { release_id: String },
    /// Search Discogs for a release by artist and album.
    SearchDiscogs { artist: String, album: String },
    /// Fetch the details of a Discogs release.
    FetchDiscogsDetails { resource_url: String },
    /// Download a Discogs image.
    FetchDiscogsImage { image_url: String },
    /// Enrichment done: the metadata and its confidence.
    Finish { info: TrackInfo, confidence: Confidence },
}

/// What the caller hands back; `None` stands for a failure or no answer.
#[derive(Debug)]
pub enum EnrichEvent {
    Fingerprint(Option<FingerprintResult>),
    AcoustId(Option<String>),
    /// The metadata of the recording and the id of its best release.
    Recording(Option<(TrackInfo, Option<String>)>),
    /// The metadata of the match and the id of its best release.
    TextSearch(Option<(TrackInfo, String)>),
    Cover(Option<Vec<u8>>),
    /// The metadata of the first hit and its resource URL.
    DiscogsSearch(Option<(TrackInfo, Option<String>)>),
    DiscogsDetails(Option<ReleaseDetails>),
    DiscogsImage(Option<Vec<u8>>),
}

/// An enrichment in progress.
#[derive(Debug)]
pub struct EnrichRun {
    pub info: TrackInfo,
    /// The embedded tags alone were enough to organise the file.
    pub had_embedded_org: bool,
    /// The album of the tags and heuristics, which MusicBrainz favours.
    pub existing_album: Option<String>,
    pub release_id: Option<String>,
    pub stage: EnrichStage,
    /// `fpcalc` is available and an AcoustID key is configured.
    pub fingerprinting: bool,
    /// A Discogs token is configured.
    pub discogs: bool,
}

/// Model of an [`EnrichRun`].
pub struct RunView {
    pub info: TrackInfoView,
    pub had_embedded_org: bool,
    pub existing_album: Option<Seq<char>>,
    pub release_id: Option<Seq<char>>,
    pub stage: EnrichStage,
    pub fingerprinting: bool,
    pub discogs: bool,
}

impl View for EnrichRun {
    type V = RunView;

    open spec fn view(&self) -> RunView {
        RunView {
            info: self.info@,
            had_embedded_org: self.had_embedded_org,
            existing_album: opt_text(self.existing_album),
            release_id: opt_text(self.release_id),
            stage: self.stage,
            fingerprinting: self.fingerprinting,
            discogs: self.discogs,
        }
    }
}

/// Model of an [`EnrichAction`].
pub enum ActionView {
    GenerateFingerprint,
    LookupAcoustId { fingerprint: Seq<char>, duration: u32 },
    LookupRecording { recording_id: Seq<char>, existing_album: Option<Seq<char>> },
    SearchRecording { artist: Seq<char>, title: Seq<char>, existing_album: Option<Seq<char>> },
    FetchCover { release_id: Seq<char> },
    SearchDiscogs { artist: Seq<char>, album: Seq<char> },
    FetchDiscogsDetails { resource_url: Seq<char> },
    FetchDiscogsImage { image_url: Seq<char> },
    Finish { info: TrackInfoView, confidence: Confidence },
}

pub open spec fn action_view(a: EnrichAction) -> ActionView {
    match a {
        EnrichAction::GenerateFingerprint => ActionView::GenerateFingerprint,
        EnrichAction::LookupAcoustId { fingerprint } => ActionView::LookupAcoustId {
            fingerprint: fingerprint.fingerprint@,
            duration: fingerprint.duration,
        },
        EnrichAction::LookupRecording { recording_id, existing_album } => ActionView::LookupRecording {
            recording_id: recording_id@,
            existing_album: opt_text(existing_album),
        },
        EnrichAction::SearchRecording { artist, title, existing_album } => ActionView::SearchRecording {
            artist: artist@,
            title: title@,
            existing_album: opt_text(existing_album),
        },
        EnrichAction::FetchCover { release_id } => ActionView::FetchCover { release_id: release_id@ },
        EnrichAction::SearchDiscogs { artist, album } => ActionView::SearchDiscogs { artist: artist@, album: album@ },
        EnrichAction::FetchDiscogsDetails { resource_url } => ActionView::FetchDiscogsDetails { resource_url: resource_url@ },
        EnrichAction::FetchDiscogsImage { image_url } => ActionView::FetchDiscogsImage { image_url: image_url@ },
        EnrichAction::Finish { info, confidence } => ActionView::Finish { info: info@, confidence },
    }
}

pub open spec fn text_or_empty(o: Option<Seq<char>>) -> Seq<char> {
    match o {
        Some(s) => s,
        None => Seq::empty(),
    }
}

/// The end: the metadata, with High confidence exactly when a release was
/// found.
pub open spec fn finish_spec(r: RunView) -> (RunView, ActionView) {
    (RunView { stage: EnrichStage::Finished, ..r }, ActionView::Finish {
        info: r.info,
        confidence: confidence_of(r.had_embedded_org, r.release_id is Some),
    })
}

/// Discogs is asked when a token is configured, the track cannot be
/// organised yet or has no cover, and both artist and album are non-empty.
pub open spec fn after_cover_spec(r: RunView) -> (RunView, ActionView) {
    let artist = text_or_empty(r.info.artist);
    let album = text_or_empty(r.info.album);
    if r.discogs && (!min_for_organization(r.info) || r.info.cover_art is None) && artist.len() > 0
        && album.len() > 0 {
        (RunView { stage: EnrichStage::DiscogsSearch, ..r }, ActionView::SearchDiscogs { artist, album })
    } else {
        finish_spec(r)
    }
}

/// The cover of the release is fetched when a release is known and the track
/// has no cover.
pub open spec fn after_text_spec(r: RunView) -> (RunView, ActionView) {
    if r.info.cover_art is None && r.release_id is Some {
        (RunView { stage: EnrichStage::Cover, ..r }, ActionView::FetchCover { release_id: r.release_id->0 })
    } else {
        after_cover_spec(r)
    }
}

/// MusicBrainz is searched by text when artist and title are known and no
/// release was found yet; the title is cleaned for the search only.
pub open spec fn after_fingerprint_spec(r: RunView) -> (RunView, ActionView) {
    if min_for_search(r.info) && r.release_id is None {
        (RunView { stage: EnrichStage::TextSearch, ..r }, ActionView::SearchRecording {
            artist: r.info.artist->0,
            title: clean_title(r.info.title->0),
            existing_album: r.existing_album,
        })
    } else {
        after_text_spec(r)
    }
}

/// The tags completed with the file name ("Artist - Title") and the folder
/// name ("Artist - Year - Album"), without replacing what they hold.
pub open spec fn with_heuristics(tags: TrackInfoView, path: Seq<char>) -> TrackInfoView {
    let stem = match path_file_stem(path) { Some(s) => s, None => Seq::empty() };
    let (fa, ft) = artist_title_spec(stem);
    let (ga, gy, gal) = match parent_folder_name(path) {
        Some(n) => folder_meta_spec(n),
        None => (None, None, None),
    };
    let a = fill(tags.artist, fa);
    TrackInfoView {
        artist: fill(a, ga),
        title: fill(tags.title, ft),
        album: fill(tags.album, gal),
        year: fill(tags.year, gy),
        ..tags
    }
}

/// How an enrichment starts from the tags read from the file at `path`.
pub open spec fn start_spec(tags: TrackInfoView, path: Seq<char>, fingerprinting: bool, discogs: bool) -> (RunView, ActionView) {
    let info = with_heuristics(tags, path);
    let r = RunView {
        info,
        had_embedded_org: min_for_organization(tags),
        existing_album: info.album,
        release_id: None,
        stage: EnrichStage::Fingerprint,
        fingerprinting,
        discogs,
    };
    if full_metadata(info) {
        finish_spec(r)
    } else if !min_for_search(info) && fingerprinting {
        (r, ActionView::GenerateFingerprint)
    } else {
        after_fingerprint_spec(r)
    }
}

/// The fields of the Discogs release details that are used.
pub open spec fn details_view(d: ReleaseDetails) -> TrackInfoView {
    TrackInfoView {
        artist: opt_text(d.artist),
        album: opt_text(d.album),
        title: None,
        year: d.year,
        track_number: None,
        total_tracks: None,
        genre: opt_text(d.genre),
        cover_art: None,
    }
}

pub open spec fn with_cover(i: TrackInfoView, c: Seq<u8>) -> TrackInfoView {
    TrackInfoView { cover_art: fill(i.cover_art, Some(c)), ..i }
}

/// One step: what the answer `e` does to the run `r`. An answer of another
/// kind than the one awaited counts as a failure.
pub open spec fn step_spec(r: RunView, e: EnrichEvent) -> (RunView, ActionView) {
    match r.stage {
        EnrichStage::Fingerprint => match e {
            EnrichEvent::Fingerprint(Some(fp)) => (RunView { stage: EnrichStage::AcoustId, ..r },
                ActionView::LookupAcoustId { fingerprint: fp.fingerprint@, duration: fp.duration }),
            _ => after_fingerprint_spec(r),
        },
        EnrichStage::AcoustId => match e {
            EnrichEvent::AcoustId(Some(id)) => (RunView { stage: EnrichStage::Recording, ..r },
                ActionView::LookupRecording { recording_id: id@, existing_album: r.existing_album }),
            _ => after_fingerprint_spec(r),
        },
        EnrichStage::Recording => match e {
            EnrichEvent::Recording(Some((mb, rid))) => after_fingerprint_spec(
                RunView { info: overridden(r.info, mb@), release_id: opt_text(rid), ..r }),
            _ => after_fingerprint_spec(r),
        },
        EnrichStage::TextSearch => match e {
            EnrichEvent::TextSearch(Some((mb, rid))) => after_text_spec(
                RunView { info: overridden(r.info, mb@), release_id: Some(rid@), ..r }),
            _ => after_text_spec(r),
        },
        EnrichStage::Cover => match e {
            EnrichEvent::Cover(Some(c)) => after_cover_spec(RunView { info: with_cover(r.info, c@), ..r }),
            _ => after_cover_spec(r),
        },
        EnrichStage::DiscogsSearch => match e {
            EnrichEvent::DiscogsSearch(Some((d, url))) => {
                let r2 = RunView { info: merged(r.info, d@), ..r };
                match url {
                    Some(u) => (RunView { stage: EnrichStage::DiscogsDetails, ..r2 },
                        ActionView::FetchDiscogsDetails { resource_url: u@ }),
                    None => finish_spec(r2),
                }
            },
            _ => finish_spec(r),
        },
        EnrichStage::DiscogsDetails => match e {
            EnrichEvent::DiscogsDetails(Some(d)) => {
                let r2 = RunView { info: overridden(r.info, details_view(d)), ..r };
                if r2.info.cover_art is None && d.cover_url is Some {
                    (RunView { stage: EnrichStage::DiscogsImage, ..r2 },
                        ActionView::FetchDiscogsImage { image_url: d.cover_url->0@ })
                } else {
                    finish_spec(r2)
                }
            },
            _ => finish_spec(r),
        },
        EnrichStage::DiscogsImage => match e {
            EnrichEvent::DiscogsImage(Some(c)) => finish_spec(RunView { info: with_cover(r.info, c@), ..r }),
            _ => finish_spec(r),
        },
        EnrichStage::Finished => finish_spec(r),
    }
}

pub open spec fn same_view(a: RunView, b: RunView) -> bool {
    a.info == b.info && a.had_embedded_org == b.had_embedded_org && a.existing_album == b.existing_album
        && a.release_id == b.release_id && a.stage == b.stage && a.fingerprinting == b.fingerprinting
        && a.discogs == b.discogs
}

fn opt_clone(o: &Option<String>) -> (res: Option<String>)
    ensures
        opt_text(res) == opt_text(*o),
{
    copy_opt_string(o)
}

impl EnrichRun {
    fn finish(&mut self) -> (a: EnrichAction)
        ensures
            same_view(final(self)@, finish_spec(old(self)@).0),
            action_view(a) == finish_spec(old(self)@).1,
    {
        self.stage = EnrichStage::Finished;
        let confidence = compute_confidence(self.had_embedded_org, self.release_id.is_some());
        EnrichAction::Finish { info: self.info.duplicate(), confidence }
    }

    fn after_cover(&mut self) -> (a: EnrichAction)
        ensures
            same_view(final(self)@, after_cover_spec(old(self)@).0),
            action_view(a) == after_cover_spec(old(self)@).1,
    {
        let artist = match &self.info.artist {
            Some(s) => s.clone(),
            None => String::new(),
        };
        let album = match &self.info.album {
            Some(s) => s.clone(),
            None => String::new(),
        };
        if self.discogs && (!self.info.has_minimum_for_organization() || self.info.cover_art.is_none())
            && !artist.as_str().is_empty() && !album.as_str().is_empty() {
            self.stage = EnrichStage::DiscogsSearch;
            EnrichAction::SearchDiscogs { artist, album }
        } else {
            self.finish()
        }
    }

    fn after_text(&mut self) -> (a: EnrichAction)
        ensures
            same_view(final(self)@, after_text_spec(old(self)@).0),
            action_view(a) == after_text_spec(old(self)@).1,
    {
        if self.info.cover_art.is_none() {
            if let Some(rid) = &self.release_id {
                let release_id = rid.clone();
                self.stage = EnrichStage::Cover;
                return EnrichAction::FetchCover { release_id };
            }
        }
        self.after_cover()
    }

    fn after_fingerprint(&mut self) -> (a: EnrichAction)
        ensures
            same_view(final(self)@, after_fingerprint_spec(old(self)@).0),
            action_view(a) == after_fingerprint_spec(old(self)@).1,
    {
        if self.info.has_minimum_for_search() && self.release_id.is_none() {
            let artist = match &self.info.artist {
                Some(s) => s.clone(),
                None => String::new(),
            };
            let title = match &self.info.title {
                Some(t) => clean_for_search(t.as_str()),
                None => String::new(),
            };
            self.stage = EnrichStage::TextSearch;
            return EnrichAction::SearchRecording { artist, title, existing_album: opt_clone(&self.existing_album) };
        }
        self.after_text()
    }

    /// Starts the enrichment of the file at `path` from the tags read from it
    /// (empty when they could not be read). `fingerprinting` says that
    /// `fpcalc` and an AcoustID key are available, `discogs` that a Discogs
    /// token is configured.
    pub fn start(tags: TrackInfo, path: &str, fingerprinting: bool, discogs: bool) -> (res: (EnrichRun, EnrichAction))
        ensures
            same_view(res.0@, start_spec(tags@, path@, fingerprinting, discogs).0),
            action_view(res.1) == start_spec(tags@, path@, fingerprinting, discogs).1,
    {
        let mut info = tags;
        let had_embedded_org = info.has_minimum_for_organization();
        let ghost t = info@;
        if info.artist.is_none() || info.title.is_none() {
            let (fa, ft) = parse_artist_title_from_filename(path);
            if info.artist.is_none() {
                info.artist = fa;
            }
            if info.title.is_none() {
                info.title = ft;
            }
        }
        if info.artist.is_none() || info.album.is_none() || info.year.is_none() {
            let (fa, fy, fal) = parse_folder_metadata(path);
            if info.artist.is_none() {
                info.artist = fa;
            }
            if info.album.is_none() {
                info.album = fal;
            }
            if info.year.is_none() {
                info.year = fy;
            }
        }
        assert(info@ == with_heuristics(t, path@));
        let existing_album = opt_clone(&info.album);
        let full = info.has_full_metadata();
        let search = info.has_minimum_for_search();
        let mut run = EnrichRun {
            info,
            had_embedded_org,
            existing_album,
            release_id: None,
            stage: EnrichStage::Fingerprint,
            fingerprinting,
            discogs,
        };
        if full {
            let a = run.finish();
            (run, a)
        } else if !search && fingerprinting {
            (run, EnrichAction::GenerateFingerprint)
        } else {
            let a = run.after_fingerprint();
            (run, a)
        }
    }

    /// Takes what came back for the last action and gives the next one (see
    /// [`step_spec`]).
    pub fn step(&mut self, event: EnrichEvent) -> (a: EnrichAction)
        ensures
            same_view(final(self)@, step_spec(old(self)@, event).0),
            action_view(a) == step_spec(old(self)@, event).1,
    {
        match self.stage {
            EnrichStage::Fingerprint => match event {
                EnrichEvent::Fingerprint(Some(fingerprint)) => {
                    self.stage = EnrichStage::AcoustId;
                    EnrichAction::LookupAcoustId { fingerprint }
                },
                _ => self.after_fingerprint(),
            },
            EnrichStage::AcoustId => match event {
                EnrichEvent::AcoustId(Some(recording_id)) => {
                    self.stage = EnrichStage::Recording;
                    EnrichAction::LookupRecording { recording_id, existing_album: opt_clone(&self.existing_album) }
                },
                _ => self.after_fingerprint(),
            },
            EnrichStage::Recording => match event {
                EnrichEvent::Recording(Some((mb, rid))) => {
                    override_from_db(&mut self.info, &mb);
                    self.release_id = rid;
                    self.after_fingerprint()
                },
                _ => self.after_fingerprint(),
            },
            EnrichStage::TextSearch => match event {
                EnrichEvent::TextSearch(Some((mb, rid))) => {
                    override_from_db(&mut self.info, &mb);
                    self.release_id = Some(rid);
                    self.after_text()
                },
                _ => self.after_text(),
            },
            EnrichStage::Cover => match event {
                EnrichEvent::Cover(Some(c)) => {
                    if self.info.cover_art.is_none() {
                        self.info.cover_art = Some(c);
                    }
                    self.after_cover()
                },
                _ => self.after_cover(),
            },
            EnrichStage::DiscogsSearch => match event {
                EnrichEvent::DiscogsSearch(Some((d, url))) => {
                    self.info.merge(&d);
                    match url {
                        Some(resource_url) => {
                            self.stage = EnrichStage::DiscogsDetails;
                            EnrichAction::FetchDiscogsDetails { resource_url }
                        },
                        None => self.finish(),
                    }
                },
                _ => self.finish(),
            },
            EnrichStage::DiscogsDetails => match event {
                EnrichEvent::DiscogsDetails(Some(details)) => {
                    let db = TrackInfo {
                        artist: details.artist,
                        album: details.album,
                        title: None,
                        year: details.year,
                        track_number: None,
                        total_tracks: None,
                        genre: details.genre,
                        cover_art: None,
                    };
                    override_from_db(&mut self.info, &db);
                    if self.info.cover_art.is_none() {
                        if let Some(image_url) = details.cover_url {
                            self.stage = EnrichStage::DiscogsImage;
                            return EnrichAction::FetchDiscogsImage { image_url };
                        }
                    }
                    self.finish()
                },
                _ => self.finish(),
            },
            EnrichStage::DiscogsImage => match event {
                EnrichEvent::DiscogsImage(Some(c)) => {
                    if self.info.cover_art.is_none() {
                        self.info.cover_art = Some(c);
                    }
                    self.finish()
                },
                _ => self.finish(),
            },
            EnrichStage::Finished => self.finish(),
        }
    }
}

// ---------------------------------------------------------------------------
// Laws
// ---------------------------------------------------------------------------

pub open spec fn stage_rank(s: EnrichStage) -> int {
    match s {
        EnrichStage::Fingerprint => 0,
        EnrichStage::AcoustId => 1,
        EnrichStage::Recording => 2,
        EnrichStage::TextSearch => 3,
        EnrichStage::Cover => 4,
        EnrichStage::DiscogsSearch => 5,
        EnrichStage::DiscogsDetails => 6,
        EnrichStage::DiscogsImage => 7,
        EnrichStage::Finished => 8,
    }
}

pub open spec fn is_finish(a: ActionView) -> bool {
    a is Finish
}

/// Every step moves the enrichment forward, so it ends after at most eight
/// answers; it ends exactly when the action is `Finish`.
pub proof fn law_enrich_progresses(r: RunView, e: EnrichEvent)
    requires
        r.stage != EnrichStage::Finished,
    ensures
        stage_rank(step_spec(r, e).0.stage) > stage_rank(r.stage),
        (step_spec(r, e).0.stage == EnrichStage::Finished) == is_finish(step_spec(r, e).1),
{
}

/// Starting never waits on anything but a fingerprint, a search, a cover or
/// Discogs, and finishes exactly when the action is `Finish`.
pub proof fn law_enrich_start_consistent(tags: TrackInfoView, path: Seq<char>, fingerprinting: bool, discogs: bool)
    ensures
        (start_spec(tags, path, fingerprinting, discogs).0.stage == EnrichStage::Finished)
            == is_finish(start_spec(tags, path, fingerprinting, discogs).1),
        start_spec(tags, path, fingerprinting, discogs).0.release_id is None,
{
}

pub open spec fn keeps(a: TrackInfoView, b: TrackInfoView) -> bool {
    &&& (a.artist is Some ==> b.artist is Some)
    &&& (a.album is Some ==> b.album == a.album)
    &&& (a.title is Some ==> b.title == a.title)
    &&& (a.year is Some ==> b.year == a.year)
    &&& (a.track_number is Some ==> b.track_number == a.track_number)
    &&& (a.total_tracks is Some ==> b.total_tracks == a.total_tracks)
    &&& (a.genre is Some ==> b.genre == a.genre)
    &&& (a.cover_art is Some ==> b.cover_art == a.cover_art)
}

/// No answer ever removes a field, and only the artist of a database answer
/// replaces one: an album, title, year, track number, genre or cover already
/// known stays as it is.
pub proof fn law_enrich_keeps_known_fields(r: RunView, e: EnrichEvent)
    ensures
        keeps(r.info, step_spec(r, e).0.info),
{
}

/// The heuristics never replace what the tags hold, and the confidence of a
/// finished enrichment is High exactly when a release was found.
pub proof fn law_enrich_confidence(r: RunView)
    ensures
        finish_spec(r).1 == (ActionView::Finish {
            info: r.info,
            confidence: if r.release_id is Some { Confidence::High } else if r.had_embedded_org {
                Confidence::Medium
            } else {
                Confidence::Low
            },
        }),
{
}

/// Discogs is the fallback for a missing cover: with a token configured and
/// both artist and album known, a run that reaches the Discogs decision
/// without cover art asks Discogs for that artist and album, even when the
/// metadata is already enough to organise the track. This holds after a
/// cover fetch that brought nothing, and after a text search that found no
/// release. A track that has its cover and can be organised never asks.
pub proof fn law_missing_cover_asks_discogs(r: RunView, e: EnrichEvent)
    requires
        r.discogs,
        r.info.cover_art is None,
        text_or_empty(r.info.artist).len() > 0,
        text_or_empty(r.info.album).len() > 0,
    ensures
        after_cover_spec(r).1 == (ActionView::SearchDiscogs {
            artist: text_or_empty(r.info.artist),
            album: text_or_empty(r.info.album),
        }),
        after_cover_spec(r).0.stage == EnrichStage::DiscogsSearch,
        min_for_organization(r.info) ==> after_cover_spec(r).1 is SearchDiscogs,
        r.stage == EnrichStage::Cover && !(e matches EnrichEvent::Cover(Some(_)))
            ==> step_spec(r, e).1 == (ActionView::SearchDiscogs {
            artist: text_or_empty(r.info.artist),
            album: text_or_empty(r.info.album),
        }),
        r.stage == EnrichStage::TextSearch && r.release_id is None && !(e matches EnrichEvent::TextSearch(Some(_)))
            ==> step_spec(r, e).1 == (ActionView::SearchDiscogs {
            artist: text_or_empty(r.info.artist),
            album: text_or_empty(r.info.album),
        }),
{
}

/// A track that already has its cover and enough metadata to be organised
/// finishes without asking Discogs.
pub proof fn law_complete_track_skips_discogs(r: RunView)
    requires
        r.info.cover_art is Some,
        min_for_organization(r.info),
    ensures
        after_cover_spec(r) == finish_spec(r),
{
}

/// The file and folder heuristics only fill fields the tags lack.
pub proof fn law_heuristics_keep_tags(tags: TrackInfoView, path: Seq<char>)
    ensures
        keeps(tags, with_heuristics(tags, path)),
        tags.artist is Some ==> with_heuristics(tags, path).artist == tags.artist,
{
}

/// The answer `e` gives the run `r` a MusicBrainz release id: a lookup by
/// recording id that names a release, or a text search match.
pub open spec fn gives_release(r: RunView, e: EnrichEvent) -> bool {
    ||| (r.stage == EnrichStage::Recording && e matches EnrichEvent::Recording(Some((_, Some(_)))))
    ||| (r.stage == EnrichStage::TextSearch && e matches EnrichEvent::TextSearch(Some(_)))
}

/// The run after the answers `events`, in order.
pub open spec fn replay(r: RunView, events: Seq<EnrichEvent>) -> RunView
    decreases events.len(),
{
    if events.len() == 0 {
        r
    } else {
        step_spec(replay(r, events.drop_last()), events.last()).0
    }
}

/// Some answer of `events` gave the run a MusicBrainz release id.
pub open spec fn mb_answered(r: RunView, events: Seq<EnrichEvent>) -> bool
    decreases events.len(),
{
    if events.len() == 0 {
        false
    } else {
        mb_answered(r, events.drop_last()) || gives_release(replay(r, events.drop_last()), events.last())
    }
}

/// A release id is only held once the MusicBrainz stages are behind.
pub open spec fn release_inv(r: RunView) -> bool {
    r.release_id is Some ==> stage_rank(r.stage) >= 4
}

/// Only a MusicBrainz answer sets the release id, which is then kept; the
/// embedded-tags flag never changes; and a step that finishes gives the
/// confidence of what it holds.
pub proof fn law_release_id_only_from_musicbrainz(r: RunView, e: EnrichEvent)
    requires
        release_inv(r),
    ensures
        release_inv(step_spec(r, e).0),
        step_spec(r, e).0.had_embedded_org == r.had_embedded_org,
        (step_spec(r, e).0.release_id is Some) == (r.release_id is Some || gives_release(r, e)),
        step_spec(r, e).1 matches ActionView::Finish { confidence, .. } ==> confidence == confidence_of(
            step_spec(r, e).0.had_embedded_org,
            step_spec(r, e).0.release_id is Some,
        ),
{
}

proof fn lemma_replay(r: RunView, events: Seq<EnrichEvent>)
    requires
        release_inv(r),
    ensures
        release_inv(replay(r, events)),
        replay(r, events).had_embedded_org == r.had_embedded_org,
        (replay(r, events).release_id is Some) == (r.release_id is Some || mb_answered(r, events)),
    decreases events.len(),
{
    if events.len() > 0 {
        lemma_replay(r, events.drop_last());
        law_release_id_only_from_musicbrainz(replay(r, events.drop_last()), events.last());
    }
}

/// Over a whole enrichment of a file whose tags are `tags`, whatever the
/// answers: the confidence given when it finishes is High exactly when a
/// MusicBrainz answer (lookup by recording id or text search) gave a release
/// id; otherwise Medium when the embedded tags alone could organise the file;
/// otherwise Low. File and folder heuristics, AcoustID alone and Discogs
/// never raise it.
pub proof fn law_enrichment_confidence(
    tags: TrackInfoView,
    path: Seq<char>,
    fingerprinting: bool,
    discogs: bool,
    events: Seq<EnrichEvent>,
)
    ensures
        start_spec(tags, path, fingerprinting, discogs).1 matches ActionView::Finish { confidence, .. }
            ==> confidence == confidence_of(min_for_organization(tags), false),
        ({
            let r0 = start_spec(tags, path, fingerprinting, discogs).0;
            events.len() > 0 ==> (step_spec(replay(r0, events.drop_last()), events.last()).1 matches
                ActionView::Finish { confidence, .. } ==> confidence == confidence_of(
                    min_for_organization(tags),
                    mb_answered(r0, events),
                ))
        }),
{
    let r0 = start_spec(tags, path, fingerprinting, discogs).0;
    if events.len() > 0 {
        lemma_replay(r0, events.drop_last());
        law_release_id_only_from_musicbrainz(replay(r0, events.drop_last()), events.last());
    }
}

} // verus!
