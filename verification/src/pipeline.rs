//! Processing of one file, from the cache check to its filing.
//!
//! The decisions are a state machine: [`FileRun::start`] opens the run and
//! [`FileRun::step`] takes what the caller observed and gives a [`FileStep`]:
//! effects whose outcome does not matter (trash, cache records, tag writing),
//! to be carried out in order, then one request whose answer is the next
//! event. The run ends with [`Request::Done`] and the file's outcome.

use vstd::prelude::*;
use crate::cli::ResolvedArgs;
use crate::config::Config;
use crate::models::{Confidence, ProcessResult, TrackInfo, TrackInfoView, copy_opt_string, opt_text};
use crate::organizer::{
    CopyResult, DEFAULT_TEMPLATE, build_destination_path_with_template, destination, error_destination,
    error_destination_spec, redirect_to_review, review_destination, string_views,
};
use crate::text::{chars_of, eq_lit, find_sub, find_sub_exec};

verus! {

// ---------------------------------------------------------------------------
// Cache decisions
// ---------------------------------------------------------------------------

pub open spec fn should_skip_spec(status: Seq<char>, age_secs: int, ttl_days: int, resume: bool, retry_unsorted: bool) -> bool {
    if status == "organized"@ || status == "conflict"@ {
        true
    } else if status == "unsorted"@ {
        !retry_unsorted && (resume || age_secs < ttl_days * 86400)
    } else {
        false
    }
}

/// Whether a file already seen in the cache is skipped without processing:
/// organized and conflict entries always; unsorted ones while younger than
/// `ttl_days` days, or always in resume mode, never with `retry_unsorted`;
/// any other status (error, ...) never.
pub fn should_skip_cached(status: &str, age_secs: i64, ttl_days: i64, resume: bool, retry_unsorted: bool) -> (res: bool)
    ensures
        res == should_skip_spec(status@, age_secs as int, ttl_days as int, resume, retry_unsorted),
{
    let v = chars_of(status);
    if eq_lit(v.as_slice(), "organized") || eq_lit(v.as_slice(), "conflict") {
        true
    } else if eq_lit(v.as_slice(), "unsorted") {
        !retry_unsorted && (resume || (age_secs as i128) < (ttl_days as i128) * 86400)
    } else {
        false
    }
}

pub open spec fn trash_spec(status: Seq<char>, do_move: bool, dest_exists: bool) -> bool {
    do_move && dest_exists && (status == "organized"@ || status == "conflict"@)
}

/// In move mode, a cached organized or conflict source whose destination
/// exists is a redundant copy left by an earlier copy run: it goes to the
/// trash so that the source empties.
pub fn should_trash_redundant_source(status: &str, do_move: bool, dest_exists: bool) -> (res: bool)
    ensures
        res == trash_spec(status@, do_move, dest_exists),
{
    let v = chars_of(status);
    do_move && dest_exists && (eq_lit(v.as_slice(), "organized") || eq_lit(v.as_slice(), "conflict"))
}

// ---------------------------------------------------------------------------
// Types
// ---------------------------------------------------------------------------

/// Options of a run, shared by all files.
#[derive(Debug, Clone)]
pub struct RunOptions {
    pub do_move: bool,
    pub dry_run: bool,
    pub resume: bool,
    pub retry_unsorted: bool,
    pub dedup: bool,
    pub audio_dedup: bool,
    pub quarantine: bool,
    pub fix_tags: bool,
    pub template: String,
    pub unsorted_ttl_days: i64,
}

pub open spec fn opt_or<T>(o: Option<T>, d: T) -> T {
    match o {
        Some(v) => v,
        None => d,
    }
}

/// The options of a run: command line and configuration, with the defaults
/// (deduplication, acoustic deduplication when fpcalc is there, quarantine:
/// on; the default naming template; unsorted files retried after 30 days).
pub fn run_options(args: &ResolvedArgs, config: &Config, fpcalc_available: bool) -> (res: RunOptions)
    ensures
        res.do_move == args.do_move,
        res.dry_run == args.dry_run,
        res.resume == args.resume,
        res.retry_unsorted == args.retry_unsorted,
        res.fix_tags == args.fix_tags,
        res.dedup == opt_or(config.dedup_enabled, true),
        res.audio_dedup == (opt_or(config.audio_dedup, true) && fpcalc_available),
        res.quarantine == opt_or(config.quarantine_enabled, true),
        res.template@ == (match config.naming_template {
            Some(t) => t@,
            None => DEFAULT_TEMPLATE@,
        }),
        res.unsorted_ttl_days == opt_or(config.unsorted_ttl_days, 30),
{
    RunOptions {
        do_move: args.do_move,
        dry_run: args.dry_run,
        resume: args.resume,
        retry_unsorted: args.retry_unsorted,
        dedup: match config.dedup_enabled { Some(b) => b, None => true },
        audio_dedup: match config.audio_dedup { Some(b) => b, None => true } && fpcalc_available,
        quarantine: match config.quarantine_enabled { Some(b) => b, None => true },
        fix_tags: args.fix_tags,
        template: match &config.naming_template {
            Some(t) => t.clone(),
            None => DEFAULT_TEMPLATE.to_owned(),
        },
        unsorted_ttl_days: match config.unsorted_ttl_days { Some(d) => d, None => 30 },
    }
}

/// What the run waits for.
#[derive(Debug, Clone, Copy, PartialEq, Eq, Structural)]
pub enum FileStage {
    Metadata,
    Processed,
    Hash,
    ContentOwner,
    Recording,
    Acoustic,
    Enrich,
    Transfer,
    Quarantine,
    Done,
}

/// A side effect whose outcome is ignored.
#[derive(Debug)]
pub enum Effect {
    /// Send a file to the system trash.
    TrashFile { path: String },
    /// Delete a file.
    RemoveFile { path: String },
    /// Record the file in `processed_files`.
    RecordProcessed { source: String, mtime: i64, size: i64, dest: Option<String>, status: String, note: Option<String> },
    /// Remember where a content hash was filed.
    RecordContent { hash: String, dest: String },
    /// Remember where a recording was filed, and its bitrate.
    UpsertAcoustic { recording_id: String, dest: String, bitrate: u32 },
    /// Write the tags of the filed copy (overwriting only with `overwrite`).
    WriteTags { dest: String, info: TrackInfo, overwrite: bool },
}

/// What the caller must find out next.
#[derive(Debug)]
pub enum Request {
    /// The file's modification time (seconds, if readable) and size.
    ReadMetadata,
    /// The `processed_files` entry of the file.
    LookupProcessed { source: String, mtime: i64, size: i64 },
    /// The hash of the file's content.
    HashContent,
    /// Where a content hash was filed.
    LookupContent { hash: String },
    /// The MusicBrainz recording id of the file, through its fingerprint.
    ResolveRecording,
    /// The file's bitrate and the copy of the recording already filed.
    InspectAcoustic { recording_id: String },
    /// Enrich the metadata, and list the entries of the target folder.
    Enrich,
    /// Copy (or move) the file to `dest`.
    Transfer { dest: String, do_move: bool },
    /// Move the file to its `_errors/` destination.
    Quarantine { dest: String },
    /// The run is over.
    Done { result: ProcessResult },
}

/// Effects to carry out in order, then a request.
#[derive(Debug)]
pub struct FileStep {
    pub effects: Vec<Effect>,
    pub request: Request,
}

/// The `processed_files` entry of a file.
#[derive(Debug, Clone)]
pub struct CachedEntry {
    pub status: String,
    pub dest: Option<String>,
    /// When the entry was written (seconds since the epoch).
    pub last_seen: i64,
    /// Whether `dest` exists on disk.
    pub dest_exists: bool,
}

/// The copy of a recording already filed.
#[derive(Debug, Clone)]
pub struct AcousticEntry {
    pub path: String,
    pub bitrate: u32,
    pub exists: bool,
    /// It is the very file being processed.
    pub same_file: bool,
}

/// How the enrichment ended.
#[derive(Debug)]
pub enum EnrichOutcome {
    Enriched { info: TrackInfo, confidence: Confidence },
    /// A transient error (API, database): the file stays in the source.
    Failed { reason: String },
    /// A crash while reading the file: its content is at fault.
    Crashed { reason: String },
}

/// What the caller observed.
#[derive(Debug)]
pub enum FileEvent {
    /// `None` when the metadata could not be read.
    Metadata(Option<(Option<i64>, i64)>),
    /// The entry, if any, and the current time (seconds since the epoch).
    Processed { entry: Option<CachedEntry>, now: i64 },
    Hash(Option<String>),
    /// The file filed with the same content, and whether it still exists.
    ContentOwner(Option<(String, bool)>),
    Recording(Option<String>),
    /// The file's bitrate (0 if unreadable) and the filed copy, if any.
    Acoustic { bitrate: u32, existing: Option<AcousticEntry> },
    /// The enrichment and the names found in the target folder.
    Enriched { outcome: EnrichOutcome, target_entries: Vec<String> },
    /// The outcome of the copy or move, or its error message.
    Transferred(Result<CopyResult, String>),
    /// Whether the quarantine move succeeded.
    Quarantined(bool),
}

/// A file being processed.
#[derive(Debug)]
pub struct FileRun {
    pub stage: FileStage,
    pub file: String,
    pub source: String,
    pub target: String,
    pub opts: RunOptions,
    pub mtime: Option<i64>,
    pub size: i64,
    pub content_hash: Option<String>,
    /// The recording id and the file's bitrate.
    pub acoustic: Option<(String, u32)>,
    pub info: TrackInfo,
    pub dest: String,
    pub overwrite_tags: bool,
    pub reason: String,
}

// ---------------------------------------------------------------------------
// Models
// ---------------------------------------------------------------------------

pub struct OptsView {
    pub do_move: bool,
    pub dry_run: bool,
    pub resume: bool,
    pub retry_unsorted: bool,
    pub dedup: bool,
    pub audio_dedup: bool,
    pub quarantine: bool,
    pub fix_tags: bool,
    pub template: Seq<char>,
    pub unsorted_ttl_days: i64,
}

pub struct FileRunView {
    pub stage: FileStage,
    pub file: Seq<char>,
    pub source: Seq<char>,
    pub target: Seq<char>,
    pub opts: OptsView,
    pub mtime: Option<i64>,
    pub size: i64,
    pub content_hash: Option<Seq<char>>,
    pub acoustic: Option<(Seq<char>, u32)>,
    pub info: TrackInfoView,
    pub dest: Seq<char>,
    pub overwrite_tags: bool,
    pub reason: Seq<char>,
}

pub open spec fn opts_view(o: RunOptions) -> OptsView {
    OptsView {
        do_move: o.do_move,
        dry_run: o.dry_run,
        resume: o.resume,
        retry_unsorted: o.retry_unsorted,
        dedup: o.dedup,
        audio_dedup: o.audio_dedup,
        quarantine: o.quarantine,
        fix_tags: o.fix_tags,
        template: o.template@,
        unsorted_ttl_days: o.unsorted_ttl_days,
    }
}

impl View for FileRun {
    type V = FileRunView;

    open spec fn view(&self) -> FileRunView {
        FileRunView {
            stage: self.stage,
            file: self.file@,
            source: self.source@,
            target: self.target@,
            opts: opts_view(self.opts),
            mtime: self.mtime,
            size: self.size,
            content_hash: opt_text(self.content_hash),
            acoustic: match self.acoustic {
                Some((r, q)) => Some((r@, q)),
                None => None,
            },
            info: self.info@,
            dest: self.dest@,
            overwrite_tags: self.overwrite_tags,
            reason: self.reason@,
        }
    }
}

pub enum ResultView {
    Organized(Seq<char>, Seq<char>),
    CachedSkip(Seq<char>, Seq<char>),
    ConflictResolved(Seq<char>, u32),
    Unsorted(Seq<char>, Seq<char>),
    Duplicate(Seq<char>, Seq<char>),
    AcousticDuplicate(Seq<char>, Seq<char>),
    Interrupted(Seq<char>),
    Error(Seq<char>, Seq<char>),
}

pub open spec fn result_view(r: ProcessResult) -> ResultView {
    match r {
        ProcessResult::Organized { from, to } => ResultView::Organized(from@, to@),
        ProcessResult::CachedSkip { from, to } => ResultView::CachedSkip(from@, to@),
        ProcessResult::ConflictResolved { path, kept_bitrate } => ResultView::ConflictResolved(path@, kept_bitrate),
        ProcessResult::Unsorted { from, to } => ResultView::Unsorted(from@, to@),
        ProcessResult::Duplicate { from, of } => ResultView::Duplicate(from@, of@),
        ProcessResult::AcousticDuplicate { from, of } => ResultView::AcousticDuplicate(from@, of@),
        ProcessResult::Interrupted { path } => ResultView::Interrupted(path@),
        ProcessResult::Error { path, reason } => ResultView::Error(path@, reason@),
    }
}

pub enum EffectView {
    TrashFile(Seq<char>),
    RemoveFile(Seq<char>),
    RecordProcessed(Seq<char>, i64, i64, Option<Seq<char>>, Seq<char>, Option<Seq<char>>),
    RecordContent(Seq<char>, Seq<char>),
    UpsertAcoustic(Seq<char>, Seq<char>, u32),
    WriteTags(Seq<char>, TrackInfoView, bool),
}

pub open spec fn effect_view(e: Effect) -> EffectView {
    match e {
        Effect::TrashFile { path } => EffectView::TrashFile(path@),
        Effect::RemoveFile { path } => EffectView::RemoveFile(path@),
        Effect::RecordProcessed { source, mtime, size, dest, status, note } =>
            EffectView::RecordProcessed(source@, mtime, size, opt_text(dest), status@, opt_text(note)),
        Effect::RecordContent { hash, dest } => EffectView::RecordContent(hash@, dest@),
        Effect::UpsertAcoustic { recording_id, dest, bitrate } => EffectView::UpsertAcoustic(recording_id@, dest@, bitrate),
        Effect::WriteTags { dest, info, overwrite } => EffectView::WriteTags(dest@, info@, overwrite),
    }
}

pub enum RequestView {
    ReadMetadata,
    LookupProcessed(Seq<char>, i64, i64),
    HashContent,
    LookupContent(Seq<char>),
    ResolveRecording,
    InspectAcoustic(Seq<char>),
    Enrich,
    Transfer(Seq<char>, bool),
    Quarantine(Seq<char>),
    Done(ResultView),
}

pub open spec fn request_view(r: Request) -> RequestView {
    match r {
        Request::ReadMetadata => RequestView::ReadMetadata,
        Request::LookupProcessed { source, mtime, size } => RequestView::LookupProcessed(source@, mtime, size),
        Request::HashContent => RequestView::HashContent,
        Request::LookupContent { hash } => RequestView::LookupContent(hash@),
        Request::ResolveRecording => RequestView::ResolveRecording,
        Request::InspectAcoustic { recording_id } => RequestView::InspectAcoustic(recording_id@),
        Request::Enrich => RequestView::Enrich,
        Request::Transfer { dest, do_move } => RequestView::Transfer(dest@, do_move),
        Request::Quarantine { dest } => RequestView::Quarantine(dest@),
        Request::Done { result } => RequestView::Done(result_view(result)),
    }
}

pub struct StepView {
    pub effects: Seq<EffectView>,
    pub request: RequestView,
}

pub open spec fn step_view(s: FileStep) -> StepView {
    StepView {
        effects: Seq::new(s.effects@.len(), |i: int| effect_view(s.effects@[i])),
        request: request_view(s.request),
    }
}

// ---------------------------------------------------------------------------
// Transitions
// ---------------------------------------------------------------------------

pub open spec fn contains(s: Seq<char>, pat: Seq<char>) -> bool {
    find_sub(s, pat) is Some
}

pub open spec fn at(r: FileRunView, stage: FileStage) -> FileRunView {
    FileRunView { stage, ..r }
}

pub open spec fn ask(effects: Seq<EffectView>, request: RequestView) -> StepView {
    StepView { effects, request }
}

/// The cache record of the file, when its modification time is known.
pub open spec fn record(r: FileRunView, dest: Option<Seq<char>>, status: Seq<char>, note: Option<Seq<char>>) -> Seq<EffectView> {
    match r.mtime {
        Some(mt) => seq![EffectView::RecordProcessed(r.file, mt, r.size, dest, status, note)],
        None => Seq::empty(),
    }
}

pub open spec fn done(r: FileRunView, effects: Seq<EffectView>, result: ResultView) -> (FileRunView, StepView) {
    (at(r, FileStage::Done), ask(effects, RequestView::Done(result)))
}

pub open spec fn to_enrich(r: FileRunView) -> (FileRunView, StepView) {
    (at(r, FileStage::Enrich), ask(Seq::empty(), RequestView::Enrich))
}

/// Acoustic deduplication needs fpcalc and is off in dry-run mode.
pub open spec fn to_acoustic(r: FileRunView) -> (FileRunView, StepView) {
    if r.opts.audio_dedup && !r.opts.dry_run {
        (at(r, FileStage::Recording), ask(Seq::empty(), RequestView::ResolveRecording))
    } else {
        to_enrich(r)
    }
}

/// Content deduplication is off in dry-run mode.
pub open spec fn to_dedup(r: FileRunView) -> (FileRunView, StepView) {
    if r.opts.dedup && !r.opts.dry_run {
        (at(r, FileStage::Hash), ask(Seq::empty(), RequestView::HashContent))
    } else {
        to_acoustic(r)
    }
}

/// An error: recorded with its reason (except in a dry run, which leaves the
/// cache alone); the file stays where it was.
pub open spec fn fail(r: FileRunView, dest: Option<Seq<char>>, reason: Seq<char>) -> (FileRunView, StepView) {
    done(r, if r.opts.dry_run { Seq::empty() } else { record(r, dest, "error"@, Some(reason)) },
        ResultView::Error(r.file, reason))
}

/// An error due to the file itself: in move mode it goes to `_errors/`
/// (not in a dry run, which moves nothing).
pub open spec fn quarantine(r: FileRunView, reason: Seq<char>) -> (FileRunView, StepView) {
    if r.opts.do_move && !r.opts.dry_run {
        (FileRunView { stage: FileStage::Quarantine, reason, ..r },
            ask(Seq::empty(), RequestView::Quarantine(error_destination_spec(r.target, r.file, r.source))))
    } else {
        fail(r, None, reason)
    }
}

pub open spec fn start_spec(file: Seq<char>, source: Seq<char>, target: Seq<char>, opts: OptsView, interrupted: bool) -> (FileRunView, StepView) {
    let r = FileRunView {
        stage: FileStage::Metadata,
        file,
        source,
        target,
        opts,
        mtime: None,
        size: 0,
        content_hash: None,
        acoustic: None,
        info: crate::models::empty_info(),
        dest: Seq::empty(),
        overwrite_tags: false,
        reason: Seq::empty(),
    };
    if interrupted {
        done(r, Seq::empty(), ResultView::Interrupted(file))
    } else {
        (r, ask(Seq::empty(), RequestView::ReadMetadata))
    }
}

/// The destination of an enriched file: low-confidence matches go under
/// `_review/` when quarantine is on, except those already under `_unsorted`.
pub open spec fn routed(r: FileRunView, info: TrackInfoView, confidence: Confidence, entries: Seq<Seq<char>>) -> Seq<char> {
    let d = destination(r.target, info, r.file, r.source, r.opts.template, entries);
    if r.opts.quarantine && confidence == Confidence::Low && !contains(d, "_unsorted"@) {
        review_destination(r.target, d)
    } else {
        d
    }
}

pub open spec fn after_enrich(r: FileRunView, info: TrackInfoView, confidence: Confidence, entries: Seq<Seq<char>>) -> (FileRunView, StepView) {
    let dest = routed(r, info, confidence, entries);
    let r2 = FileRunView { info, dest, overwrite_tags: r.opts.fix_tags && confidence == Confidence::High, ..r };
    if r.opts.dry_run {
        if contains(dest, "_unsorted"@) {
            done(r2, Seq::empty(), ResultView::Unsorted(r.file, dest))
        } else {
            done(r2, Seq::empty(), ResultView::Organized(r.file, dest))
        }
    } else {
        (at(r2, FileStage::Transfer), ask(Seq::empty(), RequestView::Transfer(dest, r.opts.do_move)))
    }
}

/// What a filed copy leaves in the cache: its content hash and its recording.
pub open spec fn filed_records(r: FileRunView) -> Seq<EffectView> {
    (match r.content_hash {
        Some(h) => seq![EffectView::RecordContent(h, r.dest)],
        None => Seq::empty(),
    }) + (match r.acoustic {
        Some((id, q)) => seq![EffectView::UpsertAcoustic(id, r.dest, q)],
        None => Seq::empty(),
    })
}

pub open spec fn after_transfer(r: FileRunView, t: Result<CopyResult, String>) -> (FileRunView, StepView) {
    let tags = seq![EffectView::WriteTags(r.dest, r.info, r.overwrite_tags)];
    match t {
        Ok(CopyResult::Copied) => if contains(r.dest, "_unsorted"@) {
            done(r, tags + record(r, Some(r.dest), "unsorted"@, None), ResultView::Unsorted(r.file, r.dest))
        } else {
            done(r, tags + record(r, Some(r.dest), "organized"@, None) + filed_records(r),
                ResultView::Organized(r.file, r.dest))
        },
        Ok(CopyResult::Replaced { bitrate }) =>
            done(r, tags + record(r, Some(r.dest), "conflict"@, None) + filed_records(r),
                ResultView::ConflictResolved(r.dest, bitrate)),
        Ok(CopyResult::Skipped { .. }) =>
            done(r, record(r, Some(r.dest), "organized"@, None), ResultView::Organized(r.file, r.dest)),
        Err(e) => quarantine(r, e@),
    }
}

pub open spec fn event_age_fits(e: FileEvent) -> bool {
    match e {
        FileEvent::Processed { entry: Some(en), now } => i64::MIN <= now - en.last_seen <= i64::MAX,
        _ => true,
    }
}

/// One step: what the observation `e` does to the run `r`. An observation of
/// another kind than the one awaited counts as a failure to observe.
pub open spec fn step_spec(r: FileRunView, e: FileEvent) -> (FileRunView, StepView) {
    match r.stage {
        FileStage::Metadata => match e {
            FileEvent::Metadata(Some((mtime, size))) => {
                let r2 = FileRunView { mtime, size, ..r };
                match mtime {
                    Some(mt) => (at(r2, FileStage::Processed),
                        ask(Seq::empty(), RequestView::LookupProcessed(r.file, mt, size))),
                    None => to_dedup(r2),
                }
            },
            _ => done(r, Seq::empty(), ResultView::Error(r.file, "Impossible de lire les métadonnées du fichier"@)),
        },
        FileStage::Processed => match e {
            FileEvent::Processed { entry: Some(en), now } => {
                let age = now - en.last_seen;
                if should_skip_spec(en.status@, age, r.opts.unsorted_ttl_days as int, r.opts.resume, r.opts.retry_unsorted)
                    && en.dest is Some && en.dest_exists {
                    done(r,
                        if trash_spec(en.status@, r.opts.do_move, true) && !r.opts.dry_run {
                            seq![EffectView::TrashFile(r.file)]
                        } else {
                            Seq::empty()
                        },
                        ResultView::CachedSkip(r.file, en.dest->0@))
                } else {
                    to_dedup(r)
                }
            },
            _ => to_dedup(r),
        },
        FileStage::Hash => match e {
            FileEvent::Hash(Some(h)) => (FileRunView { stage: FileStage::ContentOwner, content_hash: Some(h@), ..r },
                ask(Seq::empty(), RequestView::LookupContent(h@))),
            _ => to_acoustic(r),
        },
        FileStage::ContentOwner => match e {
            FileEvent::ContentOwner(Some((existing, true))) => done(r,
                (if r.opts.do_move { seq![EffectView::RemoveFile(r.file)] } else { Seq::empty() })
                    + record(r, Some(existing@), "organized"@, None),
                ResultView::Duplicate(r.file, existing@)),
            _ => to_acoustic(r),
        },
        FileStage::Recording => match e {
            FileEvent::Recording(Some(id)) => (FileRunView { stage: FileStage::Acoustic, acoustic: Some((id@, 0u32)), ..r },
                ask(Seq::empty(), RequestView::InspectAcoustic(id@))),
            _ => to_enrich(r),
        },
        FileStage::Acoustic => {
            let id = match r.acoustic { Some((id, _)) => id, None => Seq::empty() };
            let (q, ex) = match e {
                FileEvent::Acoustic { bitrate, existing } => (bitrate, existing),
                _ => (0u32, None),
            };
            let r2 = FileRunView { acoustic: Some((id, q)), ..r };
            match ex {
                Some(x) => if x.exists && !x.same_file {
                    if q > x.bitrate {
                        let (r3, s) = to_enrich(r2);
                        (r3, ask(seq![EffectView::TrashFile(x.path@)], s.request))
                    } else {
                        done(r2,
                            (if r.opts.do_move { seq![EffectView::TrashFile(r.file)] } else { Seq::empty() })
                                + record(r, Some(x.path@), "organized"@, None),
                            ResultView::AcousticDuplicate(r.file, x.path@))
                    }
                } else {
                    to_enrich(r2)
                },
                None => to_enrich(r2),
            }
        },
        FileStage::Enrich => match e {
            FileEvent::Enriched { outcome: EnrichOutcome::Enriched { info, confidence }, target_entries } =>
                after_enrich(r, info@, confidence, string_views(target_entries@)),
            FileEvent::Enriched { outcome: EnrichOutcome::Crashed { reason }, .. } => quarantine(r, reason@),
            FileEvent::Enriched { outcome: EnrichOutcome::Failed { reason }, .. } => fail(r, None, reason@),
            _ => fail(r, None, Seq::empty()),
        },
        FileStage::Transfer => match e {
            FileEvent::Transferred(t) => after_transfer(r, t),
            _ => quarantine(r, Seq::empty()),
        },
        FileStage::Quarantine => match e {
            FileEvent::Quarantined(true) => fail(r, Some(error_destination_spec(r.target, r.file, r.source)), r.reason),
            _ => fail(r, None, r.reason),
        },
        FileStage::Done => done(r, Seq::empty(), ResultView::Error(r.file, r.reason)),
    }
}

pub open spec fn same_run(a: FileRunView, b: FileRunView) -> bool {
    &&& a.stage == b.stage
    &&& a.file == b.file
    &&& a.source == b.source
    &&& a.target == b.target
    &&& a.opts == b.opts
    &&& a.mtime == b.mtime
    &&& a.size == b.size
    &&& a.content_hash == b.content_hash
    &&& a.acoustic == b.acoustic
    &&& a.info == b.info
    &&& a.dest == b.dest
    &&& a.overwrite_tags == b.overwrite_tags
    &&& a.reason == b.reason
}

pub open spec fn same_step(a: StepView, b: StepView) -> bool {
    a.effects =~~= b.effects && a.request == b.request
}

// ---------------------------------------------------------------------------
// Execution
// ---------------------------------------------------------------------------

fn str_copy(s: &String) -> (res: String)
    ensures
        res@ == s@,
{
    s.clone()
}

fn contains_lit(s: &String, lit: &str) -> (res: bool)
    requires
        lit@.len() > 0,
    ensures
        res == contains(s@, lit@),
{
    let v = chars_of(s.as_str());
    let p = chars_of(lit);
    find_sub_exec(v.as_slice(), p.as_slice()).is_some()
}

fn request_only(request: Request) -> (res: FileStep)
    ensures
        res.effects@.len() == 0,
        res.request == request,
{
    FileStep { effects: Vec::new(), request }
}

impl FileRun {
    fn record_into(&self, effects: &mut Vec<Effect>, dest: Option<String>, status: &str, note: Option<String>)
        ensures
            Seq::new(final(effects)@.len(), |i: int| effect_view(final(effects)@[i]))
                =~~= Seq::new(old(effects)@.len(), |i: int| effect_view(old(effects)@[i]))
                    + record(self@, opt_text(dest), status@, opt_text(note)),
    {
        let ghost before = Seq::new(effects@.len(), |i: int| effect_view(effects@[i]));
        match self.mtime {
            Some(mt) => {
                effects.push(Effect::RecordProcessed {
                    source: str_copy(&self.file),
                    mtime: mt,
                    size: self.size,
                    dest,
                    status: status.to_owned(),
                    note,
                });
            },
            None => {},
        }
        assert(Seq::new(effects@.len(), |i: int| effect_view(effects@[i])) =~~= before + record(self@, opt_text(dest), status@, opt_text(note)));
    }

    fn finish(&mut self, effects: Vec<Effect>, result: ProcessResult) -> (res: FileStep)
        ensures
            same_run(final(self)@, at(old(self)@, FileStage::Done)),
            res.effects@ == effects@,
            res.request == (Request::Done { result }),
    {
        self.stage = FileStage::Done;
        FileStep { effects, request: Request::Done { result } }
    }

    fn to_enrich(&mut self) -> (res: FileStep)
        ensures
            same_run(final(self)@, to_enrich(old(self)@).0),
            same_step(step_view(res), to_enrich(old(self)@).1),
    {
        self.stage = FileStage::Enrich;
        let s = request_only(Request::Enrich);
        assert(step_view(s).effects =~~= Seq::<EffectView>::empty());
        s
    }

    fn to_acoustic(&mut self) -> (res: FileStep)
        ensures
            same_run(final(self)@, to_acoustic(old(self)@).0),
            same_step(step_view(res), to_acoustic(old(self)@).1),
    {
        if self.opts.audio_dedup && !self.opts.dry_run {
            self.stage = FileStage::Recording;
            let s = request_only(Request::ResolveRecording);
            assert(step_view(s).effects =~~= Seq::<EffectView>::empty());
            s
        } else {
            self.to_enrich()
        }
    }

    fn to_dedup(&mut self) -> (res: FileStep)
        ensures
            same_run(final(self)@, to_dedup(old(self)@).0),
            same_step(step_view(res), to_dedup(old(self)@).1),
    {
        if self.opts.dedup && !self.opts.dry_run {
            self.stage = FileStage::Hash;
            let s = request_only(Request::HashContent);
            assert(step_view(s).effects =~~= Seq::<EffectView>::empty());
            s
        } else {
            self.to_acoustic()
        }
    }

    fn fail(&mut self, dest: Option<String>, reason: String) -> (res: FileStep)
        ensures
            same_run(final(self)@, fail(old(self)@, opt_text(dest), reason@).0),
            same_step(step_view(res), fail(old(self)@, opt_text(dest), reason@).1),
    {
        let mut effects: Vec<Effect> = Vec::new();
        if !self.opts.dry_run {
            let note = Some(str_copy(&reason));
            self.record_into(&mut effects, dest, "error", note);
        }
        proof { reveal_strlit("error"); }
        assert(Seq::new(effects@.len(), |i: int| effect_view(effects@[i]))
            =~~= fail(self@, opt_text(dest), reason@).1.effects);
        let result = ProcessResult::Error { path: str_copy(&self.file), reason };
        self.finish(effects, result)
    }

    fn quarantine(&mut self, reason: String) -> (res: FileStep)
        ensures
            same_run(final(self)@, quarantine(old(self)@, reason@).0),
            same_step(step_view(res), quarantine(old(self)@, reason@).1),
    {
        if self.opts.do_move && !self.opts.dry_run {
            let dest = error_destination(self.target.as_str(), self.file.as_str(), self.source.as_str());
            self.stage = FileStage::Quarantine;
            self.reason = reason;
            let s = request_only(Request::Quarantine { dest });
            assert(step_view(s).effects =~~= Seq::<EffectView>::empty());
            s
        } else {
            self.fail(None, reason)
        }
    }

    /// Opens the run of `file`, found under `source`, to be filed under
    /// `target`; an interrupted run ends at once.
    pub fn start(file: String, source: String, target: String, opts: RunOptions, interrupted: bool) -> (res: (FileRun, FileStep))
        ensures
            same_run(res.0@, start_spec(file@, source@, target@, opts_view(opts), interrupted).0),
            same_step(step_view(res.1), start_spec(file@, source@, target@, opts_view(opts), interrupted).1),
    {
        let mut run = FileRun {
            stage: FileStage::Metadata,
            file,
            source,
            target,
            opts,
            mtime: None,
            size: 0,
            content_hash: None,
            acoustic: None,
            info: TrackInfo::empty(),
            dest: String::new(),
            overwrite_tags: false,
            reason: String::new(),
        };
        if interrupted {
            let result = ProcessResult::Interrupted { path: str_copy(&run.file) };
            let s = run.finish(Vec::new(), result);
            assert(step_view(s).effects =~~= Seq::<EffectView>::empty());
            (run, s)
        } else {
            let s = request_only(Request::ReadMetadata);
            assert(step_view(s).effects =~~= Seq::<EffectView>::empty());
            (run, s)
        }
    }

    /// Whether the run is over.
    pub fn is_done(&self) -> (res: bool)
        ensures
            res == (self.stage == FileStage::Done),
    {
        self.stage == FileStage::Done
    }

    /// Takes what the caller observed and gives the next effects and request
    /// (see [`step_spec`]). The age of a cache entry must fit an `i64`.
    pub fn step(&mut self, event: FileEvent) -> (res: FileStep)
        requires
            old(self).stage != FileStage::Done,
            event_age_fits(event),
        ensures
            same_run(final(self)@, step_spec(old(self)@, event).0),
            same_step(step_view(res), step_spec(old(self)@, event).1),
    {
        match self.stage {
            FileStage::Metadata => self.on_metadata(event),
            FileStage::Processed => self.on_processed(event),
            FileStage::Hash => match event {
                FileEvent::Hash(Some(h)) => {
                    let hash = str_copy(&h);
                    self.content_hash = Some(h);
                    self.stage = FileStage::ContentOwner;
                    let s = request_only(Request::LookupContent { hash });
                    assert(step_view(s).effects =~~= Seq::<EffectView>::empty());
                    s
                },
                _ => self.to_acoustic(),
            },
            FileStage::ContentOwner => self.on_content_owner(event),
            FileStage::Recording => match event {
                FileEvent::Recording(Some(id)) => {
                    let recording_id = str_copy(&id);
                    self.acoustic = Some((id, 0));
                    self.stage = FileStage::Acoustic;
                    let s = request_only(Request::InspectAcoustic { recording_id });
                    assert(step_view(s).effects =~~= Seq::<EffectView>::empty());
                    s
                },
                _ => self.to_enrich(),
            },
            FileStage::Acoustic => self.on_acoustic(event),
            FileStage::Enrich => match event {
                FileEvent::Enriched { outcome: EnrichOutcome::Enriched { info, confidence }, target_entries } =>
                    self.on_enriched(info, confidence, &target_entries),
                FileEvent::Enriched { outcome: EnrichOutcome::Crashed { reason }, .. } => self.quarantine(reason),
                FileEvent::Enriched { outcome: EnrichOutcome::Failed { reason }, .. } => self.fail(None, reason),
                _ => self.fail(None, String::new()),
            },
            FileStage::Transfer => match event {
                FileEvent::Transferred(t) => self.on_transferred(t),
                _ => self.quarantine(String::new()),
            },
            FileStage::Quarantine => {
                let reason = str_copy(&self.reason);
                match event {
                    FileEvent::Quarantined(true) => {
                        let d = error_destination(self.target.as_str(), self.file.as_str(), self.source.as_str());
                        self.fail(Some(d), reason)
                    },
                    _ => self.fail(None, reason),
                }
            },
            FileStage::Done => {
                let reason = str_copy(&self.reason);
                let result = ProcessResult::Error { path: str_copy(&self.file), reason };
                let s = self.finish(Vec::new(), result);
                assert(step_view(s).effects =~~= Seq::<EffectView>::empty());
                s
            },
        }
    }

    fn on_metadata(&mut self, event: FileEvent) -> (res: FileStep)
        requires
            old(self).stage == FileStage::Metadata,
        ensures
            same_run(final(self)@, step_spec(old(self)@, event).0),
            same_step(step_view(res), step_spec(old(self)@, event).1),
    {
        match event {
            FileEvent::Metadata(Some((mtime, size))) => {
                self.mtime = mtime;
                self.size = size;
                match mtime {
                    Some(mt) => {
                        self.stage = FileStage::Processed;
                        let s = request_only(Request::LookupProcessed { source: str_copy(&self.file), mtime: mt, size });
                        assert(step_view(s).effects =~~= Seq::<EffectView>::empty());
                        s
                    },
                    None => self.to_dedup(),
                }
            },
            _ => {
                let reason = "Impossible de lire les métadonnées du fichier".to_owned();
                let result = ProcessResult::Error { path: str_copy(&self.file), reason };
                let s = self.finish(Vec::new(), result);
                assert(step_view(s).effects =~~= Seq::<EffectView>::empty());
                s
            },
        }
    }

    fn on_processed(&mut self, event: FileEvent) -> (res: FileStep)
        requires
            old(self).stage == FileStage::Processed,
            event_age_fits(event),
        ensures
            same_run(final(self)@, step_spec(old(self)@, event).0),
            same_step(step_view(res), step_spec(old(self)@, event).1),
    {
        match event {
            FileEvent::Processed { entry: Some(en), now } => {
                let age = now - en.last_seen;
                let skip = should_skip_cached(en.status.as_str(), age, self.opts.unsorted_ttl_days,
                    self.opts.resume, self.opts.retry_unsorted);
                if skip && en.dest_exists {
                    if let Some(d) = en.dest {
                        let mut effects: Vec<Effect> = Vec::new();
                        if should_trash_redundant_source(en.status.as_str(), self.opts.do_move, true)
                            && !self.opts.dry_run {
                            effects.push(Effect::TrashFile { path: str_copy(&self.file) });
                        }
                        let ghost ev = Seq::new(effects@.len(), |i: int| effect_view(effects@[i]));
                        assert(ev =~~= (if trash_spec(en.status@, self.opts.do_move, true) && !self.opts.dry_run {
                            seq![EffectView::TrashFile(self.file@)]
                        } else {
                            Seq::<EffectView>::empty()
                        }));
                        let result = ProcessResult::CachedSkip { from: str_copy(&self.file), to: d };
                        return self.finish(effects, result);
                    }
                }
                self.to_dedup()
            },
            _ => self.to_dedup(),
        }
    }

    fn on_content_owner(&mut self, event: FileEvent) -> (res: FileStep)
        requires
            old(self).stage == FileStage::ContentOwner,
        ensures
            same_run(final(self)@, step_spec(old(self)@, event).0),
            same_step(step_view(res), step_spec(old(self)@, event).1),
    {
        match event {
            FileEvent::ContentOwner(Some((existing, true))) => {
                let mut effects: Vec<Effect> = Vec::new();
                if self.opts.do_move {
                    effects.push(Effect::RemoveFile { path: str_copy(&self.file) });
                }
                let ghost ev = Seq::new(effects@.len(), |i: int| effect_view(effects@[i]));
                assert(ev =~~= (if self.opts.do_move { seq![EffectView::RemoveFile(self.file@)] } else {
                    Seq::<EffectView>::empty()
                }));
                self.record_into(&mut effects, Some(str_copy(&existing)), "organized", None);
                proof { reveal_strlit("organized"); }
                let result = ProcessResult::Duplicate { from: str_copy(&self.file), of: existing };
                self.finish(effects, result)
            },
            _ => self.to_acoustic(),
        }
    }

    fn on_acoustic(&mut self, event: FileEvent) -> (res: FileStep)
        requires
            old(self).stage == FileStage::Acoustic,
        ensures
            same_run(final(self)@, step_spec(old(self)@, event).0),
            same_step(step_view(res), step_spec(old(self)@, event).1),
    {
        let id = match &self.acoustic {
            Some((id, _)) => str_copy(id),
            None => String::new(),
        };
        let (q, ex) = match event {
            FileEvent::Acoustic { bitrate, existing } => (bitrate, existing),
            _ => (0u32, None),
        };
        self.acoustic = Some((id, q));
        match ex {
            Some(x) => {
                if x.exists && !x.same_file {
                    if q > x.bitrate {
                        let mut s = self.to_enrich();
                        s.effects.push(Effect::TrashFile { path: x.path });
                        assert(step_view(s).effects =~~= seq![EffectView::TrashFile(x.path@)]);
                        s
                    } else {
                        let mut effects: Vec<Effect> = Vec::new();
                        if self.opts.do_move {
                            effects.push(Effect::TrashFile { path: str_copy(&self.file) });
                        }
                        let ghost ev = Seq::new(effects@.len(), |i: int| effect_view(effects@[i]));
                        assert(ev =~~= (if self.opts.do_move { seq![EffectView::TrashFile(self.file@)] } else {
                            Seq::<EffectView>::empty()
                        }));
                        self.record_into(&mut effects, Some(str_copy(&x.path)), "organized", None);
                        proof { reveal_strlit("organized"); }
                        let result = ProcessResult::AcousticDuplicate { from: str_copy(&self.file), of: x.path };
                        self.finish(effects, result)
                    }
                } else {
                    self.to_enrich()
                }
            },
            None => self.to_enrich(),
        }
    }

    fn on_enriched(&mut self, info: TrackInfo, confidence: Confidence, entries: &Vec<String>) -> (res: FileStep)
        requires
            old(self).stage == FileStage::Enrich,
        ensures
            same_run(final(self)@, after_enrich(old(self)@, info@, confidence, string_views(entries@)).0),
            same_step(step_view(res), after_enrich(old(self)@, info@, confidence, string_views(entries@)).1),
    {
        let d = build_destination_path_with_template(self.target.as_str(), &info, self.file.as_str(),
            self.source.as_str(), self.opts.template.as_str(), entries);
        proof { reveal_strlit("_unsorted"); }
        let dest = if self.opts.quarantine && confidence == Confidence::Low && !contains_lit(&d, "_unsorted") {
            redirect_to_review(self.target.as_str(), d.as_str())
        } else {
            d
        };
        self.overwrite_tags = self.opts.fix_tags && confidence == Confidence::High;
        self.info = info;
        self.dest = str_copy(&dest);
        if self.opts.dry_run {
            let result = if contains_lit(&dest, "_unsorted") {
                ProcessResult::Unsorted { from: str_copy(&self.file), to: dest }
            } else {
                ProcessResult::Organized { from: str_copy(&self.file), to: dest }
            };
            let s = self.finish(Vec::new(), result);
            assert(step_view(s).effects =~~= Seq::<EffectView>::empty());
            s
        } else {
            self.stage = FileStage::Transfer;
            let s = request_only(Request::Transfer { dest, do_move: self.opts.do_move });
            assert(step_view(s).effects =~~= Seq::<EffectView>::empty());
            s
        }
    }

    fn push_filed_records(&self, effects: &mut Vec<Effect>)
        ensures
            Seq::new(final(effects)@.len(), |i: int| effect_view(final(effects)@[i]))
                =~~= Seq::new(old(effects)@.len(), |i: int| effect_view(old(effects)@[i])) + filed_records(self@),
    {
        let ghost before = Seq::new(effects@.len(), |i: int| effect_view(effects@[i]));
        if let Some(h) = &self.content_hash {
            effects.push(Effect::RecordContent { hash: str_copy(h), dest: str_copy(&self.dest) });
        }
        let ghost mid = Seq::new(effects@.len(), |i: int| effect_view(effects@[i]));
        assert(mid =~~= before + (match self@.content_hash {
            Some(h) => seq![EffectView::RecordContent(h, self@.dest)],
            None => Seq::<EffectView>::empty(),
        }));
        if let Some((id, q)) = &self.acoustic {
            effects.push(Effect::UpsertAcoustic { recording_id: str_copy(id), dest: str_copy(&self.dest), bitrate: *q });
        }
        assert(Seq::new(effects@.len(), |i: int| effect_view(effects@[i])) =~~= mid + (match self@.acoustic {
            Some((id, q)) => seq![EffectView::UpsertAcoustic(id, self@.dest, q)],
            None => Seq::<EffectView>::empty(),
        }));
    }

    fn on_transferred(&mut self, t: Result<CopyResult, String>) -> (res: FileStep)
        requires
            old(self).stage == FileStage::Transfer,
        ensures
            same_run(final(self)@, after_transfer(old(self)@, t).0),
            same_step(step_view(res), after_transfer(old(self)@, t).1),
    {
        proof {
            reveal_strlit("_unsorted");
            reveal_strlit("unsorted");
            reveal_strlit("organized");
            reveal_strlit("conflict");
        }
        match t {
            Ok(CopyResult::Copied) => {
                let mut effects: Vec<Effect> = Vec::new();
                effects.push(Effect::WriteTags { dest: str_copy(&self.dest), info: self.info.duplicate(), overwrite: self.overwrite_tags });
                if contains_lit(&self.dest, "_unsorted") {
                    self.record_into(&mut effects, Some(str_copy(&self.dest)), "unsorted", None);
                    let result = ProcessResult::Unsorted { from: str_copy(&self.file), to: str_copy(&self.dest) };
                    self.finish(effects, result)
                } else {
                    self.record_into(&mut effects, Some(str_copy(&self.dest)), "organized", None);
                    self.push_filed_records(&mut effects);
                    let result = ProcessResult::Organized { from: str_copy(&self.file), to: str_copy(&self.dest) };
                    self.finish(effects, result)
                }
            },
            Ok(CopyResult::Replaced { bitrate }) => {
                let mut effects: Vec<Effect> = Vec::new();
                effects.push(Effect::WriteTags { dest: str_copy(&self.dest), info: self.info.duplicate(), overwrite: self.overwrite_tags });
                self.record_into(&mut effects, Some(str_copy(&self.dest)), "conflict", None);
                self.push_filed_records(&mut effects);
                let result = ProcessResult::ConflictResolved { path: str_copy(&self.dest), kept_bitrate: bitrate };
                self.finish(effects, result)
            },
            Ok(CopyResult::Skipped { .. }) => {
                let mut effects: Vec<Effect> = Vec::new();
                self.record_into(&mut effects, Some(str_copy(&self.dest)), "organized", None);
                let result = ProcessResult::Organized { from: str_copy(&self.file), to: str_copy(&self.dest) };
                self.finish(effects, result)
            },
            Err(e) => self.quarantine(e),
        }
    }
}

// ---------------------------------------------------------------------------
// Laws
// ---------------------------------------------------------------------------

pub open spec fn stage_rank(s: FileStage) -> int {
    match s {
        FileStage::Metadata => 0,
        FileStage::Processed => 1,
        FileStage::Hash => 2,
        FileStage::ContentOwner => 3,
        FileStage::Recording => 4,
        FileStage::Acoustic => 5,
        FileStage::Enrich => 6,
        FileStage::Transfer => 7,
        FileStage::Quarantine => 8,
        FileStage::Done => 9,
    }
}

/// Every step moves the run forward, so a file is done after at most nine
/// observations; the run is over exactly when the request is `Done`.
pub proof fn law_file_run_progresses(r: FileRunView, e: FileEvent)
    requires
        r.stage != FileStage::Done,
    ensures
        stage_rank(step_spec(r, e).0.stage) > stage_rank(r.stage),
        (step_spec(r, e).0.stage == FileStage::Done) == (step_spec(r, e).1.request is Done),
{
}

/// The stages a dry run can be in: it never hashes, fingerprints, copies,
/// moves nor quarantines, so it goes from the metadata and the cache check
/// straight to the enrichment.
pub open spec fn dry_stage_ok(r: FileRunView) -> bool {
    r.opts.dry_run ==> (r.stage == FileStage::Metadata || r.stage == FileStage::Processed
        || r.stage == FileStage::Enrich || r.stage == FileStage::Done)
}

/// Every run starts in a stage a dry run may be in.
pub proof fn law_dry_run_start(file: Seq<char>, source: Seq<char>, target: Seq<char>, opts: OptsView, interrupted: bool)
    ensures
        dry_stage_ok(start_spec(file, source, target, opts, interrupted).0),
        start_spec(file, source, target, opts, interrupted).0.opts == opts,
        start_spec(file, source, target, opts, interrupted).1.effects.len() == 0,
{
}

/// A dry run touches no file and no cache record: whatever it observes, no
/// step trashes, deletes or writes a file, records a processed file, a
/// content hash or a recording, nor asks for a hash, a fingerprint, a copy,
/// a move or a quarantine; and it stays in the stages of a dry run.
pub proof fn law_dry_run_writes_nothing(r: FileRunView, e: FileEvent)
    requires
        r.opts.dry_run,
        dry_stage_ok(r),
    ensures
        step_spec(r, e).1.effects.len() == 0,
        step_spec(r, e).0.opts == r.opts,
        dry_stage_ok(step_spec(r, e).0),
        !(step_spec(r, e).1.request is Transfer),
        !(step_spec(r, e).1.request is Quarantine),
        !(step_spec(r, e).1.request is HashContent),
        !(step_spec(r, e).1.request is LookupContent),
        !(step_spec(r, e).1.request is ResolveRecording),
        !(step_spec(r, e).1.request is InspectAcoustic),
{
}

/// In copy mode the source is never trashed nor deleted, and a quarantine is
/// never asked (the copy of a recording already filed elsewhere may still be
/// replaced by a better one).
pub proof fn law_copy_mode_keeps_source(r: FileRunView, e: FileEvent)
    requires
        !r.opts.do_move,
        e matches FileEvent::Acoustic { existing: Some(x), .. } ==> x.path@ != r.file,
    ensures
        forall|i: int| 0 <= i < step_spec(r, e).1.effects.len() ==> (#[trigger] step_spec(r, e).1.effects[i]
            != EffectView::TrashFile(r.file) && step_spec(r, e).1.effects[i] != EffectView::RemoveFile(r.file)),
        !(step_spec(r, e).1.request is Quarantine),
{
}

/// A low-confidence match is never filed in the main tree when quarantine is
/// on: it goes under `_review/` unless it is already under `_unsorted`; high
/// and medium confidence matches are filed directly.
pub proof fn law_low_confidence_goes_to_review(r: FileRunView, info: TrackInfoView, entries: Seq<Seq<char>>)
    requires
        r.opts.quarantine,
    ensures
        !contains(destination(r.target, info, r.file, r.source, r.opts.template, entries), "_unsorted"@)
            ==> routed(r, info, Confidence::Low, entries) == review_destination(
                r.target, destination(r.target, info, r.file, r.source, r.opts.template, entries)),
        routed(r, info, Confidence::High, entries) == destination(r.target, info, r.file, r.source, r.opts.template, entries),
        routed(r, info, Confidence::Medium, entries) == destination(r.target, info, r.file, r.source, r.opts.template, entries),
{
}

/// Tags already in a file are overwritten only with `--fix-tags` and a sure
/// match. Once a file (not in a dry run) is enriched with `confidence`, the
/// run asks for its transfer, and whatever the transfer reports, every tag
/// write of the next step carries the overwrite flag
/// `fix_tags && confidence == High`; a copy writes the enriched tags first.
/// Without `--fix-tags`, tags already present are never overwritten.
pub proof fn law_overwrite_only_with_fix_tags(
    r: FileRunView,
    info: TrackInfo,
    confidence: Confidence,
    target_entries: Vec<String>,
    e: FileEvent,
)
    requires
        r.stage == FileStage::Enrich,
        !r.opts.dry_run,
    ensures
        ({
            let e1 = FileEvent::Enriched { outcome: EnrichOutcome::Enriched { info, confidence }, target_entries };
            let r1 = step_spec(r, e1).0;
            let flag = r.opts.fix_tags && confidence == Confidence::High;
            let s = step_spec(r1, e).1;
            &&& r1.stage == FileStage::Transfer
            &&& r1.overwrite_tags == flag
            &&& !r.opts.fix_tags ==> !r1.overwrite_tags
            &&& forall|i: int| 0 <= i < s.effects.len() ==>
                (#[trigger] s.effects[i] matches EffectView::WriteTags(_, _, ow) ==> ow == flag)
            &&& e matches FileEvent::Transferred(Ok(CopyResult::Copied)) ==>
                s.effects.len() > 0 && s.effects[0] == EffectView::WriteTags(r1.dest, info@, flag)
        }),
{
}

/// The run after the observations `events`, in order.
pub open spec fn file_replay(r: FileRunView, events: Seq<FileEvent>) -> FileRunView
    decreases events.len(),
{
    if events.len() == 0 {
        r
    } else {
        step_spec(file_replay(r, events.drop_last()), events.last()).0
    }
}

/// A request that reads or writes what a dry run must leave alone.
pub open spec fn dry_run_forbidden(q: RequestView) -> bool {
    q is Transfer || q is Quarantine || q is HashContent || q is LookupContent || q is ResolveRecording
        || q is InspectAcoustic
}

proof fn lemma_dry_replay(r: FileRunView, events: Seq<FileEvent>)
    requires
        r.opts.dry_run,
        dry_stage_ok(r),
    ensures
        file_replay(r, events).opts == r.opts,
        dry_stage_ok(file_replay(r, events)),
    decreases events.len(),
{
    if events.len() > 0 {
        lemma_dry_replay(r, events.drop_last());
        law_dry_run_writes_nothing(file_replay(r, events.drop_last()), events.last());
    }
}

/// A whole dry run touches no file and no cache record: from its start and
/// whatever it observes afterwards, no step has a side effect (trash,
/// deletion, tag writing, cache record) or asks for a copy, a move, a
/// quarantine, a hash or a fingerprint.
pub proof fn law_dry_run_whole(
    file: Seq<char>,
    source: Seq<char>,
    target: Seq<char>,
    opts: OptsView,
    interrupted: bool,
    events: Seq<FileEvent>,
)
    requires
        opts.dry_run,
    ensures
        start_spec(file, source, target, opts, interrupted).1.effects.len() == 0,
        !dry_run_forbidden(start_spec(file, source, target, opts, interrupted).1.request),
        ({
            let r0 = start_spec(file, source, target, opts, interrupted).0;
            let s = step_spec(file_replay(r0, events.drop_last()), events.last()).1;
            events.len() > 0 ==> s.effects.len() == 0 && !dry_run_forbidden(s.request)
        }),
{
    law_dry_run_start(file, source, target, opts, interrupted);
    let r0 = start_spec(file, source, target, opts, interrupted).0;
    if events.len() > 0 {
        lemma_dry_replay(r0, events.drop_last());
        law_dry_run_writes_nothing(file_replay(r0, events.drop_last()), events.last());
    }
}

// ---------------------------------------------------------------------------
// Summary
// ---------------------------------------------------------------------------

/// Number of files per outcome.
#[derive(Debug, Clone, Copy, PartialEq, Eq, Structural)]
pub struct RunSummary {
    pub organized: usize,
    pub cached: usize,
    pub conflicts: usize,
    pub unsorted: usize,
    pub duplicates: usize,
    pub acoustic_duplicates: usize,
    pub interrupted: usize,
    pub errors: usize,
}

pub open spec fn kind_of(r: ProcessResult) -> int {
    match r {
        ProcessResult::Organized { .. } => 0,
        ProcessResult::CachedSkip { .. } => 1,
        ProcessResult::ConflictResolved { .. } => 2,
        ProcessResult::Unsorted { .. } => 3,
        ProcessResult::Duplicate { .. } => 4,
        ProcessResult::AcousticDuplicate { .. } => 5,
        ProcessResult::Interrupted { .. } => 6,
        ProcessResult::Error { .. } => 7,
    }
}

/// Number of results of kind `k`.
pub open spec fn count_kind(rs: Seq<ProcessResult>, k: int) -> nat
    decreases rs.len(),
{
    if rs.len() == 0 {
        0
    } else {
        count_kind(rs.drop_last(), k) + if kind_of(rs.last()) == k { 1nat } else { 0nat }
    }
}

pub open spec fn summary_of(rs: Seq<ProcessResult>) -> RunSummary {
    RunSummary {
        organized: count_kind(rs, 0) as usize,
        cached: count_kind(rs, 1) as usize,
        conflicts: count_kind(rs, 2) as usize,
        unsorted: count_kind(rs, 3) as usize,
        duplicates: count_kind(rs, 4) as usize,
        acoustic_duplicates: count_kind(rs, 5) as usize,
        interrupted: count_kind(rs, 6) as usize,
        errors: count_kind(rs, 7) as usize,
    }
}

pub open spec fn total(s: RunSummary) -> int {
    s.organized + s.cached + s.conflicts + s.unsorted + s.duplicates + s.acoustic_duplicates
        + s.interrupted + s.errors
}

pub proof fn lemma_count_total(rs: Seq<ProcessResult>)
    ensures
        count_kind(rs, 0) + count_kind(rs, 1) + count_kind(rs, 2) + count_kind(rs, 3) + count_kind(rs, 4)
            + count_kind(rs, 5) + count_kind(rs, 6) + count_kind(rs, 7) == rs.len(),
    decreases rs.len(),
{
    if rs.len() > 0 {
        lemma_count_total(rs.drop_last());
    }
}

/// Every file is counted once, under its outcome.
pub proof fn law_summary_counts_every_file(rs: Seq<ProcessResult>)
    requires
        rs.len() <= usize::MAX,
    ensures
        total(summary_of(rs)) == rs.len(),
{
    lemma_count_total(rs);
}

/// Counts the outcomes of a run.
pub fn summarize(results: &Vec<ProcessResult>) -> (res: RunSummary)
    ensures
        res == summary_of(results@),
{
    let mut s = RunSummary {
        organized: 0,
        cached: 0,
        conflicts: 0,
        unsorted: 0,
        duplicates: 0,
        acoustic_duplicates: 0,
        interrupted: 0,
        errors: 0,
    };
    let mut i: usize = 0;
    while i < results.len()
        invariant
            i <= results@.len(),
            s == summary_of(results@.take(i as int)),
            count_kind(results@.take(i as int), 0) + count_kind(results@.take(i as int), 1)
                + count_kind(results@.take(i as int), 2) + count_kind(results@.take(i as int), 3)
                + count_kind(results@.take(i as int), 4) + count_kind(results@.take(i as int), 5)
                + count_kind(results@.take(i as int), 6) + count_kind(results@.take(i as int), 7) == i,
        decreases results@.len() - i,
    {
        let ghost pre = results@.take(i as int);
        assert(results@.take(i + 1).drop_last() =~= pre);
        proof { lemma_count_total(results@.take(i + 1)); }
        match &results[i] {
            ProcessResult::Organized { .. } => s.organized = s.organized + 1,
            ProcessResult::CachedSkip { .. } => s.cached = s.cached + 1,
            ProcessResult::ConflictResolved { .. } => s.conflicts = s.conflicts + 1,
            ProcessResult::Unsorted { .. } => s.unsorted = s.unsorted + 1,
            ProcessResult::Duplicate { .. } => s.duplicates = s.duplicates + 1,
            ProcessResult::AcousticDuplicate { .. } => s.acoustic_duplicates = s.acoustic_duplicates + 1,
            ProcessResult::Interrupted { .. } => s.interrupted = s.interrupted + 1,
            ProcessResult::Error { .. } => s.errors = s.errors + 1,
        }
        i += 1;
    }
    assert(results@.take(results@.len() as int) =~= results@);
    s
}

} // verus!
