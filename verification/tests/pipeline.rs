use music_sorter::models::{Confidence, ProcessResult, TrackInfo};
use music_sorter::organizer::CopyResult;
use music_sorter::pipeline::{
    should_skip_cached, should_trash_redundant_source, summarize, CachedEntry, Effect, EnrichOutcome, FileEvent,
    FileRun, Request, RunOptions,
};

#[test]
fn test_trash_redundant_source_decision() {
    assert!(should_trash_redundant_source("organized", true, true));
    assert!(should_trash_redundant_source("conflict", true, true));
    assert!(!should_trash_redundant_source("organized", false, true));
    assert!(!should_trash_redundant_source("organized", true, false));
    assert!(!should_trash_redundant_source("unsorted", true, true));
}

#[test]
fn test_skip_organized_always() {
    assert!(should_skip_cached("organized", 999_999_999, 30, false, false));
    assert!(should_skip_cached("conflict", 999_999_999, 30, false, false));
}

#[test]
fn test_skip_unsorted_within_ttl() {
    assert!(should_skip_cached("unsorted", 10 * 86400, 30, false, false));
}

#[test]
fn test_no_skip_unsorted_past_ttl() {
    assert!(!should_skip_cached("unsorted", 40 * 86400, 30, false, false));
}

#[test]
fn test_resume_forces_skip_unsorted_past_ttl() {
    assert!(should_skip_cached("unsorted", 40 * 86400, 30, true, false));
}

#[test]
fn test_retry_unsorted_forces_reprocess() {
    assert!(!should_skip_cached("unsorted", 10 * 86400, 30, true, true));
    assert!(!should_skip_cached("unsorted", 5 * 86400, 30, false, true));
}

#[test]
fn test_no_skip_error() {
    assert!(!should_skip_cached("error", 0, 30, false, false));
    assert!(!should_skip_cached("error", 0, 30, true, false));
}

fn opts(do_move: bool, dry_run: bool) -> RunOptions {
    RunOptions {
        do_move,
        dry_run,
        resume: false,
        retry_unsorted: false,
        dedup: true,
        audio_dedup: false,
        quarantine: true,
        fix_tags: false,
        template: "{artist} - {year} - {album}/{track} - {title}".into(),
        unsorted_ttl_days: 30,
    }
}

fn start(do_move: bool, dry_run: bool) -> FileRun {
    let (run, step) = FileRun::start("/in/a.mp3".into(), "/in".into(), "/out".into(), opts(do_move, dry_run), false);
    assert!(matches!(step.request, Request::ReadMetadata));
    run
}

#[test]
fn interrupted_file_is_left_alone() {
    let (run, step) = FileRun::start("/in/a.mp3".into(), "/in".into(), "/out".into(), opts(true, false), true);
    assert!(run.is_done());
    assert!(step.effects.is_empty());
    assert!(matches!(step.request, Request::Done { result: ProcessResult::Interrupted { .. } }));
}

#[test]
fn unreadable_metadata_is_an_error() {
    let mut run = start(false, false);
    let step = run.step(FileEvent::Metadata(None));
    match step.request {
        Request::Done { result: ProcessResult::Error { reason, .. } } => {
            assert_eq!(reason, "Impossible de lire les métadonnées du fichier")
        },
        other => panic!("unexpected {:?}", other),
    }
}

#[test]
fn cached_organized_file_is_skipped_and_trashed_in_move_mode() {
    let mut run = start(true, false);
    let step = run.step(FileEvent::Metadata(Some((Some(100), 200))));
    assert!(matches!(step.request, Request::LookupProcessed { mtime: 100, size: 200, .. }));
    let entry = CachedEntry { status: "organized".into(), dest: Some("/out/x.mp3".into()), last_seen: 0, dest_exists: true };
    let step = run.step(FileEvent::Processed { entry: Some(entry), now: 1000 });
    assert_eq!(step.effects.len(), 1);
    assert!(matches!(&step.effects[0], Effect::TrashFile { path } if path == "/in/a.mp3"));
    assert!(matches!(step.request, Request::Done { result: ProcessResult::CachedSkip { .. } }));
}

#[test]
fn duplicate_content_is_recorded_and_removed_in_move_mode() {
    let mut run = start(true, false);
    run.step(FileEvent::Metadata(Some((Some(1), 2))));
    let step = run.step(FileEvent::Processed { entry: None, now: 5 });
    assert!(matches!(step.request, Request::HashContent));
    let step = run.step(FileEvent::Hash(Some("h".into())));
    assert!(matches!(step.request, Request::LookupContent { .. }));
    let step = run.step(FileEvent::ContentOwner(Some(("/out/y.mp3".into(), true))));
    assert_eq!(step.effects.len(), 2);
    assert!(matches!(&step.effects[0], Effect::RemoveFile { .. }));
    assert!(matches!(&step.effects[1], Effect::RecordProcessed { status, .. } if status == "organized"));
    assert!(matches!(step.request, Request::Done { result: ProcessResult::Duplicate { .. } }));
}

fn enriched(info: TrackInfo, confidence: Confidence) -> FileEvent {
    FileEvent::Enriched { outcome: EnrichOutcome::Enriched { info, confidence }, target_entries: vec![] }
}

fn full_info() -> TrackInfo {
    TrackInfo {
        artist: Some("BoC".into()),
        album: Some("Geogaddi".into()),
        title: Some("Music Is Math".into()),
        year: Some(2002),
        track_number: Some(2),
        ..Default::default()
    }
}

#[test]
fn low_confidence_goes_to_review_and_is_filed() {
    let mut run = start(false, false);
    run.step(FileEvent::Metadata(Some((Some(1), 2))));
    run.step(FileEvent::Processed { entry: None, now: 5 });
    let step = run.step(FileEvent::Hash(None));
    assert!(matches!(step.request, Request::Enrich));
    let step = run.step(enriched(full_info(), Confidence::Low));
    match &step.request {
        Request::Transfer { dest, do_move } => {
            assert_eq!(dest, "/out/_review/BoC - 2002 - Geogaddi/02 - Music Is Math.mp3");
            assert!(!do_move);
        },
        other => panic!("unexpected {:?}", other),
    }
    let step = run.step(FileEvent::Transferred(Ok(CopyResult::Copied)));
    assert!(matches!(&step.effects[0], Effect::WriteTags { overwrite: false, .. }));
    assert!(matches!(&step.effects[1], Effect::RecordProcessed { status, .. } if status == "organized"));
    assert!(matches!(step.request, Request::Done { result: ProcessResult::Organized { .. } }));
}

#[test]
fn dry_run_reports_without_transfer() {
    let mut run = start(false, true);
    let step = run.step(FileEvent::Metadata(Some((None, 2))));
    assert!(matches!(step.request, Request::Enrich));
    let step = run.step(enriched(TrackInfo::default(), Confidence::Low));
    assert!(step.effects.is_empty());
    match step.request {
        Request::Done { result: ProcessResult::Unsorted { to, .. } } => assert_eq!(to, "/out/_unsorted/a.mp3"),
        other => panic!("unexpected {:?}", other),
    }
}

#[test]
fn transfer_error_quarantines_in_move_mode() {
    let mut run = start(true, false);
    run.step(FileEvent::Metadata(Some((Some(1), 2))));
    run.step(FileEvent::Processed { entry: None, now: 5 });
    run.step(FileEvent::Hash(None));
    run.step(enriched(full_info(), Confidence::High));
    let step = run.step(FileEvent::Transferred(Err("disk full".into())));
    match &step.request {
        Request::Quarantine { dest } => assert_eq!(dest, "/out/_errors/a.mp3"),
        other => panic!("unexpected {:?}", other),
    }
    let step = run.step(FileEvent::Quarantined(true));
    assert!(matches!(&step.effects[0], Effect::RecordProcessed { status, dest: Some(d), note: Some(n), .. }
        if status == "error" && d == "/out/_errors/a.mp3" && n == "disk full"));
    assert!(matches!(step.request, Request::Done { result: ProcessResult::Error { .. } }));
}

#[test]
fn summary_counts_outcomes() {
    let results = vec![
        ProcessResult::Organized { from: "a".into(), to: "b".into() },
        ProcessResult::Organized { from: "c".into(), to: "d".into() },
        ProcessResult::Error { path: "e".into(), reason: "r".into() },
        ProcessResult::Interrupted { path: "f".into() },
    ];
    let s = summarize(&results);
    assert_eq!(s.organized, 2);
    assert_eq!(s.errors, 1);
    assert_eq!(s.interrupted, 1);
    assert_eq!(s.cached + s.conflicts + s.unsorted + s.duplicates + s.acoustic_duplicates, 0);
}

#[test]
fn dry_run_never_trashes_nor_records() {
    let mut run = start(true, true);
    run.step(FileEvent::Metadata(Some((Some(100), 200))));
    let entry = CachedEntry { status: "organized".into(), dest: Some("/out/x.mp3".into()), last_seen: 0, dest_exists: true };
    let step = run.step(FileEvent::Processed { entry: Some(entry), now: 1000 });
    assert!(step.effects.is_empty());
    assert!(matches!(step.request, Request::Done { result: ProcessResult::CachedSkip { .. } }));

    let mut run = start(true, true);
    run.step(FileEvent::Metadata(Some((Some(100), 200))));
    let step = run.step(FileEvent::Processed { entry: None, now: 1000 });
    assert!(matches!(step.request, Request::Enrich));
    let step = run.step(FileEvent::Enriched {
        outcome: EnrichOutcome::Crashed { reason: "bad".into() },
        target_entries: vec![],
    });
    assert!(step.effects.is_empty());
    assert!(matches!(step.request, Request::Done { result: ProcessResult::Error { .. } }));
}
