use music_sorter::cache::ProcessedEntry;
use music_sorter::rollback::{action_for, decide_action, rollback_op, RollbackAction, RollbackOp, RollbackSummary};

#[test]
fn test_decide_action_orphan() {
    let entry = ProcessedEntry {
        source_path: "/nonexistent/a.mp3".into(),
        dest_path: "/nonexistent/dst.mp3".into(),
        status: "organized".into(),
        last_seen: 0,
    };
    assert_eq!(decide_action(&entry), RollbackAction::AlreadyGone);
}

#[test]
fn action_for_each_state() {
    assert_eq!(action_for(true, true), RollbackAction::DeleteDest);
    assert_eq!(action_for(false, true), RollbackAction::MoveBack);
    assert_eq!(action_for(false, false), RollbackAction::AlreadyGone);
    assert_eq!(action_for(true, false), RollbackAction::DestMissing);
}

#[test]
fn tally_counts_each_entry_once() {
    let mut s = RollbackSummary::new();
    s.tally(RollbackAction::DeleteDest, false);
    s.tally(RollbackAction::MoveBack, false);
    s.tally(RollbackAction::MoveBack, true);
    s.tally(RollbackAction::AlreadyGone, false);
    s.tally(RollbackAction::DestMissing, true);
    assert_eq!(s, RollbackSummary { deleted: 1, moved_back: 1, cleaned: 2, errors: 1 });
}

#[test]
fn preview_touches_nothing() {
    assert_eq!(rollback_op(RollbackAction::DeleteDest, false), (RollbackOp::Keep, false));
    assert_eq!(rollback_op(RollbackAction::DeleteDest, true), (RollbackOp::RemoveDest, true));
    assert_eq!(rollback_op(RollbackAction::MoveBack, true), (RollbackOp::MoveBack, true));
    assert_eq!(rollback_op(RollbackAction::DestMissing, true), (RollbackOp::Keep, true));
}
