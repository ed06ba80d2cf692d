//! Undoing past operations recorded in the cache.

use vstd::prelude::*;
use crate::cache::ProcessedEntry;
use crate::organizer::{TransferPlan, plan_spec};

verus! {

/// What to do for an entry to roll back.
#[derive(Debug, Clone, Copy, PartialEq, Eq, Structural)]
pub enum RollbackAction {
    /// Destination and source both exist: it was a copy, delete the destination.
    DeleteDest,
    /// Destination exists, source is missing: it was a move, move it back.
    MoveBack,
    /// Neither exists: stale entry, only the cache is cleaned.
    AlreadyGone,
    /// Destination missing, source present: only the cache is cleaned.
    DestMissing,
}

pub open spec fn action_spec(src_exists: bool, dst_exists: bool) -> RollbackAction {
    if src_exists && dst_exists {
        RollbackAction::DeleteDest
    } else if !src_exists && dst_exists {
        RollbackAction::MoveBack
    } else if !src_exists && !dst_exists {
        RollbackAction::AlreadyGone
    } else {
        RollbackAction::DestMissing
    }
}

/// The action for the given state of the file system.
pub fn action_for(src_exists: bool, dst_exists: bool) -> (res: RollbackAction)
    ensures
        res == action_spec(src_exists, dst_exists),
{
    match (src_exists, dst_exists) {
        (true, true) => RollbackAction::DeleteDest,
        (false, true) => RollbackAction::MoveBack,
        (false, false) => RollbackAction::AlreadyGone,
        (true, false) => RollbackAction::DestMissing,
    }
}

/// Calls `Path::exists`; the answer depends on the disk and nothing is stated
/// of it.
#[verifier::external_body]
fn path_exists(p: &str) -> bool {
    std::path::Path::new(p).exists()
}

/// Decides what to do for an entry from the current state of the file system:
/// whether its source and its destination exist. That state is read from the
/// disk, so the result is not stated here; the decision itself is
/// [`action_for`], whose contract is exact.
pub fn decide_action(entry: &ProcessedEntry) -> (res: RollbackAction)
{
    let src_exists = path_exists(entry.source_path.as_str());
    let dst_exists = path_exists(entry.dest_path.as_str());
    action_for(src_exists, dst_exists)
}

/// Only entries whose destination is present touch the file system, and a
/// file is moved back only when its source is gone.
pub proof fn law_rollback_touches_only_present_destinations(src_exists: bool, dst_exists: bool)
    ensures
        !dst_exists ==> (action_spec(src_exists, dst_exists) is AlreadyGone || action_spec(src_exists, dst_exists) is DestMissing),
        action_spec(src_exists, dst_exists) is MoveBack ==> !src_exists,
        action_spec(src_exists, dst_exists) is DeleteDest ==> src_exists,
{
}

/// Counts of a rollback run.
#[derive(Debug, Default, Clone, Copy, PartialEq, Eq, Structural)]
pub struct RollbackSummary {
    pub deleted: usize,
    pub moved_back: usize,
    pub cleaned: usize,
    pub errors: usize,
}

pub open spec fn tallied(s: RollbackSummary, action: RollbackAction, failed: bool) -> RollbackSummary {
    if failed && (action is DeleteDest || action is MoveBack) {
        RollbackSummary { errors: (s.errors + 1) as usize, ..s }
    } else {
        match action {
            RollbackAction::DeleteDest => RollbackSummary { deleted: (s.deleted + 1) as usize, ..s },
            RollbackAction::MoveBack => RollbackSummary { moved_back: (s.moved_back + 1) as usize, ..s },
            _ => RollbackSummary { cleaned: (s.cleaned + 1) as usize, ..s },
        }
    }
}

impl RollbackSummary {
    pub fn new() -> (res: Self)
        ensures
            res == (RollbackSummary { deleted: 0, moved_back: 0, cleaned: 0, errors: 0 }),
    {
        RollbackSummary { deleted: 0, moved_back: 0, cleaned: 0, errors: 0 }
    }

    /// Counts one entry: a failed deletion or move-back is an error, anything
    /// else counts under its action (cleaning the cache cannot fail).
    pub fn tally(&mut self, action: RollbackAction, failed: bool)
        requires
            old(self).deleted < usize::MAX,
            old(self).moved_back < usize::MAX,
            old(self).cleaned < usize::MAX,
            old(self).errors < usize::MAX,
        ensures
            *final(self) == tallied(*old(self), action, failed),
    {
        if failed && (action == RollbackAction::DeleteDest || action == RollbackAction::MoveBack) {
            self.errors = self.errors + 1;
        } else {
            match action {
                RollbackAction::DeleteDest => self.deleted = self.deleted + 1,
                RollbackAction::MoveBack => self.moved_back = self.moved_back + 1,
                _ => self.cleaned = self.cleaned + 1,
            }
        }
    }
}

/// Each tallied entry adds exactly one to the counts.
pub proof fn law_tally_counts_each_entry(s: RollbackSummary, action: RollbackAction, failed: bool)
    requires
        s.deleted < usize::MAX,
        s.moved_back < usize::MAX,
        s.cleaned < usize::MAX,
        s.errors < usize::MAX,
    ensures
        tallied(s, action, failed).deleted + tallied(s, action, failed).moved_back + tallied(
            s,
            action,
            failed,
        ).cleaned + tallied(s, action, failed).errors == s.deleted + s.moved_back + s.cleaned + s.errors + 1,
{
}

/// What a rollback does on disk for an entry.
#[derive(Debug, Clone, Copy, PartialEq, Eq, Structural)]
pub enum RollbackOp {
    /// Nothing.
    Keep,
    /// Delete the destination (the file was copied).
    RemoveDest,
    /// Rename the destination back to the source (the file was moved).
    MoveBack,
}

pub open spec fn op_spec(action: RollbackAction, apply: bool) -> (RollbackOp, bool) {
    if !apply {
        (RollbackOp::Keep, false)
    } else {
        match action {
            RollbackAction::DeleteDest => (RollbackOp::RemoveDest, true),
            RollbackAction::MoveBack => (RollbackOp::MoveBack, true),
            _ => (RollbackOp::Keep, true),
        }
    }
}

/// The disk operation for an entry, and whether its cache entry is then
/// forgotten (once the operation succeeded). A preview (`apply` unset) does
/// neither.
pub fn rollback_op(action: RollbackAction, apply: bool) -> (res: (RollbackOp, bool))
    ensures
        res == op_spec(action, apply),
{
    if !apply {
        (RollbackOp::Keep, false)
    } else {
        match action {
            RollbackAction::DeleteDest => (RollbackOp::RemoveDest, true),
            RollbackAction::MoveBack => (RollbackOp::MoveBack, true),
            _ => (RollbackOp::Keep, true),
        }
    }
}

/// A preview never touches the disk nor the cache; an applied rollback only
/// deletes a destination whose source is still there, and only renames back a
/// file whose source is gone.
pub proof fn law_preview_touches_nothing(src_exists: bool, dst_exists: bool, apply: bool)
    ensures
        !apply ==> op_spec(action_spec(src_exists, dst_exists), apply) == (RollbackOp::Keep, false),
        op_spec(action_spec(src_exists, dst_exists), apply).0 == RollbackOp::RemoveDest ==> src_exists && dst_exists,
        op_spec(action_spec(src_exists, dst_exists), apply).0 == RollbackOp::MoveBack ==> !src_exists && dst_exists,
{
}

/// Which of source and destination exist once a transfer plan is carried
/// out (the files being distinct): the destination always, the source only in
/// copy mode.
pub open spec fn disk_after(plan: TransferPlan, do_move: bool) -> (bool, bool) {
    match plan {
        TransferPlan::LeaveAsIs { .. } => (true, true),
        _ => (!do_move, true),
    }
}

/// A rollback undoes a filing: a copied file is undone by deleting the copy,
/// a moved one by moving it back, whatever bitrates were compared.
pub proof fn law_rollback_undoes_filing(
    do_move: bool,
    dest_exists: bool,
    src_bitrate: Option<u32>,
    dst_bitrate: Option<u32>,
)
    requires
        !(plan_spec(do_move, false, dest_exists, src_bitrate, dst_bitrate) is LeaveAsIs),
    ensures
        ({
            let (src, dst) = disk_after(plan_spec(do_move, false, dest_exists, src_bitrate, dst_bitrate), do_move);
            op_spec(action_spec(src, dst), true).0 == (if do_move { RollbackOp::MoveBack } else { RollbackOp::RemoveDest })
        }),
{
}

/// The counts of a preview over entries whose disk states (source exists,
/// destination exists) are `states`, in order: each entry tallied as not
/// failed.
pub open spec fn preview_summary(states: Seq<(bool, bool)>) -> RollbackSummary
    decreases states.len(),
{
    if states.len() == 0 {
        RollbackSummary { deleted: 0, moved_back: 0, cleaned: 0, errors: 0 }
    } else {
        tallied(preview_summary(states.drop_last()), action_spec(states.last().0, states.last().1), false)
    }
}

/// Number of states satisfying `f`.
pub open spec fn count_states(states: Seq<(bool, bool)>, f: spec_fn((bool, bool)) -> bool) -> nat
    decreases states.len(),
{
    if states.len() == 0 {
        0
    } else {
        count_states(states.drop_last(), f) + if f(states.last()) { 1nat } else { 0nat }
    }
}

pub open spec fn both_exist() -> spec_fn((bool, bool)) -> bool {
    |st: (bool, bool)| st.0 && st.1
}

pub open spec fn only_dest() -> spec_fn((bool, bool)) -> bool {
    |st: (bool, bool)| !st.0 && st.1
}

pub open spec fn no_dest() -> spec_fn((bool, bool)) -> bool {
    |st: (bool, bool)| !st.1
}

/// A whole preview (rollback without `apply`) touches neither the disk nor
/// the cache for any entry, and counts as deleted the entries whose source
/// and destination both exist, as moved back those whose destination alone
/// exists, as cleaned those whose destination is missing, with no error.
pub proof fn law_rollback_preview(states: Seq<(bool, bool)>)
    requires
        states.len() < usize::MAX,
    ensures
        forall|i: int| 0 <= i < states.len()
            ==> op_spec(action_spec(#[trigger] states[i].0, states[i].1), false) == (RollbackOp::Keep, false),
        preview_summary(states).deleted == count_states(states, both_exist()),
        preview_summary(states).moved_back == count_states(states, only_dest()),
        preview_summary(states).cleaned == count_states(states, no_dest()),
        preview_summary(states).errors == 0,
    decreases states.len(),
{
    if states.len() > 0 {
        let rest = states.drop_last();
        law_rollback_preview(rest);
        lemma_count_le(rest, both_exist());
        lemma_count_le(rest, only_dest());
        lemma_count_le(rest, no_dest());
    }
}

proof fn lemma_count_le(states: Seq<(bool, bool)>, f: spec_fn((bool, bool)) -> bool)
    ensures
        count_states(states, f) <= states.len(),
    decreases states.len(),
{
    if states.len() > 0 {
        lemma_count_le(states.drop_last(), f);
    }
}

} // verus!
