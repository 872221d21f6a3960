//! Which paths may be deleted, and what came of deleting them.

use vstd::prelude::*;
use vstd::string::*;

use crate::path::file_name_of;
use crate::path::has_parent;
use crate::path::shown;
use crate::path::target_name;
use crate::path::FilePath;
use crate::workspace::Workspace;
use crate::workspace::WorkspaceView;

verus! {

/// Whether a path may be deleted: only one that is non-empty, has a parent and
/// is named "target" may be.
pub open spec fn may_delete(path: Seq<u8>) -> bool {
    path.len() > 0 && has_parent(path) && file_name_of(path) == Some(target_name())
}

/// Why a path must not be deleted, if it must not.
pub open spec fn refusal(path: Seq<u8>) -> Option<Seq<char>> {
    if path.len() == 0 {
        Some("empty target path"@)
    } else if !has_parent(path) {
        Some("refusing to delete "@ + shown(path) + " (no parent)"@)
    } else if file_name_of(path) != Some(target_name()) {
        Some("refusing to delete non-target path "@ + shown(path))
    } else {
        None
    }
}

/// A text that may be missing, as a sequence.
pub open spec fn maybe_text(text: Option<String>) -> Option<Seq<char>> {
    match text {
        Some(text) => Some(text@),
        None => None,
    }
}

/// The reason why a path must not be deleted; `None` where it may be.
pub fn refuse(path: &FilePath) -> (reason: Option<String>)
    ensures
        maybe_text(reason) == refusal(path@),
        reason is None <==> may_delete(path@),
{
    if path.bytes.len() == 0 {
        return Some("empty target path".to_owned());
    }
    if path.parent().is_none() {
        let mut reason = "refusing to delete ".to_owned();
        reason.append(path.display().as_str());
        reason.append(" (no parent)");
        return Some(reason);
    }
    if !path.is_named_target() {
        let mut reason = "refusing to delete non-target path ".to_owned();
        reason.append(path.display().as_str());
        return Some(reason);
    }
    None
}

/// What the file system answered to the removal of a directory.
pub type Removal = Result<(), String>;

/// An answer of the file system, with its message as a sequence.
pub open spec fn removal_view(removal: Removal) -> Result<(), Seq<char>> {
    match removal {
        Ok(_) => Ok(()),
        Err(cause) => Err(cause@),
    }
}

/// What deleting the target of a workspace comes to: the number of bytes freed,
/// or what went wrong. `removal` is what the file system answers if it is
/// asked, which happens only where the path is not refused.
pub open spec fn deletion(w: WorkspaceView, removal: Result<(), Seq<char>>) -> Result<
    u64,
    Seq<char>,
> {
    match refusal(w.target_path) {
        Some(reason) => Err(reason),
        None => match removal {
            Ok(_) => Ok(w.target_size),
            Err(cause) => Err("removing "@ + shown(w.target_path) + ": "@ + cause),
        },
    }
}

/// A deletion, with its message as a sequence.
pub open spec fn deletion_view(result: Result<u64, String>) -> Result<u64, Seq<char>> {
    match result {
        Ok(freed) => Ok(freed),
        Err(message) => Err(message@),
    }
}

/// Tells what deleting the target of a workspace comes to, where the file
/// system answers the removal with `removal`.
pub fn delete_target(ws: &Workspace, removal: &Removal) -> (result: Result<u64, String>)
    ensures
        deletion_view(result) == deletion(ws@, removal_view(*removal)),
{
    if let Some(reason) = refuse(&ws.target_path) {
        return Err(reason);
    }
    match removal {
        Ok(_) => Ok(ws.target_size),
        Err(cause) => {
            let mut message = "removing ".to_owned();
            message.append(ws.target_path.display().as_str());
            message.append(": ");
            message.append(cause.as_str());
            Err(message)
        },
    }
}

/// Result of a delete attempt on one workspace.
#[derive(Debug)]
pub struct DeleteOutcome {
    pub root: FilePath,
    pub freed: u64,
    pub error: Option<String>,
}

/// A delete outcome, with its contents as sequences.
#[verifier::ext_equal]
pub struct OutcomeView {
    pub root: Seq<u8>,
    pub freed: u64,
    pub error: Option<Seq<char>>,
}

impl View for DeleteOutcome {
    type V = OutcomeView;

    open spec fn view(&self) -> OutcomeView {
        OutcomeView { root: self.root@, freed: self.freed, error: maybe_text(self.error) }
    }
}

/// The views of a list of outcomes.
pub open spec fn reported(list: Seq<DeleteOutcome>) -> Seq<OutcomeView> {
    list.map_values(|o: DeleteOutcome| o@)
}

/// The outcome that reports a deletion.
pub open spec fn outcome_of(w: WorkspaceView, result: Result<u64, Seq<char>>) -> OutcomeView {
    match result {
        Ok(freed) => OutcomeView { root: w.root, freed, error: None },
        Err(message) => OutcomeView { root: w.root, freed: 0, error: Some(message) },
    }
}

/// The outcomes without an error.
pub open spec fn successes(list: Seq<OutcomeView>) -> Seq<OutcomeView> {
    list.filter(|o: OutcomeView| o.error is None)
}

/// The sum of what some outcomes freed.
pub open spec fn freed_by(list: Seq<OutcomeView>) -> nat
    decreases list.len(),
{
    if list.len() == 0 {
        0
    } else {
        freed_by(list.drop_last()) + list.last().freed as nat
    }
}

/// Whether the file system is asked to remove the target of a workspace: it is
/// selected and its path may be deleted.
pub open spec fn is_asked(w: WorkspaceView) -> bool {
    w.selected && may_delete(w.target_path)
}

/// The workspaces of a list whose targets the file system is asked to remove.
pub open spec fn asked_of(list: Seq<WorkspaceView>) -> Seq<WorkspaceView> {
    list.filter(|w: WorkspaceView| is_asked(w))
}

/// What deleting the last workspace of a list comes to, where `removals`
/// answers for the asked ones of the list in order.
pub open spec fn last_deletion(
    list: Seq<WorkspaceView>,
    removals: Seq<Result<(), Seq<char>>>,
) -> Result<u64, Seq<char>> {
    deletion(list.last(), removals[asked_of(list.drop_last()).len() as int])
}

/// The outcomes for the selected workspaces of a list, in order.
pub open spec fn outcomes_of(
    list: Seq<WorkspaceView>,
    removals: Seq<Result<(), Seq<char>>>,
) -> Seq<OutcomeView>
    decreases list.len(),
{
    if list.len() == 0 {
        Seq::empty()
    } else {
        let before = outcomes_of(list.drop_last(), removals);
        if list.last().selected {
            before.push(outcome_of(list.last(), last_deletion(list, removals)))
        } else {
            before
        }
    }
}

/// The workspaces of a list that were not deleted, in order.
pub open spec fn remaining(
    list: Seq<WorkspaceView>,
    removals: Seq<Result<(), Seq<char>>>,
) -> Seq<WorkspaceView>
    decreases list.len(),
{
    if list.len() == 0 {
        Seq::empty()
    } else {
        let before = remaining(list.drop_last(), removals);
        if list.last().selected && last_deletion(list, removals) is Ok {
            before
        } else {
            before.push(list.last())
        }
    }
}

} // verus!
