//! Deleting what is selected.

use vstd::prelude::*;
use vstd::string::*;

use crate::app::App;
use crate::app::AppView;
use crate::app::Mode;
use crate::app::ModeView;
use crate::delete::asked_of;
use crate::delete::delete_target;
use crate::delete::freed_by;
use crate::delete::last_deletion;
use crate::delete::outcome_of;
use crate::delete::outcomes_of;
use crate::delete::refuse;
use crate::delete::remaining;
use crate::delete::removal_view;
use crate::delete::reported;
use crate::delete::successes;
use crate::delete::DeleteOutcome;
use crate::delete::OutcomeView;
use crate::delete::Removal;
use crate::path::FilePath;
use crate::text::decimal;
use crate::text::plural;
use crate::text::plural_of;
use crate::text::push_decimal;
use crate::text::size_shown;
use crate::text::size_text;
use crate::workspace::largest_first;
use crate::workspace::listed;
use crate::workspace::total;
use crate::workspace::Workspace;
use crate::workspace::WorkspaceView;

verus! {

/// The views of what the file system answered.
pub open spec fn answers(removals: Seq<Removal>) -> Seq<Result<(), Seq<char>>> {
    removals.map_values(|r: Removal| removal_view(r))
}

/// The texts of some paths.
pub open spec fn path_texts(paths: Seq<FilePath>) -> Seq<Seq<u8>> {
    paths.map_values(|p: FilePath| p@)
}

/// The target paths of some workspaces.
pub open spec fn target_paths(list: Seq<WorkspaceView>) -> Seq<Seq<u8>> {
    list.map_values(|w: WorkspaceView| w.target_path)
}

/// What the status line says of a deletion pass.
pub open spec fn freed_line(outcomes: Seq<OutcomeView>) -> Seq<char> {
    let done = successes(outcomes);
    let errors = (outcomes.len() - done.len()) as nat;
    let start = "Freed "@ + size_shown(freed_by(done) as u64) + " across "@ + decimal(done.len())
        + " workspaces"@;
    if errors == 0 {
        start
    } else {
        start + " ("@ + decimal(errors) + " error"@ + plural_of(errors) + ")"@
    }
}

impl AppView {
    /// The state after a deletion pass, where `removals` answers for the asked
    /// workspaces in order: what was deleted is gone from the list, and the
    /// outcomes are shown.
    pub open spec fn purged(self, removals: Seq<Result<(), Seq<char>>>) -> AppView {
        let outcomes = outcomes_of(self.workspaces, removals);
        let left = remaining(self.workspaces, removals);
        let shorter = AppView { workspaces: left, ..self };
        let kept = if left.len() == 0 {
            shorter.pointing(None)
        } else {
            match self.cursor.selected {
                Some(i) => if i >= left.len() {
                    shorter.pointing(Some((left.len() - 1) as usize))
                } else {
                    shorter
                },
                None => shorter,
            }
        };
        AppView {
            mode: ModeView::Results(outcomes),
            ..kept.saying(freed_line(outcomes), successes(outcomes).len() < outcomes.len())
        }
    }
}

/// What holds of the outcomes for a list: what was freed and what remains weigh
/// together what the list did, and no more outcomes are there than entries.
pub proof fn purge_adds_up(list: Seq<WorkspaceView>, removals: Seq<Result<(), Seq<char>>>)
    ensures
        freed_by(successes(outcomes_of(list, removals))) + total(remaining(list, removals))
            == total(list),
        successes(outcomes_of(list, removals)).len() + remaining(list, removals).len()
            == list.len(),
        successes(outcomes_of(list, removals)).len() <= outcomes_of(list, removals).len(),
        outcomes_of(list, removals).len() <= list.len(),
        largest_first(list) ==> largest_first(remaining(list, removals)),
        forall|k: int|
            0 <= k < remaining(list, removals).len() ==> list.contains(
                #[trigger] remaining(list, removals)[k],
            ),
    decreases list.len(),
{
    reveal(Seq::filter);
    if list.len() > 0 {
        let shorter = list.drop_last();
        purge_adds_up(shorter, removals);
        let before = outcomes_of(shorter, removals);
        let left = remaining(shorter, removals);
        let outcomes = outcomes_of(list, removals);
        let now = remaining(list, removals);
        if list.last().selected {
            let outcome = outcome_of(list.last(), last_deletion(list, removals));
            assert(outcomes.drop_last() =~= before);
            if outcome.error is None {
                assert(successes(outcomes) =~= successes(before).push(outcome));
                assert(successes(outcomes).drop_last() =~= successes(before));
            } else {
                assert(successes(outcomes) =~= successes(before));
            }
        }
        if now.len() > left.len() {
            assert(now.drop_last() =~= left);
        }
        assert forall|k: int| 0 <= k < now.len() implies list.contains(#[trigger] now[k]) by {
            if k < left.len() {
                assert(shorter.contains(left[k]));
                let i = choose|i: int| 0 <= i < shorter.len() && shorter[i] == left[k];
                assert(list[i] == now[k]);
            } else {
                assert(list[list.len() - 1] == now[k]);
            }
        }
        if largest_first(list) {
            assert(largest_first(shorter)) by {
                assert forall|i: int, j: int| 0 <= i <= j < shorter.len() implies #[trigger] shorter[i].target_size
                    >= #[trigger] shorter[j].target_size by {
                    assert(list[i].target_size >= list[j].target_size);
                }
            }
            assert forall|i: int, j: int| 0 <= i <= j < now.len() implies #[trigger] now[i].target_size
                >= #[trigger] now[j].target_size by {
                if j < left.len() {
                    assert(left[i].target_size >= left[j].target_size);
                } else if i < left.len() {
                    assert(shorter.contains(left[i]));
                    let k = choose|k: int| 0 <= k < shorter.len() && shorter[k] == left[i];
                    assert(list[k].target_size >= list[list.len() - 1].target_size);
                }
            }
        }
    }
}

impl App {
    /// The target paths that the file system is to be asked to remove, in order:
    /// those of the selected workspaces, unless they are refused.
    pub fn pending_deletes(&self) -> (paths: Vec<FilePath>)
        ensures
            path_texts(paths@) == target_paths(asked_of(self@.workspaces)),
    {
        let ghost list = self@.workspaces;
        let mut paths: Vec<FilePath> = Vec::new();
        let mut i: usize = 0;
        proof {
            reveal(Seq::filter);
            assert(list.take(0) =~= Seq::empty());
            assert(path_texts(paths@) =~= target_paths(asked_of(list.take(0))));
        }
        while i < self.workspaces.len()
            invariant
                list == listed(self.workspaces@),
                i <= list.len(),
                path_texts(paths@) == target_paths(asked_of(list.take(i as int))),
            decreases list.len() - i,
        {
            let w = &self.workspaces[i];
            let ghost before = asked_of(list.take(i as int));
            proof {
                reveal(Seq::filter);
                assert(list.take(i + 1).drop_last() =~= list.take(i as int));
                assert(list.take(i + 1).last() == w@);
            }
            if w.selected && refuse(&w.target_path).is_none() {
                let path = w.target_path.clone();
                proof {
                    assert(path_texts(paths@.push(path)) =~= path_texts(paths@).push(path@));
                    assert(target_paths(before.push(w@)) =~= target_paths(before).push(path@));
                }
                paths.push(path);
            }
            i = i + 1;
        }
        assert(list.take(i as int) =~= list);
        paths
    }

    /// Takes in what the file system answered for the pending deletes, in order:
    /// removes from the list what was deleted, and shows the outcomes.
    pub fn run_delete(&mut self, removals: &Vec<Removal>)
        requires
            old(self).wf(),
            removals@.len() == asked_of(old(self)@.workspaces).len(),
        ensures
            final(self)@ == old(self)@.purged(answers(removals@)),
            final(self).wf(),
    {
        let ghost all = self@.workspaces;
        let ghost given = answers(removals@);
        let mut list: Vec<Workspace> = Vec::new();
        std::mem::swap(&mut list, &mut self.workspaces);
        let ghost taken = list@;
        let mut outcomes: Vec<DeleteOutcome> = Vec::new();
        let mut left: Vec<Workspace> = Vec::new();
        let mut next: usize = 0;
        proof {
            reveal(Seq::filter);
            assert(all.take(0) =~= Seq::empty());
            assert(reported(outcomes@) =~= Seq::empty());
            assert(listed(left@) =~= Seq::empty());
        }
        for w in iter: list
            invariant
                iter.seq() == taken,
                all == listed(taken),
                given == answers(removals@),
                removals@.len() == asked_of(all).len(),
                next == asked_of(all.take(iter.index())).len(),
                reported(outcomes@) == outcomes_of(all.take(iter.index()), given),
                listed(left@) == remaining(all.take(iter.index()), given),
        {
            let ghost now = all.take(iter.index() + 1);
            proof {
                reveal(Seq::filter);
                assert(now.drop_last() =~= all.take(iter.index()));
                assert(now.last() == w@);
                asked_grow(all, iter.index() + 1);
            }
            if w.selected {
                let refused = refuse(&w.target_path);
                let result = match refused {
                    Some(reason) => Err(reason),
                    None => {
                        assert(next < removals.len());
                        assert(given[next as int] == removal_view(removals@[next as int]));
                        let result = delete_target(&w, &removals[next]);
                        next = next + 1;
                        result
                    },
                };
                let deleted = result.is_ok();
                let outcome = match result {
                    Ok(freed) => DeleteOutcome { root: w.root.clone(), freed, error: None },
                    Err(message) => DeleteOutcome {
                        root: w.root.clone(),
                        freed: 0,
                        error: Some(message),
                    },
                };
                assert(reported(outcomes@.push(outcome)) =~= reported(outcomes@).push(outcome@));
                outcomes.push(outcome);
                if !deleted {
                    assert(listed(left@.push(w)) =~= listed(left@).push(w@));
                    left.push(w);
                }
            } else {
                assert(listed(left@.push(w)) =~= listed(left@).push(w@));
                left.push(w);
            }
        }
        proof {
            assert(all.take(all.len() as int) =~= all);
            purge_adds_up(all, given);
        }
        self.workspaces = left;
        if self.workspaces.is_empty() {
            self.cursor.select(None);
        } else if let Some(selected) = self.cursor.selected {
            if selected >= self.workspaces.len() {
                self.cursor.select(Some(self.workspaces.len() - 1));
            }
        }
        let (done, freed) = count_successes(&outcomes);
        let errors: usize = outcomes.len() - done;
        let mut status = "Freed ".to_owned();
        status.append(size_text(freed).as_str());
        status.append(" across ");
        push_decimal(&mut status, done as u64);
        status.append(" workspaces");
        if errors > 0 {
            status.append(" (");
            push_decimal(&mut status, errors as u64);
            status.append(" error");
            status.append(plural(errors));
            status.append(")");
        }
        self.status = Some(status);
        self.status_is_error = errors > 0;
        self.mode = Mode::Results(outcomes);
    }
}

/// The number of outcomes without an error, and the sum of what they freed.
pub(crate) fn count_successes(outcomes: &Vec<DeleteOutcome>) -> (counted: (usize, u64))
    requires
        freed_by(successes(reported(outcomes@))) <= u64::MAX,
    ensures
        counted.0 == successes(reported(outcomes@)).len(),
        counted.1 == freed_by(successes(reported(outcomes@))),
        counted.0 <= outcomes@.len(),
{
    let ghost all = reported(outcomes@);
    let mut done: usize = 0;
    let mut freed: u64 = 0;
    let mut i: usize = 0;
    proof {
        reveal(Seq::filter);
        assert(all.take(0) =~= Seq::empty());
    }
    while i < outcomes.len()
        invariant
            all == reported(outcomes@),
            freed_by(successes(all)) <= u64::MAX,
            i <= all.len(),
            done <= i,
            done == successes(all.take(i as int)).len(),
            freed == freed_by(successes(all.take(i as int))),
        decreases all.len() - i,
    {
        proof {
            reveal(Seq::filter);
            let now = all.take(i + 1);
            assert(now.drop_last() =~= all.take(i as int));
            assert(now.last() == outcomes@[i as int]@);
            freed_grows(all, i + 1);
            if now.last().error is None {
                assert(successes(now).drop_last() =~= successes(all.take(i as int)));
            }
        }
        if outcomes[i].error.is_none() {
            done = done + 1;
            freed = freed + outcomes[i].freed;
        }
        i = i + 1;
    }
    assert(all.take(i as int) =~= all);
    (done, freed)
}

proof fn asked_grow(list: Seq<WorkspaceView>, k: int)
    requires
        0 <= k <= list.len(),
    ensures
        asked_of(list.take(k)).len() <= asked_of(list).len(),
    decreases list.len() - k,
{
    reveal(Seq::filter);
    if k < list.len() {
        assert(list.take(k + 1).drop_last() =~= list.take(k));
        asked_grow(list, k + 1);
    } else {
        assert(list.take(k) =~= list);
    }
}

proof fn freed_grows(list: Seq<OutcomeView>, k: int)
    requires
        0 <= k <= list.len(),
    ensures
        freed_by(successes(list.take(k))) <= freed_by(successes(list)),
    decreases list.len() - k,
{
    reveal(Seq::filter);
    if k < list.len() {
        let now = list.take(k + 1);
        assert(now.drop_last() =~= list.take(k));
        if now.last().error is None {
            assert(successes(now).drop_last() =~= successes(list.take(k)));
        }
        freed_grows(list, k + 1);
    } else {
        assert(list.take(k) =~= list);
    }
}

} // verus!
