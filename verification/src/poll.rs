//! What the messages of a running scan do to the application.

use vstd::prelude::*;
use vstd::string::*;

use crate::app::App;
use crate::app::AppView;
use crate::app::Mode;
use crate::app::ModeView;
use crate::app::total_of_prefix;
use crate::path::shown;
use crate::scan::ScanMsg;
use crate::scan::ScanMsgView;
use crate::text::decimal;
use crate::text::push_decimal;
use crate::text::size_shown;
use crate::text::size_text;
use crate::workspace::by_size;
use crate::workspace::by_size_is_a_stable_sort;
use crate::workspace::listed;
use crate::workspace::sort_by_size;
use crate::workspace::total;
use crate::workspace::Workspace;
use crate::workspace::WorkspaceView;

verus! {

/// What one look at the channel of the scan gives.
#[derive(Debug)]
pub enum Polled {
    /// A message was waiting.
    Message(ScanMsg),
    /// No message is waiting yet.
    Empty,
    /// The scan is gone, and no message will come.
    Disconnected,
}

/// A look at the channel, with its message as sequences.
pub enum PolledView {
    Message(ScanMsgView),
    Empty,
    Disconnected,
}

impl View for Polled {
    type V = PolledView;

    open spec fn view(&self) -> PolledView {
        match self {
            Polled::Message(message) => PolledView::Message(message@),
            Polled::Empty => PolledView::Empty,
            Polled::Disconnected => PolledView::Disconnected,
        }
    }
}

impl PolledView {
    /// Whether the channel is not looked at again after this.
    pub open spec fn is_last(self) -> bool {
        match self {
            PolledView::Message(ScanMsgView::Done) => true,
            PolledView::Message(_) => false,
            _ => true,
        }
    }
}

impl Polled {
    /// Whether the channel is not looked at again after this.
    pub fn ends_poll(&self) -> (ends: bool)
        ensures
            ends == self@.is_last(),
    {
        match self {
            Polled::Message(ScanMsg::Done) => true,
            Polled::Message(_) => false,
            _ => true,
        }
    }
}

/// The views of a list of looks at the channel.
pub open spec fn looks(list: Seq<Polled>) -> Seq<PolledView> {
    list.map_values(|p: Polled| p@)
}

/// The sum of the sizes of all workspaces that some looks at the channel bring,
/// up to the first that is the last.
pub open spec fn brought(list: Seq<PolledView>) -> nat
    decreases list.len(),
{
    if list.len() == 0 || list[0].is_last() {
        0
    } else {
        let first: nat = match list[0] {
            PolledView::Message(ScanMsgView::Batch(batch)) => total(batch),
            _ => 0,
        };
        first + brought(list.drop_first())
    }
}

impl AppView {
    /// The state with some more workspaces in the list.
    pub open spec fn with_batch(self, batch: Seq<WorkspaceView>) -> AppView {
        AppView { workspaces: by_size(self.workspaces + batch), ..self }
    }

    /// What the status line says of a finished scan.
    pub open spec fn summary(self) -> Seq<char> {
        if self.workspaces.len() == 0 {
            "No reclaimable target/ directories under "@ + shown(self.start_dir)
        } else {
            "Found "@ + decimal(self.workspaces.len()) + " workspaces ("@ + size_shown(
                total(self.workspaces) as u64,
            ) + " total)"@
        }
    }

    /// The state once the scan is over. An error that is on the status line
    /// stays there.
    pub open spec fn scan_over(self) -> AppView {
        let told = if self.status_is_error {
            self
        } else {
            AppView { status: Some(self.summary()), ..self }
        };
        let first = if self.workspaces.len() > 0 && self.cursor.selected is None {
            told.pointing(Some(0))
        } else {
            told
        };
        AppView {
            scan_open: false,
            mode: if self.mode is Scanning {
                ModeView::Browsing
            } else {
                self.mode
            },
            ..first
        }
    }

    /// The state after some looks at the channel of a running scan, up to the
    /// first that is the last.
    pub open spec fn polled(self, list: Seq<PolledView>) -> AppView
        decreases list.len(),
    {
        if list.len() == 0 {
            self
        } else {
            match list[0] {
                PolledView::Message(ScanMsgView::Batch(batch)) => self.with_batch(batch).polled(
                    list.drop_first(),
                ),
                PolledView::Message(ScanMsgView::Error(message)) => self.saying(
                    "Scan error: "@ + message,
                    true,
                ).polled(list.drop_first()),
                PolledView::Message(ScanMsgView::Done) => self.scan_over(),
                PolledView::Disconnected => self.scan_over(),
                PolledView::Empty => self,
            }
        }
    }
}

/// Two lists together weigh what each of them weighs.
pub proof fn total_of_both(a: Seq<WorkspaceView>, b: Seq<WorkspaceView>)
    ensures
        total(a + b) == total(a) + total(b),
    decreases b.len(),
{
    if b.len() > 0 {
        total_of_both(a, b.drop_last());
        assert((a + b).drop_last() =~= a + b.drop_last());
    } else {
        assert(a + b =~= a);
    }
}

impl App {
    /// Whether the sizes that some looks at the channel bring still add up to a
    /// number that fits.
    pub fn can_poll(&self, list: &Vec<Polled>) -> (fits: bool)
        requires
            self.wf(),
        ensures
            fits == (total(self@.workspaces) + brought(looks(list@)) <= u64::MAX),
    {
        let ghost seen = looks(list@);
        let mut sum: u64 = self.total_size();
        let mut i: usize = 0;
        assert(seen.skip(0) =~= seen);
        while i < list.len()
            invariant
                seen == looks(list@),
                i <= list@.len(),
                sum + brought(seen.skip(i as int)) == total(self@.workspaces) + brought(seen),
            decreases list@.len() - i,
        {
            proof {
                assert(seen.skip(i as int).drop_first() =~= seen.skip(i + 1));
                assert(seen.skip(i as int)[0] == list@[i as int]@);
            }
            if list[i].ends_poll() {
                return true;
            }
            if let Polled::Message(ScanMsg::Batch(batch)) = &list[i] {
                let ghost all = listed(batch@);
                let ghost before = sum;
                let mut k: usize = 0;
                assert(all.take(0) =~= Seq::empty());
                while k < batch.len()
                    invariant
                        all == listed(batch@),
                        k <= batch@.len(),
                        sum == before + total(all.take(k as int)),
                        before + total(all) <= total(self@.workspaces) + brought(looks(list@)),
                    decreases batch@.len() - k,
                {
                    proof {
                        assert(all.take(k + 1).drop_last() =~= all.take(k as int));
                        total_of_prefix(all, k + 1);
                    }
                    match sum.checked_add(batch[k].target_size) {
                        Some(more) => {
                            sum = more;
                        },
                        None => return false,
                    }
                    k = k + 1;
                }
                assert(all.take(k as int) =~= all);
            }
            i = i + 1;
        }
        assert(seen.skip(i as int) =~= Seq::empty());
        true
    }

    /// Takes in what was received from the scan, up to the first look at the
    /// channel that is the last. Returns true if the mode/data changed.
    pub fn poll_scan(&mut self, received: Vec<Polled>) -> (changed: bool)
        requires
            old(self).wf(),
            old(self)@.scan_open ==> total(old(self)@.workspaces) + brought(looks(received@))
                <= u64::MAX,
        ensures
            final(self)@ == (if old(self)@.scan_open {
                old(self)@.polled(looks(received@))
            } else {
                old(self)@
            }),
            final(self).wf(),
            changed == (old(self)@.scan_open && received@.len() > 0 && received@[0]@ !is Empty),
    {
        if !self.scan_open {
            return false;
        }
        let ghost seen = looks(received@);
        let mut changed = false;
        assert(seen.skip(0) =~= seen);
        for look in iter: received
            invariant
                iter.seq() == received@,
                seen == looks(received@),
                self.wf(),
                self.scan_open,
                old(self)@.scan_open,
                total(self@.workspaces) + brought(seen.skip(iter.index())) <= u64::MAX,
                old(self)@.polled(seen) == self@.polled(seen.skip(iter.index())),
                changed == (iter.index() > 0),
                iter.index() > 0 ==> received@[0]@ !is Empty,
        {
            proof {
                let i = iter.index();
                assert(seen.skip(i).drop_first() =~= seen.skip(i + 1));
                assert(seen.skip(i)[0] == look@);
            }
            match look {
                Polled::Message(ScanMsg::Batch(batch)) => {
                    self.take_batch(batch);
                    changed = true;
                },
                Polled::Message(ScanMsg::Error(message)) => {
                    let mut status = "Scan error: ".to_owned();
                    status.append(message.as_str());
                    self.status = Some(status);
                    self.status_is_error = true;
                    changed = true;
                },
                Polled::Message(ScanMsg::Done) => {
                    self.finish_scan();
                    return true;
                },
                Polled::Disconnected => {
                    self.finish_scan();
                    return true;
                },
                Polled::Empty => return changed,
            }
        }
        changed
    }

    /// Adds some workspaces to the list.
    fn take_batch(&mut self, batch: Vec<Workspace>)
        requires
            old(self).wf(),
            old(self)@.scan_open,
            total(old(self)@.workspaces) + total(listed(batch@)) <= u64::MAX,
        ensures
            final(self)@ == old(self)@.with_batch(listed(batch@)),
            final(self).wf(),
            total(final(self)@.workspaces) == total(old(self)@.workspaces) + total(listed(batch@)),
    {
        let mut batch = batch;
        let mut list: Vec<Workspace> = Vec::new();
        std::mem::swap(&mut list, &mut self.workspaces);
        let ghost before = old(self)@.workspaces;
        let ghost more = listed(batch@);
        list.append(&mut batch);
        proof {
            assert(listed(list@) =~= before + more);
            total_of_both(before, more);
            by_size_is_a_stable_sort(before + more);
        }
        self.workspaces = sort_by_size(list);
    }

    /// Closes the scan.
    fn finish_scan(&mut self)
        requires
            old(self).wf(),
            old(self)@.scan_open,
        ensures
            final(self)@ == old(self)@.scan_over(),
            final(self).wf(),
    {
        if !self.status_is_error {
            if self.workspaces.is_empty() {
                let mut status = "No reclaimable target/ directories under ".to_owned();
                status.append(self.start_dir.display().as_str());
                self.status = Some(status);
            } else {
                let size: u64 = self.total_size();
                let mut status = "Found ".to_owned();
                push_decimal(&mut status, self.workspaces.len() as u64);
                status.append(" workspaces (");
                status.append(size_text(size).as_str());
                status.append(" total)");
                self.status = Some(status);
            }
        }
        if !self.workspaces.is_empty() && self.cursor.selected.is_none() {
            self.cursor.select(Some(0));
        }
        self.scan_open = false;
        if let Mode::Scanning = self.mode {
            self.mode = Mode::Browsing;
        }
    }
}

} // verus!
