//! The recursive directory-size computation, run as an explicit work-list
//! walk.
//!
//! The caller lists one pending directory at a time and feeds the entries
//! back; the walk accumulates file sizes with saturating arithmetic, so
//! the total clamps at the maximum instead of wrapping, schedules
//! subdirectories for later listing, and reports a batched progress event
//! every hundredth file.  Cancellation is observed at directory
//! boundaries; the walk then names the directory it was about to list.

use crate::errors::FsError;
use crate::errors::Outcome;
use crate::types::RawEntry;
use crate::types::SizeEvent;
use vstd::prelude::*;

verus! {

/// How often, in files counted, a progress event is published.
pub const PROGRESS_BATCH: u64 = 100;

/// The pseudo-entries every walk skips.
pub open spec fn is_dot_name(name: Seq<char>) -> bool {
    name == seq!['.'] || name == seq!['.', '.']
}

/// The entries that contribute to a directory total: real files, not
/// pseudo-entries, not subdirectories.
pub open spec fn counted_file(e: RawEntry) -> bool {
    !e.is_directory && !is_dot_name(e.name@)
}

/// The entries the walk must still descend into.
pub open spec fn counted_dir(e: RawEntry) -> bool {
    e.is_directory && !is_dot_name(e.name@)
}

/// The size a listing reports for an entry; an absent size counts as zero.
pub open spec fn entry_size(e: RawEntry) -> u64 {
    match e.size {
        Some(n) => n,
        None => 0,
    }
}

/// The running total after absorbing a listing, each file size added with
/// saturation.
pub open spec fn added_size(t: u64, s: Seq<RawEntry>) -> u64
    decreases s.len(),
{
    if s.len() == 0 {
        t
    } else {
        let t1 = added_size(t, s.drop_last());
        if counted_file(s.last()) {
            t1.saturating_add(entry_size(s.last()))
        } else {
            t1
        }
    }
}

/// The file counter after absorbing a listing.
pub open spec fn added_files(f: u64, s: Seq<RawEntry>) -> u64
    decreases s.len(),
{
    if s.len() == 0 {
        f
    } else {
        let f1 = added_files(f, s.drop_last());
        if counted_file(s.last()) {
            f1.saturating_add(1)
        } else {
            f1
        }
    }
}

/// The paths of the subdirectories a listing schedules, in listing order.
pub open spec fn dir_paths(s: Seq<RawEntry>) -> Seq<Seq<char>>
    decreases s.len(),
{
    if s.len() == 0 {
        Seq::empty()
    } else {
        let p = dir_paths(s.drop_last());
        if counted_dir(s.last()) {
            p.push(s.last().path@)
        } else {
            p
        }
    }
}

/// Absorbing a listing never lowers the running total: sizes only
/// accumulate, clamping at the maximum.
pub proof fn lemma_added_size_monotonic(t: u64, s: Seq<RawEntry>)
    ensures
        added_size(t, s) >= t,
    decreases s.len(),
{
    if s.len() > 0 {
        lemma_added_size_monotonic(t, s.drop_last());
    }
}

/// True of the events that end a walk.
pub open spec fn is_terminal_size_event(e: SizeEvent) -> bool {
    match e {
        SizeEvent::Progress { .. } => false,
        _ => true,
    }
}

/// How many terminal events a history holds.
pub open spec fn count_terminal_size_events(s: Seq<SizeEvent>) -> nat
    decreases s.len(),
{
    if s.len() == 0 {
        0
    } else {
        count_terminal_size_events(s.drop_last()) + if is_terminal_size_event(s.last()) {
            1nat
        } else {
            0nat
        }
    }
}

/// A history with no terminal element counts zero terminal events.
pub proof fn lemma_no_terminal_count(s: Seq<SizeEvent>)
    requires
        forall|k: int| 0 <= k < s.len() ==> !is_terminal_size_event(#[trigger] s[k]),
    ensures
        count_terminal_size_events(s) == 0,
    decreases s.len(),
{
    if s.len() > 0 {
        lemma_no_terminal_count(s.drop_last());
    }
}

/// Terminal counts add up over concatenated histories.
pub proof fn lemma_count_terminal_concat(a: Seq<SizeEvent>, b: Seq<SizeEvent>)
    ensures
        count_terminal_size_events(a + b) == count_terminal_size_events(a)
            + count_terminal_size_events(b),
    decreases b.len(),
{
    if b.len() == 0 {
        assert(a + b =~= a);
    } else {
        lemma_count_terminal_concat(a, b.drop_last());
        assert((a + b).drop_last() =~= a + b.drop_last());
        assert((a + b).last() == b.last());
    }
}

/// A terminal event announces the outcome the walk reached.
pub open spec fn terminal_matches(e: SizeEvent, o: Outcome) -> bool {
    match (e, o) {
        (SizeEvent::Completed { .. }, Outcome::Completed) => true,
        (SizeEvent::Cancelled { .. }, Outcome::Cancelled) => true,
        (SizeEvent::Failed { .. }, Outcome::Failed(_)) => true,
        _ => false,
    }
}

/// Computes the total size of a directory tree as an explicit work-list
/// walk.  The caller repeatedly asks for the next pending directory,
/// lists it remotely, and feeds the entries (or the failure, or an
/// observed cancellation) back into the walk, publishing the returned
/// events.
pub struct SizeWalk {
    operation_id: u64,
    root: String,
    pending: Vec<String>,
    total: u64,
    files: u64,
    done: Option<Outcome>,
    history: Ghost<Seq<SizeEvent>>,
}

impl SizeWalk {
    /// The identifier of this size computation.
    pub closed spec fn id(self) -> u64 {
        self.operation_id
    }

    /// The path the walk was started on; terminal events carry it.
    pub closed spec fn root_path(self) -> Seq<char> {
        self.root@
    }

    /// The directories still to be listed; the walk descends from the
    /// back.
    pub closed spec fn pending_dirs(self) -> Seq<Seq<char>> {
        self.pending@.map_values(|p: String| p@)
    }

    /// The bytes accumulated so far.
    pub closed spec fn total_bytes(self) -> u64 {
        self.total
    }

    /// The files counted so far.
    pub closed spec fn files_counted(self) -> u64 {
        self.files
    }

    /// The terminal outcome, once one is reached.
    pub closed spec fn done(self) -> Option<Outcome> {
        self.done
    }

    /// Every event handed out so far, oldest first.
    pub closed spec fn events(self) -> Seq<SizeEvent> {
        self.history@
    }

    /// A running walk has published no terminal event; a finished walk
    /// has published exactly one, as its last event, and it announces the
    /// outcome reached.
    pub open spec fn wf(self) -> bool {
        &&& (self.done() is None ==> count_terminal_size_events(self.events()) == 0)
        &&& (match self.done() {
            Some(o) => {
                &&& count_terminal_size_events(self.events()) == 1
                &&& self.events().len() > 0
                &&& is_terminal_size_event(self.events().last())
                &&& terminal_matches(self.events().last(), o)
            },
            None => true,
        })
    }

    /// Starts a walk over the tree rooted at `root`.
    pub fn new(operation_id: u64, root: String) -> (r: Self)
        ensures
            r.wf(),
            r.id() == operation_id,
            r.root_path() == root@,
            r.pending_dirs() =~= seq![root@],
            r.total_bytes() == 0,
            r.files_counted() == 0,
            r.done() is None,
            r.events() == Seq::<SizeEvent>::empty(),
    {
        let mut pending: Vec<String> = Vec::new();
        pending.push(root.clone());
        let r = SizeWalk {
            operation_id,
            root,
            pending,
            total: 0,
            files: 0,
            done: None,
            history: Ghost(Seq::empty()),
        };
        proof {
            assert(r.pending_dirs() =~= seq![r.root@]);
        }
        r
    }

    /// The directory the walk wants listed next, while any are left and
    /// no outcome is reached.
    pub fn current_dir(&self) -> (r: Option<String>)
        ensures
            (r is Some) == (self.pending_dirs().len() > 0),
            r matches Some(p) ==> p@ == self.pending_dirs().last(),
    {
        if self.pending.len() == 0 {
            None
        } else {
            Some(self.pending[self.pending.len() - 1].clone())
        }
    }

    /// Records that the cancellation token was observed set at a
    /// directory boundary: publishes the one cancellation event, naming
    /// the directory the walk was about to list, and ends the walk.
    pub fn on_cancelled(&mut self) -> (evs: Vec<SizeEvent>)
        requires
            old(self).wf(),
            old(self).done() is None,
            old(self).pending_dirs().len() > 0,
        ensures
            final(self).wf(),
            final(self).id() == old(self).id(),
            final(self).root_path() == old(self).root_path(),
            final(self).pending_dirs() == old(self).pending_dirs(),
            final(self).total_bytes() == old(self).total_bytes(),
            final(self).files_counted() == old(self).files_counted(),
            final(self).done() == Some(Outcome::Cancelled),
            final(self).events() == old(self).events() + evs@,
            evs@.len() == 1,
            evs@[0] matches SizeEvent::Cancelled { operation_id, path } && operation_id == old(
                self,
            ).id() && path@ == old(self).pending_dirs().last(),
    {
        let here = self.pending[self.pending.len() - 1].clone();
        let mut evs: Vec<SizeEvent> = Vec::new();
        evs.push(SizeEvent::Cancelled { operation_id: self.operation_id, path: here });
        self.done = Some(Outcome::Cancelled);
        proof {
            assert(evs@.drop_last() =~= Seq::<SizeEvent>::empty());
            assert(count_terminal_size_events(evs@.drop_last()) == 0);
            assert(evs@.last() == evs@[0]);
            assert(count_terminal_size_events(evs@) == 1);
            self.history@ = self.history@ + evs@;
            lemma_count_terminal_concat(old(self).events(), evs@);
            assert(self.events().last() == evs@[0]);
        }
        evs
    }

    /// Records that listing the current directory failed: the walk ends
    /// with that failure, published as the one terminal event.
    pub fn on_error(&mut self, err: FsError) -> (evs: Vec<SizeEvent>)
        requires
            old(self).wf(),
            old(self).done() is None,
        ensures
            final(self).wf(),
            final(self).id() == old(self).id(),
            final(self).root_path() == old(self).root_path(),
            final(self).total_bytes() == old(self).total_bytes(),
            final(self).files_counted() == old(self).files_counted(),
            final(self).done() == Some(Outcome::Failed(err)),
            final(self).events() == old(self).events() + evs@,
            evs@.len() == 1,
            evs@[0] matches SizeEvent::Failed { operation_id, path, error } && operation_id == old(
                self,
            ).id() && path@ == old(self).root_path() && error == err,
    {
        let event_error = err.duplicate();
        let mut evs: Vec<SizeEvent> = Vec::new();
        evs.push(
            SizeEvent::Failed {
                operation_id: self.operation_id,
                path: self.root.clone(),
                error: event_error,
            },
        );
        self.done = Some(Outcome::Failed(err));
        proof {
            assert(evs@.drop_last() =~= Seq::<SizeEvent>::empty());
            assert(count_terminal_size_events(evs@.drop_last()) == 0);
            assert(evs@.last() == evs@[0]);
            assert(count_terminal_size_events(evs@) == 1);
            self.history@ = self.history@ + evs@;
            lemma_count_terminal_concat(old(self).events(), evs@);
            assert(self.events().last() == evs@[0]);
        }
        evs
    }

    /// Absorbs the listing of the current directory: files raise the
    /// saturating total and the file counter, with a progress event every
    /// hundredth file; subdirectories are scheduled for later listing.
    /// When nothing is left pending the walk completes, publishing the
    /// total.
    pub fn on_listing(&mut self, entries: Vec<RawEntry>) -> (evs: Vec<SizeEvent>)
        requires
            old(self).wf(),
            old(self).done() is None,
            old(self).pending_dirs().len() > 0,
        ensures
            final(self).wf(),
            final(self).id() == old(self).id(),
            final(self).root_path() == old(self).root_path(),
            final(self).total_bytes() == added_size(old(self).total_bytes(), entries@),
            final(self).files_counted() == added_files(old(self).files_counted(), entries@),
            final(self).pending_dirs() =~= old(self).pending_dirs().drop_last() + dir_paths(
                entries@,
            ),
            final(self).events() == old(self).events() + evs@,
            final(self).pending_dirs().len() == 0 ==> {
                &&& final(self).done() == Some(Outcome::Completed)
                &&& evs@.len() > 0
                &&& evs@.last() matches SizeEvent::Completed { operation_id, path, size }
                    && operation_id == old(self).id() && path@ == old(self).root_path() && size
                    == final(self).total_bytes()
            },
            final(self).pending_dirs().len() > 0 ==> final(self).done() is None,
            forall|k: int|
                0 <= k < evs@.len() && !is_terminal_size_event(#[trigger] evs@[k]) ==> (evs@[k]
                    matches SizeEvent::Progress { operation_id, files_processed, .. }
                    && operation_id == old(self).id() && files_processed % PROGRESS_BATCH == 0),
    {
        self.pending.pop();
        proof {
            assert(self.pending@ =~= old(self).pending@.drop_last());
            assert(self.pending_dirs() =~= old(self).pending_dirs().drop_last());
        }
        let ghost popped_pending = self.pending_dirs();
        let mut evs: Vec<SizeEvent> = Vec::new();
        let n = entries.len();
        let mut i: usize = 0;
        while i < n
            invariant
                n == entries.len(),
                i <= n,
                self.operation_id == old(self).operation_id,
                self.root == old(self).root,
                self.done is None,
                self.history == old(self).history,
                self.total == added_size(old(self).total, entries@.subrange(0, i as int)),
                self.files == added_files(old(self).files, entries@.subrange(0, i as int)),
                self.pending_dirs() =~= popped_pending + dir_paths(entries@.subrange(0, i as int)),
                forall|k: int|
                    0 <= k < evs@.len() ==> (!is_terminal_size_event(#[trigger] evs@[k])
                        && (evs@[k] matches SizeEvent::Progress {
                        operation_id,
                        files_processed,
                        ..
                    } && operation_id == old(self).operation_id && files_processed % PROGRESS_BATCH
                        == 0)),
            decreases n - i,
        {
            let ghost prefix = entries@.subrange(0, i as int);
            proof {
                assert(entries@.subrange(0, i + 1 as int).drop_last() =~= prefix);
                assert(entries@.subrange(0, i + 1 as int).last() == entries@[i as int]);
            }
            let e = &entries[i];
            let name_len = e.name.as_str().unicode_len();
            let dot = name_len == 1 && e.name.as_str().get_char(0) == '.';
            let dotdot = name_len == 2 && e.name.as_str().get_char(0) == '.'
                && e.name.as_str().get_char(1) == '.';
            proof {
                if dot {
                    assert(e.name@ =~= seq!['.']);
                }
                if dotdot {
                    assert(e.name@ =~= seq!['.', '.']);
                }
                if is_dot_name(e.name@) {
                    assert(dot || dotdot);
                }
            }
            if !(dot || dotdot) {
                if e.is_directory {
                    let ghost before_dirs = self.pending_dirs();
                    self.pending.push(e.path.clone());
                    proof {
                        assert(counted_dir(entries@[i as int]));
                        assert(dir_paths(entries@.subrange(0, i + 1 as int)) == dir_paths(
                            prefix,
                        ).push(entries@[i as int].path@));
                        assert(self.pending_dirs() =~= before_dirs.push(
                            entries@[i as int].path@,
                        ));
                        assert(self.pending_dirs() =~= popped_pending + dir_paths(
                            entries@.subrange(0, i + 1 as int),
                        ));
                    }
                } else {
                    let sz = match e.size {
                        Some(s) => s,
                        None => 0,
                    };
                    self.total = self.total.saturating_add(sz);
                    self.files = self.files.saturating_add(1);
                    if self.files % PROGRESS_BATCH == 0 {
                        evs.push(
                            SizeEvent::Progress {
                                operation_id: self.operation_id,
                                current_path: e.path.clone(),
                                current_size: self.total,
                                files_processed: self.files,
                            },
                        );
                    }
                }
            }
            i = i + 1;
        }
        proof {
            assert(entries@.subrange(0, n as int) =~= entries@);
        }
        let ghost progress_evs = evs@;
        if self.pending.len() == 0 {
            self.done = Some(Outcome::Completed);
            evs.push(
                SizeEvent::Completed {
                    operation_id: self.operation_id,
                    path: self.root.clone(),
                    size: self.total,
                },
            );
        }
        proof {
            lemma_no_terminal_count(progress_evs);
            if evs@.len() > progress_evs.len() {
                assert(evs@.drop_last() =~= progress_evs);
            }
            self.history@ = self.history@ + evs@;
            lemma_count_terminal_concat(old(self).events(), evs@);
            if evs@.len() > 0 {
                assert(self.events().last() == evs@.last());
            }
        }
        evs
    }

    /// Whether the walk has reached a terminal outcome.
    pub fn is_done(&self) -> (r: bool)
        ensures
            r == (self.done() is Some),
    {
        match self.done {
            Some(_) => true,
            None => false,
        }
    }

    /// The bytes accumulated so far.
    pub fn total_so_far(&self) -> (r: u64)
        ensures
            r == self.total_bytes(),
    {
        self.total
    }
}

} // verus!
