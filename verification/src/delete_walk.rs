//! Recursive subtree deletion, run as an explicit work-list walk.
//!
//! Deletion is post-order: every entry of a directory is removed before
//! the directory itself, so a file always falls before its directory and
//! a directory before its parent.  The walk records every confirmed
//! removal; while a directory is still on the stack — that is, while it
//! still has ancestors being processed above a failure point — its own
//! removal is never in that record.  A failure ends the walk at once and
//! removes nothing further; partially deleted trees are not rolled back.

use crate::errors::FsError;
use crate::errors::Outcome;
use crate::size_walk::is_dot_name;
use crate::types::RawEntry;
use vstd::prelude::*;

verus! {

/// What the walk asks its driver to do next.
pub enum DeleteAction {
    /// List this directory and report the entries.
    List(String),
    /// Delete this file and confirm.
    Unlink(String),
    /// Remove this now-empty directory and confirm.
    Rmdir(String),
}

/// Whether a removal of `path` — as a directory when `is_dir` — has been
/// confirmed in the log.
pub open spec fn log_contains(log: Seq<(bool, Seq<char>)>, is_dir: bool, path: Seq<char>) -> bool {
    exists|i: int| 0 <= i < log.len() && log[i] == (is_dir, path)
}

/// A confirmed removal stays confirmed when another one is recorded.
pub proof fn lemma_log_contains_push(
    log: Seq<(bool, Seq<char>)>,
    x: (bool, Seq<char>),
    is_dir: bool,
    path: Seq<char>,
)
    requires
        log_contains(log, is_dir, path),
    ensures
        log_contains(log.push(x), is_dir, path),
{
    let i = choose|i: int| 0 <= i < log.len() && log[i] == (is_dir, path);
    assert(log.push(x)[i] == (is_dir, path));
}

/// A removal confirmed after one more record was either confirmed before
/// or is that record.
pub proof fn lemma_log_contains_push_inv(
    log: Seq<(bool, Seq<char>)>,
    x: (bool, Seq<char>),
    is_dir: bool,
    path: Seq<char>,
)
    requires
        log_contains(log.push(x), is_dir, path),
    ensures
        log_contains(log, is_dir, path) || x == (is_dir, path),
{
    let i = choose|i: int| 0 <= i < log.push(x).len() && log.push(x)[i] == (is_dir, path);
    if i < log.len() {
        assert(log[i] == (is_dir, path));
    }
}

/// The first index at or after `i` whose entry is not a pseudo-entry.
pub open spec fn skip_dots(s: Seq<RawEntry>, i: int) -> int
    decreases s.len() - i,
    when 0 <= i <= s.len()
{
    if i < s.len() && is_dot_name(s[i].name@) {
        skip_dots(s, i + 1)
    } else {
        i
    }
}

/// Where the skip lands: on the first real entry, past only
/// pseudo-entries.
pub proof fn lemma_skip_dots(s: Seq<RawEntry>, i: int)
    requires
        0 <= i <= s.len(),
    ensures
        i <= skip_dots(s, i) <= s.len(),
        skip_dots(s, i) < s.len() ==> !is_dot_name(s[skip_dots(s, i)].name@),
        forall|j: int| i <= j < skip_dots(s, i) ==> is_dot_name(#[trigger] s[j].name@),
    decreases s.len() - i,
{
    if i < s.len() && is_dot_name(s[i].name@) {
        lemma_skip_dots(s, i + 1);
    }
}

/// One directory being emptied: its path, its listing, and how far the
/// listing has been processed.
struct DeleteFrame {
    path: String,
    entries: Vec<RawEntry>,
    idx: usize,
}

/// Deletes a subtree post-order as an explicit work-list walk.  The
/// caller performs the action the walk asks for — list, unlink or rmdir —
/// and reports the result; the walk confirms removals into its log and
/// only asks for a directory's removal after every entry of its listing
/// is confirmed removed.
pub struct DeleteWalk {
    start: Option<String>,
    stack: Vec<DeleteFrame>,
    removed: Vec<(bool, String)>,
    done: Option<Outcome>,
}

impl DeleteWalk {
    /// Every removal confirmed so far, in confirmation order: a flag for
    /// directory-or-file, and the path.
    pub closed spec fn removed_log(self) -> Seq<(bool, Seq<char>)> {
        self.removed@.map_values(|p: (bool, String)| (p.0, p.1@))
    }

    /// The paths of the directories still being emptied, outermost first.
    pub closed spec fn stack_paths(self) -> Seq<Seq<char>> {
        self.stack@.map_values(|f: DeleteFrame| f.path@)
    }

    /// The listing of the directory currently being emptied.
    pub closed spec fn top_entries(self) -> Seq<RawEntry> {
        self.stack@.last().entries@
    }

    /// The terminal outcome, once one is reached.
    pub closed spec fn done(self) -> Option<Outcome> {
        self.done
    }

    /// The walk's next request is a listing.
    pub closed spec fn wants_list(self) -> bool {
        &&& self.done is None
        &&& (match self.start {
            Some(_) => true,
            None => {
                &&& self.stack@.len() > 0
                &&& self.stack@.last().idx < self.stack@.last().entries@.len()
                &&& self.stack@.last().entries@[self.stack@.last().idx as int].is_directory
            },
        })
    }

    /// The directory the walk wants listed.
    pub closed spec fn list_target(self) -> Seq<char> {
        match self.start {
            Some(p) => p@,
            None => self.stack@.last().entries@[self.stack@.last().idx as int].path@,
        }
    }

    /// The walk's next request is a file deletion.
    pub closed spec fn wants_unlink(self) -> bool {
        &&& self.done is None
        &&& self.start is None
        &&& self.stack@.len() > 0
        &&& self.stack@.last().idx < self.stack@.last().entries@.len()
        &&& !self.stack@.last().entries@[self.stack@.last().idx as int].is_directory
    }

    /// The file the walk wants deleted.
    pub closed spec fn unlink_target(self) -> Seq<char> {
        self.stack@.last().entries@[self.stack@.last().idx as int].path@
    }

    /// The walk's next request is the removal of the emptied directory on
    /// top of its stack.
    pub closed spec fn wants_rmdir(self) -> bool {
        &&& self.done is None
        &&& self.start is None
        &&& self.stack@.len() > 0
        &&& self.stack@.last().idx == self.stack@.last().entries@.len()
    }

    /// The directory the walk wants removed.
    pub closed spec fn rmdir_target(self) -> Seq<char> {
        self.stack@.last().path@
    }

    /// The walk either has a next request or has reached its outcome;
    /// processed entries are confirmed removed; directories still on the
    /// stack are never in the removal log; and each stacked directory is
    /// the current entry of the one below it.
    pub closed spec fn wf(self) -> bool {
        &&& (self.done is None && self.start is None ==> self.stack@.len() > 0)
        &&& (self.start is Some ==> self.stack@.len() == 0)
        &&& (forall|k: int|
            0 <= k < self.stack@.len() ==> (#[trigger] self.stack@[k].idx)
                <= self.stack@[k].entries@.len())
        &&& (forall|k: int|
            0 <= k < self.stack@.len() && self.stack@[k].idx < self.stack@[k].entries@.len()
                ==> !is_dot_name(
                (#[trigger] self.stack@[k].entries@)[self.stack@[k].idx as int].name@,
            ))
        &&& (forall|k: int, j: int|
            0 <= k < self.stack@.len() && 0 <= j < self.stack@[k].idx ==> (is_dot_name(
                (#[trigger] self.stack@[k].entries@[j]).name@,
            ) || log_contains(
                self.removed_log(),
                self.stack@[k].entries@[j].is_directory,
                self.stack@[k].entries@[j].path@,
            )))
        &&& (forall|k: int|
            0 <= k < self.stack@.len() - 1 ==> ((#[trigger] self.stack@[k].idx)
                < self.stack@[k].entries@.len() && self.stack@[k + 1].path@
                == self.stack@[k].entries@[self.stack@[k].idx as int].path@
                && self.stack@[k].entries@[self.stack@[k].idx as int].is_directory))
        &&& (forall|k1: int, k2: int|
            0 <= k1 < k2 < self.stack@.len() ==> (#[trigger] self.stack@[k1].path@) != (
            #[trigger] self.stack@[k2].path@))
        &&& (forall|k: int|
            0 <= k < self.stack@.len() ==> !log_contains(
                self.removed_log(),
                true,
                #[trigger] self.stack@[k].path@,
            ))
    }

    /// Starts a post-order deletion of the subtree rooted at `root`.
    pub fn new(root: String) -> (r: Self)
        ensures
            r.wf(),
            r.done() is None,
            r.wants_list(),
            r.list_target() == root@,
            r.removed_log() == Seq::<(bool, Seq<char>)>::empty(),
            r.stack_paths().len() == 0,
    {
        let r = DeleteWalk { start: Some(root), stack: Vec::new(), removed: Vec::new(), done: None };
        proof {
            assert(r.removed_log() =~= Seq::<(bool, Seq<char>)>::empty());
        }
        r
    }

    /// The next remote call the walk needs, or nothing once an outcome is
    /// reached.
    pub fn next_action(&self) -> (r: Option<DeleteAction>)
        requires
            self.wf(),
        ensures
            (r is Some) == (self.done() is None),
            r matches Some(DeleteAction::List(p)) ==> self.wants_list() && p@ == self.list_target(),
            r matches Some(DeleteAction::Unlink(p)) ==> self.wants_unlink() && p@
                == self.unlink_target(),
            r matches Some(DeleteAction::Rmdir(p)) ==> self.wants_rmdir() && p@
                == self.rmdir_target(),
            self.wants_list() ==> r matches Some(DeleteAction::List(_)),
            self.wants_unlink() ==> r matches Some(DeleteAction::Unlink(_)),
            self.wants_rmdir() ==> r matches Some(DeleteAction::Rmdir(_)),
    {
        match &self.done {
            Some(_) => None,
            None => match &self.start {
                Some(p) => Some(DeleteAction::List(p.clone())),
                None => {
                    let top = &self.stack[self.stack.len() - 1];
                    if top.idx < top.entries.len() {
                        let e = &top.entries[top.idx];
                        if e.is_directory {
                            Some(DeleteAction::List(e.path.clone()))
                        } else {
                            Some(DeleteAction::Unlink(e.path.clone()))
                        }
                    } else {
                        Some(DeleteAction::Rmdir(top.path.clone()))
                    }
                },
            },
        }
    }

    /// Whether a directory removal of `path` is already confirmed in the
    /// log.
    fn dir_removal_logged(&self, path: &String) -> (r: bool)
        ensures
            r == log_contains(self.removed_log(), true, path@),
    {
        let n = self.removed.len();
        let mut i: usize = 0;
        while i < n
            invariant
                n == self.removed.len(),
                i <= n,
                forall|j: int| 0 <= j < i ==> self.removed_log()[j] != (true, path@),
            decreases n - i,
        {
            if self.removed[i].0 && self.removed[i].1 == *path {
                proof {
                    assert(self.removed_log()[i as int] == (true, path@));
                }
                return true;
            }
            proof {
                assert(self.removed_log()[i as int] != (true, path@));
            }
            i = i + 1;
        }
        false
    }

    /// Whether `path` is one of the directories still on the stack.
    fn path_on_stack(&self, path: &String) -> (r: bool)
        ensures
            r == self.stack_paths().contains(path@),
    {
        let n = self.stack.len();
        let mut i: usize = 0;
        while i < n
            invariant
                n == self.stack.len(),
                i <= n,
                forall|j: int| 0 <= j < i ==> self.stack_paths()[j] != path@,
            decreases n - i,
        {
            if self.stack[i].path == *path {
                proof {
                    assert(self.stack_paths()[i as int] == path@);
                }
                return true;
            }
            i = i + 1;
        }
        proof {
            if self.stack_paths().contains(path@) {
                let j = choose|j: int|
                    0 <= j < self.stack_paths().len() && self.stack_paths()[j] == path@;
                assert(false);
            }
        }
        false
    }

    /// A listing can be absorbed only for a directory the walk has not
    /// seen before: one neither on its stack nor already removed.  A
    /// remote tree never repeats a path; a repeat means the remote side
    /// is inconsistent.
    pub open spec fn list_target_fresh(self) -> bool {
        &&& !self.stack_paths().contains(self.list_target())
        &&& !log_contains(self.removed_log(), true, self.list_target())
    }

    /// Absorbs the listing of the directory the walk asked to have
    /// listed: the directory becomes the new top of the stack, to be
    /// emptied entry by entry.  A listing for a path the walk has already
    /// seen ends the walk with a remote failure at that path.
    pub fn on_listed(&mut self, entries: Vec<RawEntry>) -> (r: Result<(), FsError>)
        requires
            old(self).wf(),
            old(self).wants_list(),
        ensures
            final(self).wf(),
            final(self).removed_log() == old(self).removed_log(),
            old(self).list_target_fresh() ==> {
                &&& r == Ok::<(), FsError>(())
                &&& final(self).done() is None
                &&& final(self).stack_paths() == old(self).stack_paths().push(
                    old(self).list_target(),
                )
                &&& final(self).top_entries() == entries@
            },
            !old(self).list_target_fresh() ==> {
                &&& r matches Err(FsError::RemoteIoFailed { path }) && path@ == old(
                    self,
                ).list_target()
                &&& final(self).done() matches Some(Outcome::Failed(FsError::RemoteIoFailed { .. }))
                &&& final(self).stack_paths() == old(self).stack_paths()
            },
    {
        let target: String = match &self.start {
            Some(p) => p.clone(),
            None => {
                let top = &self.stack[self.stack.len() - 1];
                top.entries[top.idx].path.clone()
            },
        };
        if self.path_on_stack(&target) || self.dir_removal_logged(&target) {
            self.done = Some(
                Outcome::Failed(FsError::RemoteIoFailed { path: target.clone() }),
            );
            return Err(FsError::RemoteIoFailed { path: target });
        }
        let idx = skip_dots_from(&entries, 0);
        self.start = None;
        self.stack.push(DeleteFrame { path: target, entries, idx });
        proof {
            let ghost oldw = *old(self);
            let ghost t = oldw.list_target();
            let ghost newtop = self.stack@.len() - 1;
            lemma_skip_dots(self.stack@.last().entries@, 0);
            assert(self.removed_log() =~= oldw.removed_log());
            assert(self.stack@.drop_last() =~= oldw.stack@);
            assert(forall|k: int| 0 <= k < oldw.stack@.len() ==> self.stack@[k] == oldw.stack@[k]);
            assert(self.stack_paths() =~= oldw.stack_paths().push(t));
            assert(self.stack@[newtop] == self.stack@.last());
            assert(self.stack@.last().path@ == t);
            assert forall|k: int| 0 <= k < oldw.stack@.len() implies oldw.stack@[k].path@ != t by {
                if oldw.stack@[k].path@ == t {
                    assert(oldw.stack_paths()[k] == t);
                    assert(oldw.stack_paths().contains(t));
                }
            }
            assert(forall|j: int|
                0 <= j < self.stack@.last().idx ==> is_dot_name(
                    #[trigger] self.stack@.last().entries@[j].name@,
                ));
            if oldw.stack@.len() > 0 {
                assert(oldw.stack@[newtop - 1].idx < oldw.stack@[newtop - 1].entries@.len());
                assert(self.stack@[newtop].path@ == self.stack@[newtop - 1].entries@[self.stack@[
                newtop - 1].idx as int].path@);
            }
            assert(self.wf());
        }
        Ok(())
    }

    /// Confirms the removal the walk asked for — a file unlink or the
    /// removal of the emptied directory on top of the stack — and records
    /// it in the log.  A directory's removal is confirmed only after
    /// every real entry of its listing is already in the log; when the
    /// last directory comes off the stack the walk is complete.
    pub fn on_removed(&mut self)
        requires
            old(self).wf(),
            old(self).wants_unlink() || old(self).wants_rmdir(),
        ensures
            final(self).wf(),
            old(self).wants_unlink() ==> {
                &&& final(self).removed_log() == old(self).removed_log().push(
                    (false, old(self).unlink_target()),
                )
                &&& final(self).done() is None
                &&& final(self).stack_paths() == old(self).stack_paths()
            },
            old(self).wants_rmdir() ==> {
                &&& final(self).removed_log() == old(self).removed_log().push(
                    (true, old(self).rmdir_target()),
                )
                &&& (forall|j: int|
                    0 <= j < old(self).top_entries().len() && !is_dot_name(
                        (#[trigger] old(self).top_entries()[j]).name@,
                    ) ==> log_contains(
                        old(self).removed_log(),
                        old(self).top_entries()[j].is_directory,
                        old(self).top_entries()[j].path@,
                    ))
                &&& final(self).stack_paths() == old(self).stack_paths().drop_last()
                &&& (final(self).stack_paths().len() == 0 ==> final(self).done() == Some(
                    Outcome::Completed,
                ))
                &&& (final(self).stack_paths().len() > 0 ==> final(self).done() is None)
            },
    {
        let top_i = self.stack.len() - 1;
        let at_end = self.stack[top_i].idx == self.stack[top_i].entries.len();
        if !at_end {
            let e_is_dir = self.stack[top_i].entries[self.stack[top_i].idx].is_directory;
            let e_path = self.stack[top_i].entries[self.stack[top_i].idx].path.clone();
            self.removed.push((false, e_path));
            let next = skip_dots_from(&self.stack[top_i].entries, self.stack[top_i].idx + 1);
            self.stack[top_i].idx = next;
            proof {
                let ghost oldw = *old(self);
                let ghost oldidx = oldw.stack@[top_i as int].idx as int;
                let ghost pushed = (false, oldw.unlink_target());
                lemma_skip_dots(self.stack@[top_i as int].entries@, oldidx + 1);
                assert(self.removed_log() =~= oldw.removed_log().push(pushed));
                assert(self.stack_paths() =~= oldw.stack_paths());
                assert(forall|k: int|
                    0 <= k < self.stack@.len() && k != top_i ==> self.stack@[k] == oldw.stack@[k]);
                assert(self.stack@[top_i as int].entries@ == oldw.stack@[top_i as int].entries@);
                assert(self.stack@[top_i as int].path@ == oldw.stack@[top_i as int].path@);
                assert(self.removed_log().last() == pushed);
                assert forall|k: int, j: int|
                    0 <= k < self.stack@.len() && 0 <= j < self.stack@[k].idx implies (is_dot_name(
                    (#[trigger] self.stack@[k].entries@[j]).name@,
                ) || log_contains(
                    self.removed_log(),
                    self.stack@[k].entries@[j].is_directory,
                    self.stack@[k].entries@[j].path@,
                )) by {
                    let e = self.stack@[k].entries@[j];
                    if k != top_i || j < oldidx {
                        assert(e == oldw.stack@[k].entries@[j]);
                        if !is_dot_name(e.name@) {
                            assert(log_contains(oldw.removed_log(), e.is_directory, e.path@));
                            lemma_log_contains_push(
                                oldw.removed_log(),
                                pushed,
                                e.is_directory,
                                e.path@,
                            );
                        }
                    } else if j == oldidx {
                        assert(!e.is_directory);
                        assert(e.path@ == oldw.unlink_target());
                        assert(self.removed_log()[self.removed_log().len() - 1] == (
                            false,
                            e.path@,
                        ));
                    } else {
                        assert(is_dot_name(e.name@));
                    }
                }
                assert forall|k: int| 0 <= k < self.stack@.len() implies !log_contains(
                    self.removed_log(),
                    true,
                    #[trigger] self.stack@[k].path@,
                ) by {
                    if log_contains(self.removed_log(), true, self.stack@[k].path@) {
                        lemma_log_contains_push_inv(
                            oldw.removed_log(),
                            pushed,
                            true,
                            self.stack@[k].path@,
                        );
                        assert(self.stack@[k].path@ == oldw.stack@[k].path@);
                        assert(log_contains(oldw.removed_log(), true, oldw.stack@[k].path@));
                    }
                }
                assert(self.wf());
            }
        } else {
            let ghost oldw = *old(self);
            let ghost pushed = (true, oldw.rmdir_target());
            let frame = self.stack.pop().unwrap();
            self.removed.push((true, frame.path));
            proof {
                assert(self.stack@ =~= oldw.stack@.drop_last());
                assert(self.removed_log() =~= oldw.removed_log().push(pushed));
                assert(self.removed_log().last() == pushed);
                assert(self.stack_paths() =~= oldw.stack_paths().drop_last());
            }
            if self.stack.len() == 0 {
                self.done = Some(Outcome::Completed);
            } else {
                let parent_i = self.stack.len() - 1;
                proof {
                    assert(self.stack@[parent_i as int] == oldw.stack@[parent_i as int]);
                    assert(oldw.stack@[parent_i as int].idx < oldw.stack@[
                    parent_i as int].entries@.len());
                }
                let parent_idx = self.stack[parent_i].idx;
                let parent_len = self.stack[parent_i].entries.len();
                proof {
                    assert(parent_idx < parent_len);
                }
                let next = skip_dots_from(&self.stack[parent_i].entries, parent_idx + 1);
                self.stack[parent_i].idx = next;
                proof {
                    let ghost oldidx = oldw.stack@[parent_i as int].idx as int;
                    lemma_skip_dots(self.stack@[parent_i as int].entries@, oldidx + 1);
                    assert(self.stack_paths() =~= oldw.stack_paths().drop_last());
                    assert(forall|k: int|
                        0 <= k < self.stack@.len() && k != parent_i ==> self.stack@[k]
                            == oldw.stack@[k]);
                    assert(self.stack@[parent_i as int].entries@ == oldw.stack@[
                    parent_i as int].entries@);
                    assert(self.stack@[parent_i as int].path@ == oldw.stack@[
                    parent_i as int].path@);
                    assert forall|k: int, j: int|
                        0 <= k < self.stack@.len() && 0 <= j
                            < self.stack@[k].idx implies (is_dot_name(
                        (#[trigger] self.stack@[k].entries@[j]).name@,
                    ) || log_contains(
                        self.removed_log(),
                        self.stack@[k].entries@[j].is_directory,
                        self.stack@[k].entries@[j].path@,
                    )) by {
                        let e = self.stack@[k].entries@[j];
                        if k != parent_i || j < oldidx {
                            assert(e == oldw.stack@[k].entries@[j]);
                            if !is_dot_name(e.name@) {
                                assert(log_contains(oldw.removed_log(), e.is_directory, e.path@));
                                lemma_log_contains_push(
                                    oldw.removed_log(),
                                    pushed,
                                    e.is_directory,
                                    e.path@,
                                );
                            }
                        } else if j == oldidx {
                            assert(e.is_directory);
                            assert(e.path@ == oldw.rmdir_target());
                            assert(self.removed_log()[self.removed_log().len() - 1] == (
                                true,
                                e.path@,
                            ));
                        } else {
                            assert(is_dot_name(e.name@));
                        }
                    }
                }
            }
            proof {
                assert forall|k: int| 0 <= k < self.stack@.len() implies !log_contains(
                    self.removed_log(),
                    true,
                    #[trigger] self.stack@[k].path@,
                ) by {
                    assert(self.stack@[k].path@ == oldw.stack@[k].path@);
                    if log_contains(self.removed_log(), true, self.stack@[k].path@) {
                        lemma_log_contains_push_inv(
                            oldw.removed_log(),
                            pushed,
                            true,
                            self.stack@[k].path@,
                        );
                        assert(oldw.stack@[k].path@ != oldw.stack@[oldw.stack@.len() - 1].path@);
                        assert(log_contains(oldw.removed_log(), true, oldw.stack@[k].path@));
                    }
                }
                assert(self.wf());
            }
        }
    }

    /// Records that the requested remote call failed: the walk ends with
    /// that failure and nothing further is removed, so every directory
    /// still on the stack — the ancestors of the failing node — stays
    /// unremoved.
    pub fn on_failed(&mut self, err: FsError)
        requires
            old(self).wf(),
            old(self).done() is None,
        ensures
            final(self).wf(),
            final(self).removed_log() == old(self).removed_log(),
            final(self).stack_paths() == old(self).stack_paths(),
            final(self).done() == Some(Outcome::Failed(err)),
            forall|k: int|
                0 <= k < final(self).stack_paths().len() ==> !log_contains(
                    final(self).removed_log(),
                    true,
                    #[trigger] final(self).stack_paths()[k],
                ),
    {
        self.done = Some(Outcome::Failed(err));
    }

    /// Whether the walk has reached a terminal outcome.
    pub fn is_done(&self) -> (r: bool)
        ensures
            r == (self.done() is Some),
    {
        match self.done {
            Some(_) => true,
            None => false,
        }
    }

    /// Whether the whole subtree was deleted.
    pub fn completed(&self) -> (r: bool)
        ensures
            r == (self.done() == Some(Outcome::Completed)),
    {
        match &self.done {
            Some(Outcome::Completed) => true,
            _ => false,
        }
    }
}

/// A directory that is still on a walk's stack has never had its removal
/// confirmed: a failure therefore leaves every ancestor of the failing
/// node in place.
pub proof fn lemma_stacked_dirs_not_removed(w: DeleteWalk, k: int)
    requires
        w.wf(),
        0 <= k < w.stack_paths().len(),
    ensures
        !log_contains(w.removed_log(), true, w.stack_paths()[k]),
{
}

/// The first index at or after `from` whose entry is not a pseudo-entry.
fn skip_dots_from(entries: &Vec<RawEntry>, from: usize) -> (r: usize)
    requires
        from <= entries@.len(),
    ensures
        r == skip_dots(entries@, from as int),
{
    let n = entries.len();
    let mut i = from;
    while i < n
        invariant
            n == entries@.len(),
            from <= i <= n,
            skip_dots(entries@, from as int) == skip_dots(entries@, i as int),
        decreases n - i,
    {
        let e = &entries[i];
        let name_len = e.name.as_str().unicode_len();
        let dot = name_len == 1 && e.name.as_str().get_char(0) == '.';
        let dotdot = name_len == 2 && e.name.as_str().get_char(0) == '.' && e.name.as_str().get_char(
            1,
        ) == '.';
        proof {
            if dot {
                assert(e.name@ =~= seq!['.']);
            }
            if dotdot {
                assert(e.name@ =~= seq!['.', '.']);
            }
            if is_dot_name(e.name@) {
                assert(dot || dotdot);
            }
        }
        if !(dot || dotdot) {
            return i;
        }
        i = i + 1;
    }
    n
}

} // verus!
