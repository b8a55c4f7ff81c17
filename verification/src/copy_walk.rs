//! Recursive subtree copy, run as an explicit work-list walk.
//!
//! A directory is copied by creating the destination directory first —
//! an already existing destination is an error, by design — then walking
//! the source listing: files go through the chunked-transfer contract,
//! subdirectories are entered the same way.  The cancellation token is
//! observed after every finished child; a cancelled or failed copy may
//! leave a partially populated destination tree, which is not rolled
//! back.

use crate::errors::FsError;
use crate::errors::Outcome;
use crate::size_walk::is_dot_name;
use crate::delete_walk::skip_dots;
use crate::delete_walk::lemma_skip_dots;
use crate::types::RawEntry;
use vstd::prelude::*;
use vstd::string::StrSliceExecFns;
use vstd::string::StringExecFns;

verus! {

/// What the walk asks its driver to do next.
pub enum CopyAction {
    /// Create this destination directory; it must not already exist.
    Mkdir(String),
    /// List this source directory and report the entries.
    List(String),
    /// Copy one file, source to destination, under the chunked-transfer
    /// contract.
    CopyFile { src: String, dst: String },
}

/// The destination path of a child entry: the parent destination, a
/// separator, and the entry's name.
pub open spec fn child_dst(dst: Seq<char>, name: Seq<char>) -> Seq<char> {
    dst + seq!['/'] + name
}

/// How far one directory's copy has come.
enum FramePhase {
    /// Its destination directory is not created yet.
    NeedMkdir,
    /// Its source is not listed yet.
    NeedList,
    /// Its entries are being copied, `idx` first.
    Processing,
}

/// One directory being copied.
struct CopyFrame {
    src: String,
    dst: String,
    entries: Vec<RawEntry>,
    idx: usize,
    phase: FramePhase,
}

impl CopyFrame {
    /// Phase-dependent consistency: the cursor stays inside the listing
    /// and rests on a real entry.
    spec fn wf(self) -> bool {
        match self.phase {
            FramePhase::Processing => {
                &&& self.idx < self.entries@.len()
                &&& !is_dot_name(self.entries@[self.idx as int].name@)
            },
            _ => true,
        }
    }
}

/// Copies a subtree as an explicit work-list walk.  The caller performs
/// the action the walk asks for — create a directory, list a source
/// directory, or copy one file — reports the result together with the
/// observed cancellation token, and the walk schedules the next step.
pub struct CopyWalk {
    stack: Vec<CopyFrame>,
    done: Option<Outcome>,
}

impl CopyWalk {
    /// The terminal outcome, once one is reached.
    pub closed spec fn done(self) -> Option<Outcome> {
        self.done
    }

    /// How many directories are open, root first.
    pub closed spec fn depth(self) -> nat {
        self.stack@.len()
    }

    /// The walk's next request is a destination mkdir.
    pub closed spec fn wants_mkdir(self) -> bool {
        &&& self.done is None
        &&& self.stack@.len() > 0
        &&& (match self.stack@.last().phase {
            FramePhase::NeedMkdir => true,
            FramePhase::Processing => self.stack@.last().entries@[self.stack@.last().idx as int].is_directory,
            FramePhase::NeedList => false,
        })
    }

    /// The directory the walk wants created: the top frame's own
    /// destination, or the destination of the subdirectory entry under
    /// the cursor.
    pub closed spec fn mkdir_target(self) -> Seq<char> {
        match self.stack@.last().phase {
            FramePhase::NeedMkdir => self.stack@.last().dst@,
            _ => child_dst(
                self.stack@.last().dst@,
                self.stack@.last().entries@[self.stack@.last().idx as int].name@,
            ),
        }
    }

    /// The pending mkdir is for the top directory itself, not for a
    /// subdirectory entry under its cursor.
    pub closed spec fn opening_top(self) -> bool {
        self.stack@.last().phase is NeedMkdir
    }

    /// The source directory of the top frame.
    pub closed spec fn top_src(self) -> Seq<char> {
        self.stack@.last().src@
    }

    /// The destination directory of the top frame.
    pub closed spec fn top_dst(self) -> Seq<char> {
        self.stack@.last().dst@
    }

    /// The listing of the top frame's source.
    pub closed spec fn top_entries(self) -> Seq<RawEntry> {
        self.stack@.last().entries@
    }

    /// The cursor of the top frame.
    pub closed spec fn top_idx(self) -> int {
        self.stack@.last().idx as int
    }

    /// The top frame's cursor rests at `at`, on a real entry, and the
    /// walk's next request handles that entry: a file copy for a file, a
    /// destination mkdir for a subdirectory.
    pub open spec fn cursor_at(self, entries: Seq<RawEntry>, at: int) -> bool {
        &&& self.done() is None
        &&& self.top_entries() == entries
        &&& self.top_idx() == at
        &&& (entries[at].is_directory ==> self.wants_mkdir() && self.mkdir_target() == child_dst(
            self.top_dst(),
            entries[at].name@,
        ))
        &&& (!entries[at].is_directory ==> self.wants_copy_file() && self.copy_src()
            == entries[at].path@ && self.copy_dst() == child_dst(
            self.top_dst(),
            entries[at].name@,
        ))
    }

    /// The walk's next request is a source listing.
    pub closed spec fn wants_list(self) -> bool {
        &&& self.done is None
        &&& self.stack@.len() > 0
        &&& self.stack@.last().phase is NeedList
    }

    /// The source directory the walk wants listed.
    pub closed spec fn list_target(self) -> Seq<char> {
        self.stack@.last().src@
    }

    /// The walk's next request is a single-file copy.
    pub closed spec fn wants_copy_file(self) -> bool {
        &&& self.done is None
        &&& self.stack@.len() > 0
        &&& self.stack@.last().phase is Processing
        &&& !self.stack@.last().entries@[self.stack@.last().idx as int].is_directory
    }

    /// The source of the file copy under the cursor.
    pub closed spec fn copy_src(self) -> Seq<char> {
        self.stack@.last().entries@[self.stack@.last().idx as int].path@
    }

    /// The destination of the file copy under the cursor.
    pub closed spec fn copy_dst(self) -> Seq<char> {
        child_dst(
            self.stack@.last().dst@,
            self.stack@.last().entries@[self.stack@.last().idx as int].name@,
        )
    }

    /// A running walk has an open directory on its stack and every open
    /// directory is consistent.
    pub closed spec fn wf(self) -> bool {
        &&& (self.done is None ==> self.stack@.len() > 0)
        &&& (forall|k: int| 0 <= k < self.stack@.len() ==> (#[trigger] self.stack@[k]).wf())
    }

    /// Starts a copy of the subtree at `src` into the fresh directory
    /// `dst`.
    pub fn new(src: String, dst: String) -> (r: Self)
        ensures
            r.wf(),
            r.done() is None,
            r.wants_mkdir(),
            r.mkdir_target() == dst@,
            r.depth() == 1,
    {
        let mut stack: Vec<CopyFrame> = Vec::new();
        stack.push(
            CopyFrame { src, dst, entries: Vec::new(), idx: 0, phase: FramePhase::NeedMkdir },
        );
        CopyWalk { stack, done: None }
    }

    /// The next remote call the walk needs, or nothing once an outcome
    /// is reached.
    pub fn next_action(&self) -> (r: Option<CopyAction>)
        requires
            self.wf(),
        ensures
            (r is Some) == (self.done() is None),
            r matches Some(CopyAction::Mkdir(d)) ==> self.wants_mkdir() && d@
                == self.mkdir_target(),
            r matches Some(CopyAction::List(s)) ==> self.wants_list() && s@ == self.list_target(),
            r matches Some(CopyAction::CopyFile { src, dst }) ==> self.wants_copy_file() && src@
                == self.copy_src() && dst@ == self.copy_dst(),
            self.wants_mkdir() ==> r matches Some(CopyAction::Mkdir(_)),
            self.wants_list() ==> r matches Some(CopyAction::List(_)),
            self.wants_copy_file() ==> r matches Some(CopyAction::CopyFile { .. }),
    {
        match &self.done {
            Some(_) => None,
            None => {
                let top = &self.stack[self.stack.len() - 1];
                match top.phase {
                    FramePhase::NeedMkdir => Some(CopyAction::Mkdir(top.dst.clone())),
                    FramePhase::NeedList => Some(CopyAction::List(top.src.clone())),
                    FramePhase::Processing => {
                        let e = &top.entries[top.idx];
                        if e.is_directory {
                            Some(CopyAction::Mkdir(join_path(&top.dst, &e.name)))
                        } else {
                            Some(
                                CopyAction::CopyFile {
                                    src: e.path.clone(),
                                    dst: join_path(&top.dst, &e.name),
                                },
                            )
                        }
                    },
                }
            },
        }
    }

    /// Confirms that the requested destination directory was created.
    /// For the top directory itself the walk goes on to list its source;
    /// for a subdirectory entry the walk descends into it.  A set token
    /// cancels the walk instead.
    pub fn on_mkdir_ok(&mut self, cancelled: bool)
        requires
            old(self).wf(),
            old(self).wants_mkdir(),
        ensures
            final(self).wf(),
            cancelled ==> final(self).done() == Some(Outcome::Cancelled),
            !cancelled ==> {
                &&& final(self).done() is None
                &&& final(self).wants_list()
                &&& (old(self).opening_top() ==> final(self).depth() == old(self).depth() && final(
                    self).list_target() == old(self).top_src())
                &&& (!old(self).opening_top() ==> final(self).depth() == old(self).depth() + 1
                    && final(self).list_target() == old(self).copy_src())
            },
    {
        if cancelled {
            self.done = Some(Outcome::Cancelled);
            return ;
        }
        let top_i = self.stack.len() - 1;
        let descend = match self.stack[top_i].phase {
            FramePhase::NeedMkdir => false,
            _ => true,
        };
        if !descend {
            self.stack[top_i].phase = FramePhase::NeedList;
            proof {
                assert(forall|k: int|
                    0 <= k < self.stack@.len() && k != top_i ==> self.stack@[k] == old(
                        self,
                    ).stack@[k]);
            }
        } else {
            let e_src = self.stack[top_i].entries[self.stack[top_i].idx].path.clone();
            let e_dst = join_path(&self.stack[top_i].dst, &self.stack[top_i].entries[self.stack[top_i].idx].name);
            self.stack.push(
                CopyFrame {
                    src: e_src,
                    dst: e_dst,
                    entries: Vec::new(),
                    idx: 0,
                    phase: FramePhase::NeedList,
                },
            );
            proof {
                assert(self.stack@.drop_last() =~= old(self).stack@);
                assert(forall|k: int|
                    0 <= k < old(self).stack@.len() ==> self.stack@[k] == old(self).stack@[k]);
            }
        }
    }

    /// Absorbs the listing of the top directory's source and begins
    /// copying its entries; a directory with no real entries is finished
    /// at once.  A set token cancels the walk instead.
    pub fn on_listed(&mut self, entries: Vec<RawEntry>, cancelled: bool)
        requires
            old(self).wf(),
            old(self).wants_list(),
        ensures
            final(self).wf(),
            cancelled ==> final(self).done() == Some(Outcome::Cancelled),
            !cancelled ==> (final(self).done() is None || final(self).done() == Some(
                Outcome::Completed,
            )),
            !cancelled && final(self).done() is None ==> final(self).depth() <= old(self).depth(),
            !cancelled && skip_dots(entries@, 0) < entries@.len() ==> {
                &&& final(self).depth() == old(self).depth()
                &&& final(self).top_dst() == old(self).top_dst()
                &&& final(self).cursor_at(entries@, skip_dots(entries@, 0))
            },
            !cancelled && skip_dots(entries@, 0) >= entries@.len() ==> (final(self).done() == Some(
                Outcome::Completed,
            ) || final(self).depth() < old(self).depth()),
    {
        if cancelled {
            self.done = Some(Outcome::Cancelled);
            return ;
        }
        let top_i = self.stack.len() - 1;
        let elen = entries.len();
        let idx = skip_dots_from_entries(&entries, 0);
        self.stack[top_i].entries = entries;
        self.stack[top_i].idx = idx;
        if idx >= elen {
            self.stack[top_i].phase = FramePhase::NeedList;
        } else {
            self.stack[top_i].phase = FramePhase::Processing;
        }
        proof {
            lemma_skip_dots(self.stack@[top_i as int].entries@, 0);
            assert(forall|k: int|
                0 <= k < self.stack@.len() && k != top_i ==> self.stack@[k] == old(
                    self,
                ).stack@[k]);
        }
        self.close_finished_frames();
    }

    /// Confirms that the file copy under the cursor finished, and moves
    /// to the next entry; directories whose entries are all handled are
    /// closed, and when the root closes the copy is complete.  A set
    /// token cancels the walk instead.
    pub fn on_file_copied(&mut self, cancelled: bool)
        requires
            old(self).wf(),
            old(self).wants_copy_file(),
        ensures
            final(self).wf(),
            cancelled ==> final(self).done() == Some(Outcome::Cancelled),
            !cancelled ==> (final(self).done() is None || final(self).done() == Some(
                Outcome::Completed,
            )),
            !cancelled && skip_dots(old(self).top_entries(), old(self).top_idx() + 1) < old(
                self,
            ).top_entries().len() ==> {
                &&& final(self).depth() == old(self).depth()
                &&& final(self).top_dst() == old(self).top_dst()
                &&& final(self).cursor_at(
                    old(self).top_entries(),
                    skip_dots(old(self).top_entries(), old(self).top_idx() + 1),
                )
            },
            !cancelled && skip_dots(old(self).top_entries(), old(self).top_idx() + 1) >= old(
                self,
            ).top_entries().len() ==> (final(self).done() == Some(Outcome::Completed) || final(
                self).depth() < old(self).depth()),
    {
        if cancelled {
            self.done = Some(Outcome::Cancelled);
            return ;
        }
        self.advance_cursor();
        self.close_finished_frames();
    }

    /// Records that a subdirectory under the cursor has finished
    /// copying: the walk returns to the parent and moves past that
    /// entry.  Called internally when a frame closes.
    fn advance_cursor(&mut self)
        requires
            old(self).wf(),
            old(self).done() is None,
            old(self).stack@.len() > 0,
            old(self).stack@.last().phase is Processing,
        ensures
            final(self).done() is None,
            final(self).stack@.len() == old(self).stack@.len(),
            forall|k: int|
                0 <= k < final(self).stack@.len() - 1 ==> final(self).stack@[k] == old(
                    self,
                ).stack@[k],
            final(self).stack@.last().phase is Processing || final(self).stack@.last().phase
                is NeedList,
            final(self).stack@.last().phase is Processing ==> final(self).stack@.last().wf(),
            final(self).stack@.last().phase is NeedList ==> final(self).stack@.last().idx
                >= final(self).stack@.last().entries@.len(),
            final(self).stack@.last().src == old(self).stack@.last().src,
            final(self).stack@.last().dst == old(self).stack@.last().dst,
            final(self).stack@.last().entries == old(self).stack@.last().entries,
            final(self).stack@.last().idx == skip_dots(
                old(self).stack@.last().entries@,
                old(self).stack@.last().idx + 1,
            ),
            (final(self).stack@.last().phase is Processing) == (skip_dots(
                old(self).stack@.last().entries@,
                old(self).stack@.last().idx + 1,
            ) < old(self).stack@.last().entries@.len()),
    {
        let top_i = self.stack.len() - 1;
        let cur = self.stack[top_i].idx;
        let len = self.stack[top_i].entries.len();
        let next = skip_dots_from_entries(&self.stack[top_i].entries, cur + 1);
        self.stack[top_i].idx = next;
        if next >= len {
            // Mark the frame closed; the caller pops it.
            self.stack[top_i].phase = FramePhase::NeedList;
        } else {
            self.stack[top_i].phase = FramePhase::Processing;
        }
        proof {
            lemma_skip_dots(self.stack@[top_i as int].entries@, cur + 1);
            assert(forall|k: int|
                0 <= k < self.stack@.len() && k != top_i ==> self.stack@[k] == old(
                    self,
                ).stack@[k]);
        }
    }

    /// Pops every directory whose entries are all handled; closing the
    /// root completes the walk.
    fn close_finished_frames(&mut self)
        requires
            old(self).wf(),
            old(self).done() is None,
            old(self).stack@.len() > 0,
            old(self).stack@.last().phase is Processing || (old(self).stack@.last().phase
                is NeedList && old(self).stack@.last().idx >= old(self).stack@.last().entries@.len()),
            old(self).stack@.last().phase is Processing ==> old(self).stack@.last().wf(),
        ensures
            final(self).wf(),
            final(self).done() is None || final(self).done() == Some(Outcome::Completed),
            final(self).done() is None ==> final(self).depth() <= old(self).depth(),
            old(self).stack@.last().phase is Processing ==> *final(self) == *old(self),
            old(self).stack@.last().phase is NeedList ==> (final(self).done() == Some(
                Outcome::Completed,
            ) || final(self).depth() < old(self).depth()),
    {
        loop
            invariant
                self.done is None,
                self.stack@.len() > 0,
                self.stack@.last().phase is Processing || (self.stack@.last().phase is NeedList
                    && self.stack@.last().idx >= self.stack@.last().entries@.len()),
                self.stack@.last().phase is Processing ==> self.stack@.last().wf(),
                forall|k: int|
                    0 <= k < self.stack@.len() - 1 ==> (#[trigger] self.stack@[k]).wf(),
                self.stack@.len() <= old(self).stack@.len(),
                old(self).stack@.last().phase is Processing ==> *self == *old(self),
                old(self).stack@.last().phase is NeedList ==> self.stack@.len() < old(
                    self,
                ).stack@.len() || *self == *old(self),
            decreases self.stack@.len(),
        {
            let top_i = self.stack.len() - 1;
            let closed = match self.stack[top_i].phase {
                FramePhase::NeedList => true,
                _ => false,
            };
            if !closed {
                return ;
            }
            self.stack.pop();
            if self.stack.len() == 0 {
                self.done = Some(Outcome::Completed);
                return ;
            }
            let new_top = self.stack.len() - 1;
            let at_end = {
                let f = &self.stack[new_top];
                match f.phase {
                    FramePhase::Processing => false,
                    _ => true,
                }
            };
            if at_end {
                return ;
            }
            self.advance_cursor();
        }
    }

    /// Records that the requested remote call failed: the walk ends with
    /// that failure and asks for nothing further.
    pub fn on_failed(&mut self, err: FsError)
        requires
            old(self).wf(),
            old(self).done() is None,
        ensures
            final(self).wf(),
            final(self).done() == Some(Outcome::Failed(err)),
    {
        self.done = Some(Outcome::Failed(err));
    }

    /// Whether the walk has reached a terminal outcome.
    pub fn is_done(&self) -> (r: bool)
        ensures
            r == (self.done() is Some),
    {
        match self.done {
            Some(_) => true,
            None => false,
        }
    }

    /// Whether the whole subtree was copied.
    pub fn completed(&self) -> (r: bool)
        ensures
            r == (self.done() == Some(Outcome::Completed)),
    {
        match &self.done {
            Some(Outcome::Completed) => true,
            _ => false,
        }
    }

    /// Whether the walk stopped at an observed cancellation.
    pub fn cancelled(&self) -> (r: bool)
        ensures
            r == (self.done() == Some(Outcome::Cancelled)),
    {
        match &self.done {
            Some(Outcome::Cancelled) => true,
            _ => false,
        }
    }
}

/// Joins a directory path and an entry name with the remote separator.
fn join_path(dir: &String, name: &String) -> (r: String)
    ensures
        r@ == child_dst(dir@, name@),
{
    proof {
        reveal_strlit("/");
        assert("/"@ =~= seq!['/']);
    }
    let mut r = dir.clone();
    r.append("/");
    r.append(name.as_str());
    proof {
        assert(r@ =~= child_dst(dir@, name@));
    }
    r
}

/// The first index at or after `from` whose entry is not a pseudo-entry.
fn skip_dots_from_entries(entries: &Vec<RawEntry>, from: usize) -> (r: usize)
    requires
        from <= entries@.len(),
    ensures
        r == skip_dots(entries@, from as int),
        r >= from,
{
    proof {
        lemma_skip_dots(entries@, from as int);
    }
    let n = entries.len();
    let mut i = from;
    while i < n
        invariant
            n == entries@.len(),
            from <= i <= n,
            skip_dots(entries@, from as int) == skip_dots(entries@, i as int),
        decreases n - i,
    {
        let e = &entries[i];
        let name_len = e.name.as_str().unicode_len();
        let dot = name_len == 1 && e.name.as_str().get_char(0) == '.';
        let dotdot = name_len == 2 && e.name.as_str().get_char(0) == '.' && e.name.as_str().get_char(
            1,
        ) == '.';
        proof {
            if dot {
                assert(e.name@ =~= seq!['.']);
            }
            if dotdot {
                assert(e.name@ =~= seq!['.', '.']);
            }
            if is_dot_name(e.name@) {
                assert(dot || dotdot);
            }
        }
        if !(dot || dotdot) {
            return i;
        }
        i = i + 1;
    }
    n
}

} // verus!
