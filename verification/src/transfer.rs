//! The chunked-transfer state machine.
//!
//! Upload, download and single-file copy all follow one contract: bytes
//! move in chunks of at most [`CHUNK_SIZE`]; every non-empty chunk raises
//! the running counter and is reported in a progress event; the
//! cancellation token is observed after each chunk; an empty read means
//! the source is exhausted and the transfer is complete.  The caller
//! performs the reads and writes and feeds each chunk's length into the
//! machine, publishing the events it hands back.

use crate::errors::Outcome;
use crate::types::TransferEvent;
use crate::types::TransferKind;
use vstd::prelude::*;

verus! {

/// Bytes moved per read/write step.
pub const CHUNK_SIZE: usize = 8192;

/// True of the events that report an observed cancellation.
pub open spec fn is_cancel_event(e: TransferEvent) -> bool {
    match e {
        TransferEvent::Cancelled { .. } => true,
        _ => false,
    }
}

/// True of the events that report normal completion.
pub open spec fn is_finish_event(e: TransferEvent) -> bool {
    match e {
        TransferEvent::Finished { .. } => true,
        _ => false,
    }
}

/// The byte counter a progress event carries.
pub open spec fn progress_value(e: TransferEvent) -> u64 {
    match e {
        TransferEvent::Progress { transferred, .. } => transferred,
        _ => 0,
    }
}

/// How many cancellation events a history holds.
pub open spec fn count_cancel_events(s: Seq<TransferEvent>) -> nat
    decreases s.len(),
{
    if s.len() == 0 {
        0
    } else {
        count_cancel_events(s.drop_last()) + if is_cancel_event(s.last()) {
            1nat
        } else {
            0nat
        }
    }
}

/// How many completion events a history holds.
pub open spec fn count_finish_events(s: Seq<TransferEvent>) -> nat
    decreases s.len(),
{
    if s.len() == 0 {
        0
    } else {
        count_finish_events(s.drop_last()) + if is_finish_event(s.last()) {
            1nat
        } else {
            0nat
        }
    }
}

/// The sequence of progress values a transfer of `total` bytes reports
/// when every read before the last returns a full chunk of `chunk` bytes:
/// one value per chunk, rising by `chunk` and ending at `total`.
pub open spec fn chunk_progress(total: u64, chunk: u64) -> Seq<u64>
    recommends
        chunk > 0,
{
    Seq::new(
        (((total + chunk - 1) / (chunk as int)) as nat),
        |i: int|
            if (i + 1) * chunk < total {
                ((i + 1) * chunk) as u64
            } else {
                total
            },
    )
}

/// The progress values of a full-chunk transfer are strictly increasing,
/// there is one for each of the ceiling(total / chunk) chunks, and the
/// last one is the total itself.
pub proof fn lemma_chunk_progress(total: u64, chunk: u64)
    requires
        chunk > 0,
    ensures
        chunk_progress(total, chunk).len() == (total + chunk - 1) / (chunk as int),
        forall|i: int, j: int|
            0 <= i < j < chunk_progress(total, chunk).len() ==> chunk_progress(total, chunk)[i]
                < chunk_progress(total, chunk)[j],
        total > 0 ==> chunk_progress(total, chunk).last() == total,
        total == 0 ==> chunk_progress(total, chunk).len() == 0,
{
    let s = chunk_progress(total, chunk);
    let len = (total + chunk - 1) / (chunk as int);
    if total == 0 {
        assert((total + chunk - 1) / (chunk as int) == 0) by (nonlinear_arith)
            requires
                chunk > 0,
                total == 0,
        ;
    }
    assert forall|i: int, j: int| 0 <= i < j < s.len() implies s[i] < s[j] by {
        assert((i + 1) * chunk < total) by (nonlinear_arith)
            requires
                0 <= i,
                i < j,
                j < len,
                len == (total + chunk - 1) / (chunk as int),
                chunk > 0,
        ;
        assert((i + 1) * chunk < (j + 1) * chunk) by (nonlinear_arith)
            requires
                i < j,
                chunk > 0,
        ;
    }
    if total > 0 {
        assert(len >= 1) by (nonlinear_arith)
            requires
                total > 0,
                chunk > 0,
                len == (total + chunk - 1) / (chunk as int),
        ;
        assert(len * chunk >= total) by (nonlinear_arith)
            requires
                chunk > 0,
                len == (total + chunk - 1) / (chunk as int),
        ;
        assert(s.last() == total);
    }
}

/// Drives one byte transfer: the caller reports each chunk it moved and
/// whether the cancellation token was set, and publishes the events the
/// machine returns.  The machine never reports progress backwards, never
/// finishes a cancelled transfer, and reaches exactly one terminal
/// outcome.
pub struct TransferState {
    transfer_id: u64,
    connection_id: Option<u64>,
    path: String,
    kind: TransferKind,
    total: u64,
    transferred: u64,
    outcome: Option<Outcome>,
    history: Ghost<Seq<TransferEvent>>,
}

impl TransferState {
    /// The identifier of this transfer.
    pub closed spec fn id(self) -> u64 {
        self.transfer_id
    }

    /// The transfer kind the events carry.
    pub closed spec fn transfer_kind(self) -> TransferKind {
        self.kind
    }

    /// The connection the events name, if the transfer has one end on a
    /// registered connection.
    pub closed spec fn connection(self) -> Option<u64> {
        self.connection_id
    }

    /// The remote path the events carry.
    pub closed spec fn event_path(self) -> Seq<char> {
        self.path@
    }

    /// The up-front total obtained by stating the source; zero when the
    /// length was unknown.
    pub closed spec fn total_bytes(self) -> u64 {
        self.total
    }

    /// The running counter of bytes moved so far.
    pub closed spec fn transferred_bytes(self) -> u64 {
        self.transferred
    }

    /// The terminal outcome, once one is reached.
    pub closed spec fn done(self) -> Option<Outcome> {
        self.outcome
    }

    /// Every event handed out so far, oldest first.
    pub closed spec fn events(self) -> Seq<TransferEvent> {
        self.history@
    }

    /// The running machine never emitted a terminal event; a cancelled
    /// machine emitted exactly one cancellation and no completion; a
    /// completed machine emitted exactly one completion and no
    /// cancellation.
    pub open spec fn wf(self) -> bool {
        &&& (self.done() is None ==> count_cancel_events(self.events()) == 0
            && count_finish_events(self.events()) == 0)
        &&& (self.done() == Some(Outcome::Cancelled) ==> count_cancel_events(self.events()) == 1
            && count_finish_events(self.events()) == 0)
        &&& (self.done() == Some(Outcome::Completed) ==> count_cancel_events(self.events()) == 0
            && count_finish_events(self.events()) == 1)
    }

    /// Starts a transfer.  `stat_size` is what stating the source gave;
    /// an unknown length counts as zero, not as a failure.
    pub fn new(
        transfer_id: u64,
        connection_id: Option<u64>,
        path: String,
        kind: TransferKind,
        stat_size: Option<u64>,
    ) -> (r: Self)
        ensures
            r.wf(),
            r.id() == transfer_id,
            r.transfer_kind() == kind,
            r.event_path() == path@,
            r.total_bytes() == (match stat_size {
                Some(n) => n,
                None => 0,
            }),
            r.transferred_bytes() == 0,
            r.done() is None,
            r.events() == Seq::<TransferEvent>::empty(),
    {
        let total = match stat_size {
            Some(n) => n,
            None => 0,
        };
        TransferState {
            transfer_id,
            connection_id,
            path,
            kind,
            total,
            transferred: 0,
            outcome: None,
            history: Ghost(Seq::empty()),
        }
    }

    /// Absorbs one read: `n` bytes were moved (`n == 0` means the source
    /// is exhausted), and `cancelled` is the token as observed after the
    /// chunk.  Returns the events to publish for this step, in order.
    pub fn on_chunk(&mut self, n: usize, cancelled: bool) -> (evs: Vec<TransferEvent>)
        requires
            old(self).wf(),
            old(self).done() is None,
            n <= CHUNK_SIZE,
        ensures
            final(self).wf(),
            final(self).id() == old(self).id(),
            final(self).transfer_kind() == old(self).transfer_kind(),
            final(self).event_path() == old(self).event_path(),
            final(self).total_bytes() == old(self).total_bytes(),
            final(self).events() == old(self).events() + evs@,
            final(self).transferred_bytes() == old(self).transferred_bytes().saturating_add(
                n as u64,
            ),
            final(self).transferred_bytes() >= old(self).transferred_bytes(),
            n == 0 ==> {
                &&& final(self).done() == Some(Outcome::Completed)
                &&& evs@.len() == 1
                &&& (evs@[0] matches TransferEvent::Finished {
                    connection_id,
                    path,
                    kind,
                    transfer_id,
                } && connection_id == old(self).connection() && path@ == old(self).event_path()
                    && kind == old(self).transfer_kind() && transfer_id == old(self).id())
            },
            n > 0 ==> {
                &&& evs@.len() >= 1
                &&& (evs@[0] matches TransferEvent::Progress {
                    connection_id,
                    path,
                    transferred,
                    total,
                    kind,
                    transfer_id,
                } && connection_id == old(self).connection() && path@ == old(self).event_path()
                    && transferred == final(self).transferred_bytes() && total == old(
                    self,
                ).total_bytes() && kind == old(self).transfer_kind() && transfer_id == old(
                    self,
                ).id())
                &&& progress_value(evs@[0]) > old(self).transferred_bytes() || old(
                    self,
                ).transferred_bytes() == u64::MAX
            },
            n > 0 && !cancelled ==> {
                &&& final(self).done() is None
                &&& evs@.len() == 1
            },
            n > 0 && cancelled ==> {
                &&& final(self).done() == Some(Outcome::Cancelled)
                &&& evs@.len() == 2
                &&& (evs@[1] matches TransferEvent::Cancelled { transfer_id, kind } && transfer_id
                    == old(self).id() && kind == old(self).transfer_kind())
            },
    {
        let mut evs: Vec<TransferEvent> = Vec::new();
        if n == 0 {
            self.outcome = Some(Outcome::Completed);
            evs.push(
                TransferEvent::Finished {
                    connection_id: self.connection_id,
                    path: self.path.clone(),
                    kind: self.kind,
                    transfer_id: self.transfer_id,
                },
            );
        } else {
            self.transferred = self.transferred.saturating_add(n as u64);
            evs.push(
                TransferEvent::Progress {
                    connection_id: self.connection_id,
                    path: self.path.clone(),
                    transferred: self.transferred,
                    total: self.total,
                    kind: self.kind,
                    transfer_id: self.transfer_id,
                },
            );
            if cancelled {
                self.outcome = Some(Outcome::Cancelled);
                evs.push(
                    TransferEvent::Cancelled { transfer_id: self.transfer_id, kind: self.kind },
                );
            }
        }
        proof {
            if evs@.len() == 1 {
                assert(evs@.drop_last() =~= Seq::<TransferEvent>::empty());
                assert(count_cancel_events(evs@.drop_last()) == 0);
                assert(count_finish_events(evs@.drop_last()) == 0);
                assert(evs@.last() == evs@[0]);
            } else {
                assert(evs@.drop_last().drop_last() =~= Seq::<TransferEvent>::empty());
                assert(count_cancel_events(evs@.drop_last().drop_last()) == 0);
                assert(count_finish_events(evs@.drop_last().drop_last()) == 0);
                assert(evs@.drop_last().last() == evs@[0]);
                assert(evs@.last() == evs@[1]);
                assert(count_cancel_events(evs@.drop_last()) == 0);
                assert(count_finish_events(evs@.drop_last()) == 0);
            }
            self.history@ = self.history@ + evs@;
            lemma_count_events_concat(old(self).events(), evs@);
        }
        evs
    }

    /// Whether the transfer has reached a terminal outcome.
    pub fn is_done(&self) -> (r: bool)
        ensures
            r == (self.done() is Some),
    {
        match self.outcome {
            Some(_) => true,
            None => false,
        }
    }

    /// Whether the transfer ran to the end of its source.
    pub fn completed(&self) -> (r: bool)
        ensures
            r == (self.done() == Some(Outcome::Completed)),
    {
        match &self.outcome {
            Some(Outcome::Completed) => true,
            _ => false,
        }
    }

    /// Whether the transfer stopped at an observed cancellation.
    pub fn cancelled(&self) -> (r: bool)
        ensures
            r == (self.done() == Some(Outcome::Cancelled)),
    {
        match &self.outcome {
            Some(Outcome::Cancelled) => true,
            _ => false,
        }
    }
}

/// Event counts add up over concatenated histories.
pub proof fn lemma_count_events_concat(a: Seq<TransferEvent>, b: Seq<TransferEvent>)
    ensures
        count_cancel_events(a + b) == count_cancel_events(a) + count_cancel_events(b),
        count_finish_events(a + b) == count_finish_events(a) + count_finish_events(b),
    decreases b.len(),
{
    if b.len() == 0 {
        assert(a + b =~= a);
    } else {
        lemma_count_events_concat(a, b.drop_last());
        assert((a + b).drop_last() =~= a + b.drop_last());
        assert((a + b).last() == b.last());
    }
}

/// A transfer that observed cancellation has published exactly one
/// cancellation event and no completion event.
pub proof fn lemma_cancelled_transfer_events(m: TransferState)
    requires
        m.wf(),
        m.done() == Some(Outcome::Cancelled),
    ensures
        count_cancel_events(m.events()) == 1,
        count_finish_events(m.events()) == 0,
{
}

/// Produces the progress values of a transfer whose every read fills a
/// whole chunk: the concrete schedule that [`chunk_progress`] describes.
pub fn progress_schedule(total: u64, chunk: u64) -> (v: Vec<u64>)
    requires
        chunk > 0,
    ensures
        v@ == chunk_progress(total, chunk),
{
    let mut v: Vec<u64> = Vec::new();
    let mut t: u64 = 0;
    proof {
        lemma_chunk_progress(total, chunk);
        assert(v@.len() * chunk == 0) by (nonlinear_arith)
            requires
                v@.len() == 0,
        ;
    }
    while t < total
        invariant
            chunk > 0,
            t == v@.len() * chunk || (t == total && v@.len() == chunk_progress(total, chunk).len()),
            t <= total,
            v@.len() <= chunk_progress(total, chunk).len(),
            forall|k: int| 0 <= k < v@.len() ==> v@[k] == chunk_progress(total, chunk)[k],
        decreases total - t,
    {
        let n = if total - t < chunk {
            total - t
        } else {
            chunk
        };
        let ghost i = v@.len() as int;
        t = t + n;
        v.push(t);
        proof {
            assert(i * chunk + chunk == (i + 1) * chunk) by (nonlinear_arith);
            if t < total {
                assert(v@.len() <= chunk_progress(total, chunk).len()) by (nonlinear_arith)
                    requires
                        chunk > 0,
                        t == (i + 1) * chunk,
                        t < total,
                        v@.len() == i + 1,
                        chunk_progress(total, chunk).len() == (total + chunk - 1) / (chunk as int),
                ;
            } else {
                assert(i * chunk < total);
                assert(v@.len() == chunk_progress(total, chunk).len()) by (nonlinear_arith)
                    requires
                        chunk > 0,
                        i * chunk < total,
                        total <= (i + 1) * chunk,
                        v@.len() == i + 1,
                        chunk_progress(total, chunk).len() == (total + chunk - 1) / (chunk as int),
                ;
            }
            assert(forall|k: int| 0 <= k < v@.len() ==> v@[k] == chunk_progress(total, chunk)[k]);
        }
    }
    proof {
        if v@.len() * chunk == t {
            assert(v@.len() == (total + chunk - 1) / (chunk as int)) by (nonlinear_arith)
                requires
                    chunk > 0,
                    v@.len() * chunk == t,
                    t == total,
            ;
        }
        assert(v@.len() == chunk_progress(total, chunk).len());
        assert(v@ =~= chunk_progress(total, chunk));
    }
    v
}

} // verus!
