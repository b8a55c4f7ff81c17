//! The two registry shapes of the engine: operation id to cancellation
//! token, and connection id to session handle.
//!
//! Both keep their entries in a vector with pairwise-distinct keys and are
//! specified against the finite map those entries induce.  Identifiers are
//! issued from a private counter, so a fresh id is never one that is still
//! registered.

use crate::errors::FsError;
use vstd::prelude::*;

verus! {

/// The finite map induced by an association list; on duplicate keys the
/// later entry wins, but registries keep their keys distinct.
pub open spec fn map_of<V>(s: Seq<(u64, V)>) -> Map<u64, V>
    decreases s.len(),
{
    if s.len() == 0 {
        Map::empty()
    } else {
        map_of(s.drop_last()).insert(s.last().0, s.last().1)
    }
}

/// Pairwise-distinct keys in an association list.
pub open spec fn keys_distinct<V>(s: Seq<(u64, V)>) -> bool {
    forall|i: int, j: int| 0 <= i < j < s.len() ==> s[i].0 != s[j].0
}

/// A key is in the induced map exactly when some entry carries it.
pub proof fn lemma_map_of_contains<V>(s: Seq<(u64, V)>, id: u64)
    ensures
        map_of(s).contains_key(id) <==> exists|i: int| 0 <= i < s.len() && s[i].0 == id,
    decreases s.len(),
{
    if s.len() > 0 {
        lemma_map_of_contains(s.drop_last(), id);
        if map_of(s).contains_key(id) && s.last().0 != id {
            let i = choose|i: int| 0 <= i < s.drop_last().len() && s.drop_last()[i].0 == id;
            assert(s[i].0 == id);
        }
        if exists|i: int| 0 <= i < s.len() && s[i].0 == id {
            let i = choose|i: int| 0 <= i < s.len() && s[i].0 == id;
            if i < s.len() - 1 {
                assert(s.drop_last()[i].0 == id);
            }
        }
    }
}

/// With distinct keys, the entry that carries a key gives its map value.
pub proof fn lemma_map_of_index<V>(s: Seq<(u64, V)>, i: int)
    requires
        keys_distinct(s),
        0 <= i < s.len(),
    ensures
        map_of(s).contains_key(s[i].0),
        map_of(s)[s[i].0] == s[i].1,
    decreases s.len(),
{
    if i == s.len() - 1 {
        lemma_map_of_contains(s, s[i].0);
    } else {
        assert(s.drop_last()[i] == s[i]);
        lemma_map_of_index(s.drop_last(), i);
    }
}

/// Updating the value of one entry updates the induced map at its key.
pub proof fn lemma_map_of_update<V>(s: Seq<(u64, V)>, i: int, v: V)
    requires
        keys_distinct(s),
        0 <= i < s.len(),
    ensures
        map_of(s.update(i, (s[i].0, v))) =~= map_of(s).insert(s[i].0, v),
    decreases s.len(),
{
    let t = s.update(i, (s[i].0, v));
    if i == s.len() - 1 {
        assert(t.drop_last() =~= s.drop_last());
    } else {
        lemma_map_of_update(s.drop_last(), i, v);
        assert(t.drop_last() =~= s.drop_last().update(i, (s[i].0, v)));
        assert(t.last() == s.last());
    }
}

/// Removing one entry removes its key from the induced map.
pub proof fn lemma_map_of_remove<V>(s: Seq<(u64, V)>, i: int)
    requires
        keys_distinct(s),
        0 <= i < s.len(),
    ensures
        map_of(s.remove(i)) =~= map_of(s).remove(s[i].0),
    decreases s.len(),
{
    if i == s.len() - 1 {
        assert(s.remove(i) =~= s.drop_last());
        lemma_map_of_contains(s.drop_last(), s[i].0);
    } else {
        lemma_map_of_remove(s.drop_last(), i);
        assert(s.remove(i).drop_last() =~= s.drop_last().remove(i));
        assert(s.remove(i).last() == s.last());
    }
}

/// Tracks one kind of in-flight operation: each registered operation id
/// maps to its cancellation token, a flag that starts false and only ever
/// moves to true.
pub struct OperationRegistry {
    entries: Vec<(u64, bool)>,
    next_id: u64,
}

impl OperationRegistry {
    /// The registered operations and the state of their tokens.
    pub closed spec fn tokens(self) -> Map<u64, bool> {
        map_of(self.entries@)
    }

    /// The registered operation ids, oldest first.
    pub closed spec fn ids(self) -> Seq<u64> {
        self.entries@.map_values(|p: (u64, bool)| p.0)
    }

    /// How many ids have ever been issued; ids below this are never issued
    /// again.
    pub closed spec fn issued(self) -> u64 {
        self.next_id
    }

    /// Distinct keys, every key below the id counter.
    pub closed spec fn wf(self) -> bool {
        &&& keys_distinct(self.entries@)
        &&& forall|i: int| 0 <= i < self.entries@.len() ==> self.entries@[i].0 < self.next_id
    }

    /// The ids are the domain of the token map, in registration order.
    pub proof fn lemma_ids_are_domain(self)
        ensures
            forall|i: int|
                0 <= i < self.ids().len() ==> #[trigger] self.tokens().contains_key(self.ids()[i]),
            forall|id: u64| self.tokens().contains_key(id) ==> self.ids().contains(id),
    {
        assert forall|i: int| 0 <= i < self.ids().len() implies #[trigger] self.tokens().contains_key(
            self.ids()[i],
        ) by {
            lemma_map_of_contains(self.entries@, self.entries@[i].0);
        }
        assert forall|id: u64| self.tokens().contains_key(id) implies self.ids().contains(id) by {
            lemma_map_of_contains(self.entries@, id);
            let i = choose|i: int| 0 <= i < self.entries@.len() && self.entries@[i].0 == id;
            assert(self.ids()[i] == id);
        }
    }

    /// An empty registry.
    pub fn new() -> (r: Self)
        ensures
            r.wf(),
            r.tokens() == Map::<u64, bool>::empty(),
            r.ids() == Seq::<u64>::empty(),
            r.issued() == 0,
    {
        let r = OperationRegistry { entries: Vec::new(), next_id: 0 };
        proof {
            assert(r.ids() =~= Seq::<u64>::empty());
        }
        r
    }

    /// Registers a new operation: issues a fresh id, not currently
    /// registered, whose token starts unset.
    pub fn begin(&mut self) -> (id: u64)
        requires
            old(self).wf(),
            old(self).issued() < u64::MAX,
        ensures
            final(self).wf(),
            id == old(self).issued(),
            !old(self).tokens().contains_key(id),
            final(self).tokens() == old(self).tokens().insert(id, false),
            final(self).ids() == old(self).ids().push(id),
            final(self).issued() == old(self).issued() + 1,
    {
        let id = self.next_id;
        proof {
            lemma_map_of_contains(self.entries@, id);
        }
        self.next_id = self.next_id + 1;
        self.entries.push((id, false));
        proof {
            assert(self.entries@.drop_last() =~= old(self).entries@);
            assert(self.ids() =~= old(self).ids().push(id));
        }
        id
    }

    /// Sets the token of a registered operation; reports the id as unknown
    /// otherwise, changing nothing.
    pub fn cancel(&mut self, id: u64) -> (r: Result<(), FsError>)
        requires
            old(self).wf(),
        ensures
            final(self).wf(),
            final(self).ids() == old(self).ids(),
            final(self).issued() == old(self).issued(),
            old(self).tokens().contains_key(id) ==> {
                &&& r == Ok::<(), FsError>(())
                &&& final(self).tokens() == old(self).tokens().insert(id, true)
            },
            !old(self).tokens().contains_key(id) ==> {
                &&& r == Err::<(), FsError>(FsError::OperationNotFound)
                &&& *final(self) == *old(self)
            },
    {
        let n = self.entries.len();
        let mut i: usize = 0;
        while i < n
            invariant
                n == self.entries.len(),
                i <= n,
                old(self).wf(),
                *self == *old(self),
                forall|j: int| 0 <= j < i ==> self.entries@[j].0 != id,
            decreases n - i,
        {
            if self.entries[i].0 == id {
                proof {
                    lemma_map_of_index(self.entries@, i as int);
                    lemma_map_of_update(self.entries@, i as int, true);
                }
                self.entries[i].1 = true;
                proof {
                    assert(forall|k: int|
                        0 <= k < self.entries@.len() ==> self.entries@[k].0 == old(
                            self,
                        ).entries@[k].0);
                    assert(self.ids() =~= old(self).ids());
                }
                return Ok(());
            }
            i = i + 1;
        }
        proof {
            lemma_map_of_contains(self.entries@, id);
        }
        Err(FsError::OperationNotFound)
    }

    /// Removes an operation from the registry; every exit path of an
    /// operation must end here, whatever its outcome.  Removing an unknown
    /// id changes nothing.
    pub fn end(&mut self, id: u64)
        requires
            old(self).wf(),
        ensures
            final(self).wf(),
            final(self).issued() == old(self).issued(),
            final(self).tokens() == old(self).tokens().remove(id),
            !final(self).tokens().contains_key(id),
            !old(self).tokens().contains_key(id) ==> *final(self) == *old(self),
    {
        let n = self.entries.len();
        let mut i: usize = 0;
        while i < n
            invariant
                n == self.entries.len(),
                i <= n,
                old(self).wf(),
                *self == *old(self),
                forall|j: int| 0 <= j < i ==> self.entries@[j].0 != id,
            decreases n - i,
        {
            if self.entries[i].0 == id {
                proof {
                    lemma_map_of_index(self.entries@, i as int);
                    lemma_map_of_remove(self.entries@, i as int);
                }
                self.entries.remove(i);
                proof {
                    assert(forall|k: int|
                        0 <= k < self.entries@.len() ==> (self.entries@[k] == if k < i {
                            old(self).entries@[k]
                        } else {
                            old(self).entries@[k + 1]
                        }));
                    assert(self.wf());
                    lemma_map_of_contains(self.entries@, id);
                    assert(!self.tokens().contains_key(id));
                }
                return ;
            }
            i = i + 1;
        }
        proof {
            lemma_map_of_contains(self.entries@, id);
            assert(old(self).tokens().remove(id) =~= old(self).tokens());
        }
    }

    /// Whether an operation is registered.
    pub fn contains(&self, id: u64) -> (r: bool)
        ensures
            r == self.tokens().contains_key(id),
    {
        let n = self.entries.len();
        let mut i: usize = 0;
        while i < n
            invariant
                n == self.entries.len(),
                i <= n,
                forall|j: int| 0 <= j < i ==> self.entries@[j].0 != id,
            decreases n - i,
        {
            if self.entries[i].0 == id {
                proof {
                    lemma_map_of_contains(self.entries@, id);
                }
                return true;
            }
            i = i + 1;
        }
        proof {
            lemma_map_of_contains(self.entries@, id);
        }
        false
    }

    /// The observed state of an operation's token; an id that is not
    /// registered reads as not cancelled.
    pub fn is_cancelled(&self, id: u64) -> (r: bool)
        requires
            self.wf(),
        ensures
            r == (self.tokens().contains_key(id) && self.tokens()[id]),
    {
        let n = self.entries.len();
        let mut i: usize = 0;
        while i < n
            invariant
                n == self.entries.len(),
                i <= n,
                self.wf(),
                forall|j: int| 0 <= j < i ==> self.entries@[j].0 != id,
            decreases n - i,
        {
            if self.entries[i].0 == id {
                proof {
                    lemma_map_of_index(self.entries@, i as int);
                }
                return self.entries[i].1;
            }
            i = i + 1;
        }
        proof {
            lemma_map_of_contains(self.entries@, id);
        }
        false
    }

    /// The ids of every operation still in flight, oldest first.
    pub fn list_active(&self) -> (r: Vec<u64>)
        ensures
            r@ == self.ids(),
    {
        let n = self.entries.len();
        let mut r: Vec<u64> = Vec::new();
        let mut i: usize = 0;
        while i < n
            invariant
                n == self.entries.len(),
                i <= n,
                r@ == self.entries@.subrange(0, i as int).map_values(|p: (u64, bool)| p.0),
            decreases n - i,
        {
            r.push(self.entries[i].0);
            proof {
                assert(self.entries@.subrange(0, i + 1 as int).drop_last() =~= self.entries@
                    .subrange(0, i as int));
                assert(r@ =~= self.entries@.subrange(0, i + 1 as int).map_values(
                    |p: (u64, bool)| p.0,
                ));
            }
            i = i + 1;
        }
        proof {
            assert(self.entries@.subrange(0, n as int) =~= self.entries@);
        }
        r
    }
}

/// An operation id that is no longer registered is not listed as active:
/// once its entry is released, it is gone from the active list.
pub proof fn lemma_absent_id_not_listed(r: OperationRegistry, id: u64)
    requires
        !r.tokens().contains_key(id),
    ensures
        !r.ids().contains(id),
{
    r.lemma_ids_are_domain();
    if r.ids().contains(id) {
        let i = choose|i: int| 0 <= i < r.ids().len() && r.ids()[i] == id;
        assert(r.tokens().contains_key(r.ids()[i]));
    }
}

/// An operation that was ended cannot be cancelled again: removing its
/// entry leaves the id unknown, so a later cancel must report it so.
pub proof fn lemma_ended_id_not_cancellable(tokens: Map<u64, bool>, id: u64)
    ensures
        !tokens.remove(id).contains_key(id),
{
}

/// Maps each registered connection id to the session handle the caller
/// stored for it.
pub struct ConnectionRegistry {
    entries: Vec<(u64, u64)>,
    next_id: u64,
}

impl ConnectionRegistry {
    /// The registered connections and their session handles.
    pub closed spec fn sessions(self) -> Map<u64, u64> {
        map_of(self.entries@)
    }

    /// How many connection ids have ever been issued.
    pub closed spec fn issued(self) -> u64 {
        self.next_id
    }

    /// Distinct keys, every key below the id counter.
    pub closed spec fn wf(self) -> bool {
        &&& keys_distinct(self.entries@)
        &&& forall|i: int| 0 <= i < self.entries@.len() ==> self.entries@[i].0 < self.next_id
    }

    /// An empty registry.
    pub fn new() -> (r: Self)
        ensures
            r.wf(),
            r.sessions() == Map::<u64, u64>::empty(),
            r.issued() == 0,
    {
        ConnectionRegistry { entries: Vec::new(), next_id: 0 }
    }

    /// Stores a session handle under a fresh connection id.
    pub fn register(&mut self, session: u64) -> (id: u64)
        requires
            old(self).wf(),
            old(self).issued() < u64::MAX,
        ensures
            final(self).wf(),
            id == old(self).issued(),
            !old(self).sessions().contains_key(id),
            final(self).sessions() == old(self).sessions().insert(id, session),
            final(self).issued() == old(self).issued() + 1,
    {
        let id = self.next_id;
        proof {
            lemma_map_of_contains(self.entries@, id);
        }
        self.next_id = self.next_id + 1;
        self.entries.push((id, session));
        proof {
            assert(self.entries@.drop_last() =~= old(self).entries@);
        }
        id
    }

    /// Looks up the session handle of a connection; an unknown id is the
    /// connection-not-found error.
    pub fn get(&self, id: u64) -> (r: Result<u64, FsError>)
        requires
            self.wf(),
        ensures
            self.sessions().contains_key(id) ==> r == Ok::<u64, FsError>(self.sessions()[id]),
            !self.sessions().contains_key(id) ==> r == Err::<u64, FsError>(
                FsError::ConnectionNotFound,
            ),
    {
        let n = self.entries.len();
        let mut i: usize = 0;
        while i < n
            invariant
                n == self.entries.len(),
                i <= n,
                self.wf(),
                forall|j: int| 0 <= j < i ==> self.entries@[j].0 != id,
            decreases n - i,
        {
            if self.entries[i].0 == id {
                proof {
                    lemma_map_of_index(self.entries@, i as int);
                }
                return Ok(self.entries[i].1);
            }
            i = i + 1;
        }
        proof {
            lemma_map_of_contains(self.entries@, id);
        }
        Err(FsError::ConnectionNotFound)
    }

    /// Removes a connection, handing back its session handle so the caller
    /// can close the underlying session; removing an unknown id changes
    /// nothing and yields no handle.
    pub fn remove(&mut self, id: u64) -> (r: Option<u64>)
        requires
            old(self).wf(),
        ensures
            final(self).wf(),
            final(self).issued() == old(self).issued(),
            final(self).sessions() == old(self).sessions().remove(id),
            old(self).sessions().contains_key(id) ==> r == Some(old(self).sessions()[id]),
            !old(self).sessions().contains_key(id) ==> {
                &&& r == None::<u64>
                &&& *final(self) == *old(self)
            },
    {
        let n = self.entries.len();
        let mut i: usize = 0;
        while i < n
            invariant
                n == self.entries.len(),
                i <= n,
                old(self).wf(),
                *self == *old(self),
                forall|j: int| 0 <= j < i ==> self.entries@[j].0 != id,
            decreases n - i,
        {
            if self.entries[i].0 == id {
                proof {
                    lemma_map_of_index(self.entries@, i as int);
                    lemma_map_of_remove(self.entries@, i as int);
                }
                let p = self.entries.remove(i);
                proof {
                    assert(forall|k: int|
                        0 <= k < self.entries@.len() ==> (self.entries@[k] == if k < i {
                            old(self).entries@[k]
                        } else {
                            old(self).entries@[k + 1]
                        }));
                    assert(self.wf());
                }
                return Some(p.1);
            }
            i = i + 1;
        }
        proof {
            lemma_map_of_contains(self.entries@, id);
            assert(old(self).sessions().remove(id) =~= old(self).sessions());
        }
        None
    }
}

} // verus!
