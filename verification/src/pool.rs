//! The connection registry: one record per server id.

use crate::error::{ErrorView, SshError};
use crate::records::SshConnection;
use crate::text::{chars_equal, chars_of};
use vstd::prelude::*;

verus! {

/// Whether no two records carry the same server id.
pub open spec fn ids_distinct<S, L, T>(records: Seq<SshConnection<S, L, T>>) -> bool {
    forall|i: int, j: int|
        0 <= i < j < records.len() ==> (#[trigger] records[i]).server_id@ != (
        #[trigger] records[j]).server_id@
}

/// Whether a record carries the server id.
pub open spec fn has_id<S, L, T>(records: Seq<SshConnection<S, L, T>>, id: Seq<char>) -> bool {
    exists|i: int| 0 <= i < records.len() && (#[trigger] records[i]).server_id@ == id
}

/// The place of a record that carries the server id.
pub open spec fn position<S, L, T>(records: Seq<SshConnection<S, L, T>>, id: Seq<char>) -> int {
    choose|i: int| 0 <= i < records.len() && (#[trigger] records[i]).server_id@ == id
}

/// The records by their server ids.
pub open spec fn by_id<S, L, T>(records: Seq<SshConnection<S, L, T>>) -> Map<
    Seq<char>,
    SshConnection<S, L, T>,
> {
    Map::new(|id: Seq<char>| has_id(records, id), |id: Seq<char>| records[position(records, id)])
}

/// Among records with distinct ids, a record is found at its own place.
pub proof fn lemma_position<S, L, T>(records: Seq<SshConnection<S, L, T>>, i: int)
    requires
        ids_distinct(records),
        0 <= i < records.len(),
    ensures
        has_id(records, records[i].server_id@),
        position(records, records[i].server_id@) == i,
        by_id(records)[records[i].server_id@] == records[i],
{
    let id = records[i].server_id@;
    let p = position(records, id);
    assert(0 <= p < records.len() && records[p].server_id@ == id);
    if p < i {
        assert(records[p].server_id@ != records[i].server_id@);
    } else if i < p {
        assert(records[i].server_id@ != records[p].server_id@);
    }
}

/// The registry after an attempt to store a connection: it has the
/// connection under its server id, unless the id had one already; then
/// nothing has changed.
pub open spec fn registered<S, L, T>(
    known: Map<Seq<char>, SshConnection<S, L, T>>,
    connection: SshConnection<S, L, T>,
) -> Map<Seq<char>, SshConnection<S, L, T>> {
    if known.contains_key(connection.server_id@) {
        known
    } else {
        known.insert(connection.server_id@, connection)
    }
}

/// One change of the registry.
pub enum PoolChange<S, L, T> {
    /// An attempt to store a connection.
    Stored(SshConnection<S, L, T>),
    /// The removal of the connection of a server id.
    Removed(Seq<char>),
}

/// The registry after a change.
pub open spec fn changed<S, L, T>(
    known: Map<Seq<char>, SshConnection<S, L, T>>,
    change: PoolChange<S, L, T>,
) -> Map<Seq<char>, SshConnection<S, L, T>> {
    match change {
        PoolChange::Stored(connection) => registered(known, connection),
        PoolChange::Removed(id) => known.remove(id),
    }
}

/// The registry after a run of changes.
pub open spec fn after_changes<S, L, T>(
    known: Map<Seq<char>, SshConnection<S, L, T>>,
    changes: Seq<PoolChange<S, L, T>>,
) -> Map<Seq<char>, SshConnection<S, L, T>>
    decreases changes.len(),
{
    if changes.len() == 0 {
        known
    } else {
        changed(after_changes(known, changes.drop_last()), changes.last())
    }
}

/// A server id that was never connected has no connection: whatever
/// changes a registry has seen since it was empty, it holds nothing under
/// an id that none of them stored.
pub proof fn lemma_never_connected<S, L, T>(changes: Seq<PoolChange<S, L, T>>, id: Seq<char>)
    requires
        forall|i: int|
            0 <= i < changes.len() ==> (#[trigger] changes[i] matches PoolChange::Stored(c)
                ==> c.server_id@ != id),
    ensures
        !after_changes(Map::empty(), changes).contains_key(id),
    decreases changes.len(),
{
    if changes.len() > 0 {
        let before = changes.drop_last();
        assert forall|i: int| 0 <= i < before.len() implies (
        #[trigger] before[i] matches PoolChange::Stored(c) ==> c.server_id@ != id) by {
            assert(before[i] == changes[i]);
        }
        lemma_never_connected(before, id);
        assert(changes.last() == changes[changes.len() - 1]);
    }
}

/// Of two connect requests for one server id only the first is stored: the
/// second finds the id taken, and the registry keeps the record it had.
pub proof fn lemma_second_connect_refused<S, L, T>(
    known: Map<Seq<char>, SshConnection<S, L, T>>,
    first: SshConnection<S, L, T>,
    second: SshConnection<S, L, T>,
)
    requires
        first.server_id@ == second.server_id@,
    ensures
        registered(known, first).contains_key(second.server_id@),
        registered(registered(known, first), second) == registered(known, first),
        !known.contains_key(first.server_id@) ==> registered(
            registered(known, first),
            second,
        )[first.server_id@] == first,
{
}

/// Removing a connection twice is removing it once: the second removal
/// finds nothing and changes nothing.
pub proof fn lemma_remove_idempotent<S, L, T>(
    known: Map<Seq<char>, SshConnection<S, L, T>>,
    id: Seq<char>,
)
    ensures
        !known.remove(id).contains_key(id),
        known.remove(id).remove(id) == known.remove(id),
{
    assert(known.remove(id).remove(id) =~= known.remove(id));
}

/// The registry of live connections. It holds at most one record for each
/// server id.
pub struct ConnectionPool<S, L, T> {
    records: Vec<SshConnection<S, L, T>>,
}

impl<S, L, T> View for ConnectionPool<S, L, T> {
    type V = Map<Seq<char>, SshConnection<S, L, T>>;

    closed spec fn view(&self) -> Map<Seq<char>, SshConnection<S, L, T>> {
        by_id(self.records@)
    }
}

impl<S, L, T> ConnectionPool<S, L, T> {
    #[verifier::type_invariant]
    spec fn well_formed(self) -> bool {
        ids_distinct(self.records@)
    }

    /// A registry without connections.
    pub fn new() -> (pool: Self)
        ensures
            pool@ == Map::<Seq<char>, SshConnection<S, L, T>>::empty(),
    {
        let pool = ConnectionPool { records: Vec::new() };
        assert(pool@ =~= Map::<Seq<char>, SshConnection<S, L, T>>::empty());
        pool
    }

    fn find(&self, server_id: &str) -> (found: Option<usize>)
        ensures
            match found {
                Some(i) => i < self.records@.len() && self.records@[i as int].server_id@
                    == server_id@,
                None => !has_id(self.records@, server_id@),
            },
    {
        let wanted = chars_of(server_id);
        let mut i: usize = 0;
        while i < self.records.len()
            invariant
                i <= self.records@.len(),
                wanted@ == server_id@,
                forall|k: int| 0 <= k < i ==> (#[trigger] self.records@[k]).server_id@ != server_id@,
            decreases self.records@.len() - i,
        {
            let id = chars_of(self.records[i].server_id.as_str());
            if chars_equal(id.as_slice(), wanted.as_slice()) {
                return Some(i);
            }
            i += 1;
        }
        None
    }

    /// Whether the server id has a connection.
    pub fn contains(&self, server_id: &str) -> (b: bool)
        ensures
            b == self@.contains_key(server_id@),
    {
        self.find(server_id).is_some()
    }

    /// The connection of a server id.
    pub fn lookup(&self, server_id: &str) -> (found: Result<&SshConnection<S, L, T>, SshError>)
        ensures
            match found {
                Ok(connection) => self@.contains_key(server_id@) && *connection
                    == self@[server_id@] && connection.server_id@ == server_id@,
                Err(e) => !self@.contains_key(server_id@) && e@ == ErrorView::NotConnected,
            },
    {
        proof {
            use_type_invariant(self);
        }
        match self.find(server_id) {
            Some(i) => {
                proof {
                    lemma_position(self.records@, i as int);
                }
                Ok(&self.records[i])
            },
            None => Err(SshError::NotConnected),
        }
    }

    /// Stores a connection under its server id, unless the id has one
    /// already: then the registry stays as it is and the connection comes
    /// back.
    pub fn insert(&mut self, connection: SshConnection<S, L, T>) -> (refused: Result<
        (),
        (SshError, SshConnection<S, L, T>),
    >)
        ensures
            final(self)@ == registered(old(self)@, connection),
            match refused {
                Ok(_) => !old(self)@.contains_key(connection.server_id@) && final(self)@ == old(
                    self,
                )@.insert(connection.server_id@, connection),
                Err((e, back)) => old(self)@.contains_key(connection.server_id@) && final(self)@
                    == old(self)@ && e@ == ErrorView::AlreadyConnected && back == connection,
            },
    {
        proof {
            use_type_invariant(&*self);
        }
        match self.find(connection.server_id.as_str()) {
            Some(_) => Err((SshError::AlreadyConnected, connection)),
            None => {
                let ghost before = self.records@;
                let ghost added = connection;
                let mut records: Vec<SshConnection<S, L, T>> = Vec::new();
                core::mem::swap(&mut self.records, &mut records);
                records.push(connection);
                proof {
                    lemma_by_id_push(before, added);
                }
                core::mem::swap(&mut self.records, &mut records);
                Ok(())
            },
        }
    }

    /// Takes the connection of a server id out of the registry, if it has
    /// one.
    pub fn remove(&mut self, server_id: &str) -> (removed: Option<SshConnection<S, L, T>>)
        ensures
            final(self)@ == old(self)@.remove(server_id@),
            match removed {
                Some(connection) => old(self)@.contains_key(server_id@) && connection == old(
                    self,
                )@[server_id@] && connection.server_id@ == server_id@,
                None => !old(self)@.contains_key(server_id@),
            },
    {
        proof {
            use_type_invariant(&*self);
        }
        match self.find(server_id) {
            Some(i) => {
                let ghost before = self.records@;
                let mut records: Vec<SshConnection<S, L, T>> = Vec::new();
                core::mem::swap(&mut self.records, &mut records);
                let connection = records.remove(i);
                proof {
                    lemma_position(before, i as int);
                    lemma_by_id_remove(before, i as int);
                }
                core::mem::swap(&mut self.records, &mut records);
                Some(connection)
            },
            None => {
                assert(self@ =~= old(self)@.remove(server_id@));
                None
            },
        }
    }
}

/// Adding a record with a new id adds its entry and changes no other.
pub proof fn lemma_by_id_push<S, L, T>(
    records: Seq<SshConnection<S, L, T>>,
    added: SshConnection<S, L, T>,
)
    requires
        ids_distinct(records),
        !has_id(records, added.server_id@),
    ensures
        ids_distinct(records.push(added)),
        by_id(records.push(added)) == by_id(records).insert(added.server_id@, added),
{
    let after = records.push(added);
    assert forall|i: int, j: int| 0 <= i < j < after.len() implies (#[trigger] after[i]).server_id@
        != (#[trigger] after[j]).server_id@ by {
        if j < records.len() {
            assert(after[i] == records[i] && after[j] == records[j]);
        } else {
            assert(after[i] == records[i]);
        }
    }
    assert forall|id: Seq<char>| has_id(after, id) <==> (has_id(records, id) || id
        == added.server_id@) by {
        if has_id(after, id) {
            let i = choose|i: int| 0 <= i < after.len() && (#[trigger] after[i]).server_id@ == id;
            if i < records.len() {
                assert(records[i].server_id@ == id);
            }
        }
        if has_id(records, id) {
            let i = choose|i: int|
                0 <= i < records.len() && (#[trigger] records[i]).server_id@ == id;
            assert(after[i].server_id@ == id);
        }
        if id == added.server_id@ {
            assert(after[records.len() as int].server_id@ == id);
        }
    }
    assert forall|id: Seq<char>| has_id(after, id) implies #[trigger] by_id(after)[id] == by_id(
        records,
    ).insert(added.server_id@, added)[id] by {
        let i = position(after, id);
        lemma_position(after, i);
        if i < records.len() {
            assert(after[i] == records[i]);
            lemma_position(records, i);
        }
    }
    assert(by_id(after) =~= by_id(records).insert(added.server_id@, added));
}

/// Taking a record out takes its entry out and changes no other.
pub proof fn lemma_by_id_remove<S, L, T>(records: Seq<SshConnection<S, L, T>>, i: int)
    requires
        ids_distinct(records),
        0 <= i < records.len(),
    ensures
        ids_distinct(records.remove(i)),
        by_id(records.remove(i)) == by_id(records).remove(records[i].server_id@),
{
    let after = records.remove(i);
    let gone = records[i].server_id@;
    assert forall|a: int, b: int| 0 <= a < b < after.len() implies (#[trigger] after[a]).server_id@
        != (#[trigger] after[b]).server_id@ by {
        let a0 = if a < i { a } else { a + 1 };
        let b0 = if b < i { b } else { b + 1 };
        assert(after[a] == records[a0] && after[b] == records[b0]);
    }
    assert forall|id: Seq<char>| has_id(after, id) <==> (has_id(records, id) && id != gone) by {
        if has_id(after, id) {
            let a = choose|a: int| 0 <= a < after.len() && (#[trigger] after[a]).server_id@ == id;
            let a0 = if a < i { a } else { a + 1 };
            assert(records[a0] == after[a]);
            assert(records[a0].server_id@ == id);
            if a0 < i {
                assert(records[a0].server_id@ != records[i].server_id@);
            } else {
                assert(records[i].server_id@ != records[a0].server_id@);
            }
        }
        if has_id(records, id) && id != gone {
            let k = choose|k: int|
                0 <= k < records.len() && (#[trigger] records[k]).server_id@ == id;
            let a = if k < i { k } else { k - 1 };
            assert(after[a] == records[k]);
            assert(after[a].server_id@ == id);
        }
    }
    assert forall|id: Seq<char>| has_id(after, id) implies #[trigger] by_id(after)[id] == by_id(
        records,
    ).remove(gone)[id] by {
        let a = position(after, id);
        lemma_position(after, a);
        let a0 = if a < i { a } else { a + 1 };
        assert(after[a] == records[a0]);
        lemma_position(records, a0);
    }
    assert(by_id(after) =~= by_id(records).remove(gone));
}

} // verus!
