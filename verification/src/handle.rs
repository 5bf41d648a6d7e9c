//! The registry of pools and connections behind integer handles.
//!
//! Pools are shared by identity: storing a pool under a configuration whose
//! identity key is already present hands out the handle of the pool that is
//! there and counts one more holder. A pool leaves the registry when its last
//! holder releases it. A connection's client is taken out of its entry for the
//! length of an operation, so that a second operation on the same handle finds
//! it absent and fails at once.
//!
//! The registry is described by a model, [`RegistryView`], on which each
//! operation is a function. The executable operations are proved to follow
//! the model, and the laws of the registry are proved of the model. A table
//! is taken out of the registry while it is changed and put back afterwards,
//! so that the registry is well formed whenever it can be observed.

use vstd::prelude::*;
use crate::config::{identity_key, NormalizedConfig};
use crate::error::{ErrorKind, MssqlError};
use crate::query::opt_text;
use crate::table::HandleTable;
use crate::text::{decimal, push_decimal, push_text, str_eq};

verus! {

/// A pool in the registry: the pool itself, the slot for its last error, the
/// number of holders, and the identity key under which it is shared.
#[derive(Debug)]
pub struct PoolHandle<P> {
    pub pool: P,
    pub last_error: Option<String>,
    pub ref_count: u32,
    pub dedup_key: String,
}

/// A connection in the registry: the client, which is absent while an
/// operation runs on it; the pool it came from, if any; the slot for its last
/// error; and the transaction that is active on it, if any.
#[derive(Debug)]
pub struct ConnHandle<C> {
    pub client: Option<C>,
    pub pool_id: Option<u64>,
    pub last_error: Option<String>,
    pub active_transaction: Option<String>,
}

/// Mathematical model of [`PoolHandle`].
pub struct PoolModel<P> {
    pub pool: P,
    pub last_error: Option<Seq<char>>,
    pub ref_count: u32,
    pub dedup_key: Seq<char>,
}

/// Mathematical model of [`ConnHandle`].
pub struct ConnModel<C> {
    pub client: Option<C>,
    pub pool_id: Option<u64>,
    pub last_error: Option<Seq<char>>,
    pub active_transaction: Option<Seq<char>>,
}

impl<P> View for PoolHandle<P> {
    type V = PoolModel<P>;

    open spec fn view(&self) -> PoolModel<P> {
        PoolModel {
            pool: self.pool,
            last_error: opt_text(self.last_error),
            ref_count: self.ref_count,
            dedup_key: self.dedup_key@,
        }
    }
}

impl<C> View for ConnHandle<C> {
    type V = ConnModel<C>;

    open spec fn view(&self) -> ConnModel<C> {
        ConnModel {
            client: self.client,
            pool_id: self.pool_id,
            last_error: opt_text(self.last_error),
            active_transaction: opt_text(self.active_transaction),
        }
    }
}

impl<P> PoolHandle<P> {
    /// Records an error for the caller to fetch, replacing one that was not
    /// fetched.
    pub fn set_error(&mut self, msg: String)
        ensures
            final(self)@ == (PoolModel { last_error: Some(msg@), ..old(self)@ }),
    {
        self.last_error = Some(msg);
    }
}

impl<C> ConnHandle<C> {
    /// Records an error for the caller to fetch, replacing one that was not
    /// fetched.
    pub fn set_error(&mut self, msg: String)
        ensures
            final(self)@ == (ConnModel { last_error: Some(msg@), ..old(self)@ }),
    {
        self.last_error = Some(msg);
    }
}

/// Mathematical model of [`HandleRegistry`]: the pools and the connections by
/// handle, and the handle that the next pool and the next connection get.
pub struct RegistryView<P, C> {
    pub pools: Map<u64, PoolModel<P>>,
    pub conns: Map<u64, ConnModel<C>>,
    pub next_pool_id: u64,
    pub next_conn_id: u64,
}

impl<P, C> RegistryView<P, C> {
    /// What holds of every registry: finitely many entries, no handle zero,
    /// no handle at or beyond the next one, every pool with a holder, and no
    /// two pools with the same identity key.
    pub open spec fn wf(self) -> bool {
        &&& self.pools.dom().finite()
        &&& self.conns.dom().finite()
        &&& self.next_pool_id >= 1
        &&& self.next_conn_id >= 1
        &&& forall|id: u64| #[trigger]
            self.pools.contains_key(id) ==> 1 <= id < self.next_pool_id && self.pools[id].ref_count
                >= 1
        &&& forall|a: u64, b: u64|
            self.pools.contains_key(a) && self.pools.contains_key(b) && a != b
                ==> self.pools[a].dedup_key != self.pools[b].dedup_key
        &&& forall|id: u64| #[trigger]
            self.conns.contains_key(id) ==> 1 <= id < self.next_conn_id
    }

    /// The pool with identity key `key`, if there is one.
    pub open spec fn pool_for_key(self, key: Seq<char>) -> Option<u64> {
        if exists|id: u64| self.pools.contains_key(id) && self.pools[id].dedup_key == key {
            Some(choose|id: u64| self.pools.contains_key(id) && self.pools[id].dedup_key == key)
        } else {
            None
        }
    }

    /// The registry after a caller asked to share the pool with identity key
    /// `key`, and the handle handed out. Where such a pool is present it
    /// gains a holder and its handle is handed out. Where there is none, or
    /// its count of holders is used up, nothing changes and zero is handed
    /// out.
    pub open spec fn share_pool(self, key: Seq<char>) -> (Self, u64) {
        match self.pool_for_key(key) {
            Some(id) => if self.pools[id].ref_count < u32::MAX {
                (
                    RegistryView {
                        pools: self.pools.insert(
                            id,
                            PoolModel {
                                ref_count: (self.pools[id].ref_count + 1) as u32,
                                ..self.pools[id]
                            },
                        ),
                        ..self
                    },
                    id,
                )
            } else {
                (self, 0)
            },
            None => (self, 0),
        }
    }

    /// The registry after a pool was stored under `key`, and the handle
    /// handed out. Where a pool with that key is present it is shared, and
    /// `pool` is dropped. Otherwise `pool` enters under the next handle with
    /// one holder; where the handles are used up, nothing changes and zero is
    /// handed out.
    pub open spec fn store_pool(self, pool: P, key: Seq<char>) -> (Self, u64) {
        match self.pool_for_key(key) {
            Some(_) => self.share_pool(key),
            None => if self.next_pool_id < u64::MAX {
                (
                    RegistryView {
                        pools: self.pools.insert(
                            self.next_pool_id,
                            PoolModel { pool, last_error: None, ref_count: 1, dedup_key: key },
                        ),
                        next_pool_id: (self.next_pool_id + 1) as u64,
                        ..self
                    },
                    self.next_pool_id,
                )
            } else {
                (self, 0)
            },
        }
    }

    /// The registry after a holder released the pool `id`, and the pool if
    /// that was its last holder.
    pub open spec fn remove_pool(self, id: u64) -> (Self, Option<PoolModel<P>>) {
        if !self.pools.contains_key(id) {
            (self, None)
        } else if self.pools[id].ref_count <= 1 {
            (
                RegistryView { pools: self.pools.remove(id), ..self },
                Some(PoolModel { ref_count: 0, ..self.pools[id] }),
            )
        } else {
            (
                RegistryView {
                    pools: self.pools.insert(
                        id,
                        PoolModel {
                            ref_count: (self.pools[id].ref_count - 1) as u32,
                            ..self.pools[id]
                        },
                    ),
                    ..self
                },
                None,
            )
        }
    }

    /// The registry after a connection was stored, and its handle; zero and no
    /// change where the handles are used up.
    pub open spec fn store_conn(self, client: C, pool_id: Option<u64>) -> (Self, u64) {
        if self.next_conn_id < u64::MAX {
            (
                RegistryView {
                    conns: self.conns.insert(
                        self.next_conn_id,
                        ConnModel {
                            client: Some(client),
                            pool_id,
                            last_error: None,
                            active_transaction: None,
                        },
                    ),
                    next_conn_id: (self.next_conn_id + 1) as u64,
                    ..self
                },
                self.next_conn_id,
            )
        } else {
            (self, 0)
        }
    }

    /// The registry after the connection `id` was changed to `conn`; no change
    /// where there is no such connection.
    pub open spec fn with_conn(self, id: u64, conn: ConnModel<C>) -> Self {
        if self.conns.contains_key(id) {
            RegistryView { conns: self.conns.insert(id, conn), ..self }
        } else {
            self
        }
    }

    /// The registry after the pool `id` was changed to `pool`; no change where
    /// there is no such pool.
    pub open spec fn with_pool(self, id: u64, pool: PoolModel<P>) -> Self {
        if self.pools.contains_key(id) {
            RegistryView { pools: self.pools.insert(id, pool), ..self }
        } else {
            self
        }
    }

    /// The error that a caller fetches for the handle `id`, and where it is
    /// found: in the connection with that handle if it holds one, else in the
    /// pool with that handle.
    pub open spec fn pending_error(self, id: u64) -> Option<(bool, Seq<char>)> {
        if self.conns.contains_key(id) && self.conns[id].last_error is Some {
            Some((true, self.conns[id].last_error.unwrap()))
        } else if self.pools.contains_key(id) && self.pools[id].last_error is Some {
            Some((false, self.pools[id].last_error.unwrap()))
        } else {
            None
        }
    }

    /// The registry after the error for the handle `id` was fetched: the slot
    /// it came from is empty.
    pub open spec fn after_fetch(self, id: u64) -> Self {
        match self.pending_error(id) {
            Some((true, _)) => self.with_conn(
                id,
                ConnModel { last_error: None, ..self.conns[id] },
            ),
            Some((false, _)) => self.with_pool(
                id,
                PoolModel { last_error: None, ..self.pools[id] },
            ),
            None => self,
        }
    }
}

/// A pool that entered under a key is found under it again: storing a second
/// pool under the same key hands out the same handle and adds no entry.
pub proof fn lemma_same_key_shares_pool<P, C>(
    before: RegistryView<P, C>,
    first: P,
    second: P,
    key: Seq<char>,
)
    requires
        before.wf(),
        before.pool_for_key(key) is None,
        before.next_pool_id < u64::MAX,
    ensures
        ({
            let once = before.store_pool(first, key);
            let twice = once.0.store_pool(second, key);
            &&& once.1 != 0
            &&& twice.1 == once.1
            &&& twice.0.pools.dom() == once.0.pools.dom()
            &&& twice.0.pools[once.1].ref_count == 2
            &&& twice.0.pools[once.1].pool == first
        }),
{
    let once = before.store_pool(first, key);
    let id = once.1;
    assert(once.0.pools.contains_key(id) && once.0.pools[id].dedup_key == key);
    let found = once.0.pool_for_key(key).unwrap();
    if found != id {
        assert(before.pools.contains_key(found));
        assert(before.pools[found].dedup_key == key);
    }
    let twice = once.0.store_pool(second, key);
    assert(twice.0.pools.dom() =~= once.0.pools.dom());
}

/// A pool with two holders stays in the registry when one of them releases
/// it, and leaves it when the other does.
pub proof fn lemma_release_counts_holders<P, C>(before: RegistryView<P, C>, id: u64)
    requires
        before.wf(),
        before.pools.contains_key(id),
        before.pools[id].ref_count == 2,
    ensures
        ({
            let once = before.remove_pool(id);
            let twice = once.0.remove_pool(id);
            &&& once.1 is None
            &&& once.0.pools.contains_key(id)
            &&& twice.1 is Some
            &&& !twice.0.pools.contains_key(id)
        }),
{
}

/// The release by its last holder hands a pool out and frees its handle and
/// its identity key: the handle names no pool any more, and a pool stored
/// under that key afterwards enters under a new handle with one holder.
pub proof fn lemma_last_release_frees_key<P, C>(before: RegistryView<P, C>, id: u64, pool: P)
    requires
        before.wf(),
        before.pools.contains_key(id),
        before.pools[id].ref_count == 1,
        before.next_pool_id < u64::MAX,
    ensures
        ({
            let key = before.pools[id].dedup_key;
            let released = before.remove_pool(id);
            let stored = released.0.store_pool(pool, key);
            &&& released.1 == Some(PoolModel { ref_count: 0, ..before.pools[id] })
            &&& !released.0.pools.contains_key(id)
            &&& released.0.pool_for_key(key) is None
            &&& stored.1 != 0
            &&& stored.1 != id
            &&& stored.0.pools.contains_key(stored.1)
            &&& stored.0.pools[stored.1] == (PoolModel {
                pool,
                last_error: None,
                ref_count: 1,
                dedup_key: key,
            })
        }),
{
    let key = before.pools[id].dedup_key;
    let released = before.remove_pool(id);
    if released.0.pool_for_key(key) is Some {
        let other = released.0.pool_for_key(key).unwrap();
        assert(before.pools.contains_key(other) && other != id);
        assert(before.pools[other].dedup_key != before.pools[id].dedup_key);
    }
}

/// Storing a pool keeps the registry well formed.
pub proof fn lemma_store_pool_wf<P, C>(before: RegistryView<P, C>, pool: P, key: Seq<char>)
    requires
        before.wf(),
    ensures
        before.store_pool(pool, key).0.wf(),
        before.store_pool(pool, key).1 != 0 ==> before.store_pool(pool, key).0.pools.contains_key(
            before.store_pool(pool, key).1,
        ),
{
    let after = before.store_pool(pool, key).0;
    match before.pool_for_key(key) {
        Some(id) => {
            if before.pools[id].ref_count < u32::MAX {
                assert forall|a: u64, b: u64|
                    after.pools.contains_key(a) && after.pools.contains_key(b) && a
                        != b implies after.pools[a].dedup_key != after.pools[b].dedup_key by {
                    assert(before.pools.contains_key(a) && before.pools.contains_key(b));
                }
            }
        },
        None => {
            if before.next_pool_id < u64::MAX {
                let id = before.next_pool_id;
                assert(!before.pools.contains_key(id));
                assert forall|a: u64, b: u64|
                    after.pools.contains_key(a) && after.pools.contains_key(b) && a
                        != b implies after.pools[a].dedup_key != after.pools[b].dedup_key by {
                    if a == id {
                        assert(before.pools.contains_key(b));
                    } else if b == id {
                        assert(before.pools.contains_key(a));
                    } else {
                        assert(before.pools.contains_key(a) && before.pools.contains_key(b));
                    }
                }
            }
        },
    }
}

/// Releasing a pool keeps the registry well formed.
pub proof fn lemma_remove_pool_wf<P, C>(before: RegistryView<P, C>, id: u64)
    requires
        before.wf(),
    ensures
        before.remove_pool(id).0.wf(),
{
    let after = before.remove_pool(id).0;
    assert forall|a: u64, b: u64|
        after.pools.contains_key(a) && after.pools.contains_key(b) && a
            != b implies after.pools[a].dedup_key != after.pools[b].dedup_key by {
        assert(before.pools.contains_key(a) && before.pools.contains_key(b));
    }
}

/// The models of the pools in a table.
pub open spec fn pools_view<P>(m: Map<u64, PoolHandle<P>>) -> Map<u64, PoolModel<P>> {
    Map::new(|id: u64| m.contains_key(id), |id: u64| m[id]@)
}

/// The models of the connections in a table.
pub open spec fn conns_view<C>(m: Map<u64, ConnHandle<C>>) -> Map<u64, ConnModel<C>> {
    Map::new(|id: u64| m.contains_key(id), |id: u64| m[id]@)
}

/// The registry of pools and connections.
#[derive(Debug)]
pub struct HandleRegistry<P, C> {
    pools: HandleTable<PoolHandle<P>>,
    conns: HandleTable<ConnHandle<C>>,
}

impl<P, C> View for HandleRegistry<P, C> {
    type V = RegistryView<P, C>;

    closed spec fn view(&self) -> RegistryView<P, C> {
        RegistryView {
            pools: pools_view(self.pools@),
            conns: conns_view(self.conns@),
            next_pool_id: self.pools.next_id(),
            next_conn_id: self.conns.next_id(),
        }
    }
}

/// Message for a pool handle that names no pool.
pub open spec fn pool_not_found(id: u64) -> Seq<char> {
    "Pool "@ + decimal(id as nat) + " not found"@
}

/// Message for a connection handle that names no connection.
pub open spec fn conn_not_found(id: u64) -> Seq<char> {
    "Connection "@ + decimal(id as nat) + " not found"@
}

/// Message for a connection whose client is taken out.
pub open spec fn conn_in_use() -> Seq<char> {
    "Connection is in use"@
}

fn not_found(what: &str, id: u64) -> (s: String)
    ensures
        s@ == what@ + decimal(id as nat) + " not found"@,
{
    let mut s = String::from_str(what);
    push_decimal(&mut s, id as u128);
    push_text(&mut s, " not found");
    s
}

fn find_by_key<P>(pools: &HandleTable<PoolHandle<P>>, key: &str) -> (r: Option<u64>)
    ensures
        match r {
            Some(id) => pools@.contains_key(id) && pools@[id].dedup_key@ == key@,
            None => forall|id: u64| pools@.contains_key(id) ==> pools@[id].dedup_key@ != key@,
        },
{
    let ids = pools.ids();
    let mut i: usize = 0;
    while i < ids.len()
        invariant
            i <= ids.len(),
            forall|k: int| 0 <= k < ids.len() ==> pools@.contains_key(#[trigger] ids[k]),
            forall|k: int| 0 <= k < i ==> pools@[ids[k]].dedup_key@ != key@,
        decreases ids.len() - i,
    {
        let id = ids[i];
        match pools.get(id) {
            Some(h) => {
                if str_eq(h.dedup_key.as_str(), key) {
                    return Some(id);
                }
            },
            None => {},
        }
        i += 1;
    }
    proof {
        assert forall|id: u64| pools@.contains_key(id) implies pools@[id].dedup_key@ != key@ by {
            assert(ids@.contains(id));
            let k = choose|k: int| 0 <= k < ids.len() && ids@[k] == id;
            assert(pools@[ids[k]].dedup_key@ != key@);
        }
    }
    None
}

/// Whether every pool has a holder and no two pools share an identity key.
pub open spec fn pools_sound<P>(pools: Map<u64, PoolHandle<P>>) -> bool {
    &&& forall|id: u64| #[trigger] pools.contains_key(id) ==> pools[id].ref_count >= 1
    &&& forall|a: u64, b: u64|
        pools.contains_key(a) && pools.contains_key(b) && a != b ==> pools[a].dedup_key@
            != pools[b].dedup_key@
}

impl<P, C> HandleRegistry<P, C> {
    #[verifier::type_invariant]
    spec fn well_formed(self) -> bool {
        &&& self.pools.handles_valid()
        &&& self.conns.handles_valid()
        &&& pools_sound(self.pools@)
    }

    proof fn lemma_wf(&self)
        requires
            self.well_formed(),
        ensures
            self@.wf(),
            self@.pools.dom() == self.pools@.dom(),
            self@.conns.dom() == self.conns@.dom(),
    {
        assert(pools_view(self.pools@).dom() =~= self.pools@.dom());
        assert(conns_view(self.conns@).dom() =~= self.conns@.dom());
    }

    /// The registry without pools and connections. The first handle of each
    /// kind will be one.
    pub fn new() -> (reg: HandleRegistry<P, C>)
        ensures
            reg@.wf(),
            reg@.pools == Map::<u64, PoolModel<P>>::empty(),
            reg@.conns == Map::<u64, ConnModel<C>>::empty(),
            reg@.next_pool_id == 1,
            reg@.next_conn_id == 1,
    {
        let reg = HandleRegistry { pools: HandleTable::new(), conns: HandleTable::new() };
        proof {
            reg.lemma_wf();
            assert(reg@.pools =~= Map::<u64, PoolModel<P>>::empty());
            assert(reg@.conns =~= Map::<u64, ConnModel<C>>::empty());
        }
        reg
    }
}

/// Takes the entry of a pool out of the registry, whatever its holders.
fn take_pool<P, C>(reg: &mut HandleRegistry<P, C>, id: u64) -> (r: Option<PoolHandle<P>>)
    ensures
        old(reg)@.wf(),
        final(reg)@.wf(),
        final(reg)@ == (RegistryView { pools: old(reg)@.pools.remove(id), ..old(reg)@ }),
        match r {
            Some(h) => old(reg)@.pools.contains_key(id) && old(reg)@.pools[id] == h@,
            None => !old(reg)@.pools.contains_key(id),
        },
{
    proof {
        use_type_invariant(&*reg);
        reg.lemma_wf();
    }
    let ghost before = reg.pools@;
    let mut pools: HandleTable<PoolHandle<P>> = HandleTable::new();
    core::mem::swap(&mut reg.pools, &mut pools);
    let r = pools.remove(id);
    proof {
        assert(pools_view(pools@) =~= pools_view(before).remove(id));
        assert(pools_sound(pools@)) by {
            assert forall|a: u64| pools@.contains_key(a) implies before.contains_key(a) by {}
        }
    }
    core::mem::swap(&mut reg.pools, &mut pools);
    proof {
        reg.lemma_wf();
    }
    r
}

/// Puts the entry of a pool back behind the handle under which it was taken
/// out.
fn put_pool<P, C>(reg: &mut HandleRegistry<P, C>, id: u64, h: PoolHandle<P>)
    requires
        1 <= id < old(reg)@.next_pool_id,
        !old(reg)@.pools.contains_key(id),
        h.ref_count >= 1,
        forall|a: u64| #[trigger]
            old(reg)@.pools.contains_key(a) ==> old(reg)@.pools[a].dedup_key != h.dedup_key@,
    ensures
        final(reg)@.wf(),
        final(reg)@ == (RegistryView { pools: old(reg)@.pools.insert(id, h@), ..old(reg)@ }),
{
    proof {
        use_type_invariant(&*reg);
        reg.lemma_wf();
    }
    let ghost before = reg.pools@;
    let mut pools: HandleTable<PoolHandle<P>> = HandleTable::new();
    core::mem::swap(&mut reg.pools, &mut pools);
    let _ = pools.restore(id, h);
    proof {
        assert(pools_view(pools@) =~= pools_view(before).insert(id, h@));
        assert(pools_sound(pools@)) by {
            assert forall|a: u64| #[trigger] pools@.contains_key(a) implies pools@[a].ref_count
                >= 1 by {
                if a != id {
                    assert(before.contains_key(a));
                }
            }
            assert forall|a: u64, b: u64|
                pools@.contains_key(a) && pools@.contains_key(b) && a != b implies pools@[a].dedup_key@
                != pools@[b].dedup_key@ by {
                if a == id {
                    assert(old(reg)@.pools.contains_key(b));
                } else if b == id {
                    assert(old(reg)@.pools.contains_key(a));
                } else {
                    assert(before.contains_key(a) && before.contains_key(b));
                }
            }
        }
    }
    core::mem::swap(&mut reg.pools, &mut pools);
    proof {
        reg.lemma_wf();
    }
}

/// Puts the entry of a connection back behind the handle under which it was
/// taken out.
fn put_conn<P, C>(reg: &mut HandleRegistry<P, C>, id: u64, h: ConnHandle<C>)
    requires
        1 <= id < old(reg)@.next_conn_id,
        !old(reg)@.conns.contains_key(id),
    ensures
        final(reg)@.wf(),
        final(reg)@ == (RegistryView { conns: old(reg)@.conns.insert(id, h@), ..old(reg)@ }),
{
    proof {
        use_type_invariant(&*reg);
        reg.lemma_wf();
    }
    let ghost before = reg.conns@;
    let mut conns: HandleTable<ConnHandle<C>> = HandleTable::new();
    core::mem::swap(&mut reg.conns, &mut conns);
    let _ = conns.restore(id, h);
    proof {
        assert(conns_view(conns@) =~= conns_view(before).insert(id, h@));
    }
    core::mem::swap(&mut reg.conns, &mut conns);
    proof {
        reg.lemma_wf();
    }
}

/// The pool with identity key `key`, if there is one.
pub fn find_pool<P, C>(reg: &HandleRegistry<P, C>, key: &str) -> (r: Option<u64>)
    ensures
        reg@.wf(),
        r == reg@.pool_for_key(key@),
{
    proof {
        use_type_invariant(reg);
        reg.lemma_wf();
    }
    let r = find_by_key(&reg.pools, key);
    proof {
        match r {
            Some(id) => {
                assert(reg@.pools.contains_key(id) && reg@.pools[id].dedup_key == key@);
                let w = reg@.pool_for_key(key@).unwrap();
                if w != id {
                    assert(reg.pools@.contains_key(w) && reg.pools@.contains_key(id));
                }
            },
            None => {
                if reg@.pool_for_key(key@) is Some {
                    let w = reg@.pool_for_key(key@).unwrap();
                    assert(reg.pools@.contains_key(w));
                }
            },
        }
    }
    r
}

/// Shares the pool with the identity of `config`, if there is one: the pool
/// gains a holder and its handle is returned. Returns zero where there is no
/// such pool, so that the caller opens one and stores it.
pub fn share_pool<P, C>(reg: &mut HandleRegistry<P, C>, config: &NormalizedConfig) -> (id: u64)
    ensures
        final(reg)@.wf(),
        (final(reg)@, id) == old(reg)@.share_pool(identity_key(*config)),
{
    let key = config.dedup_key();
    let existing = match find_pool(reg, key.as_str()) {
        Some(id) => id,
        None => {
            return 0;
        },
    };
    match take_pool(reg, existing) {
        Some(mut h) => {
            let shared = h.ref_count < u32::MAX;
            if shared {
                h.ref_count = h.ref_count + 1;
            }
            put_pool(reg, existing, h);
            assert(reg@.pools =~= old(reg)@.share_pool(identity_key(*config)).0.pools);
            if shared {
                existing
            } else {
                0
            }
        },
        None => 0,
    }
}

/// Stores a pool under the identity of `config` and returns its handle. Where
/// a pool with the same identity is present, that pool gains a holder, its
/// handle is returned and `pool` is dropped.
pub fn store_pool<P, C>(reg: &mut HandleRegistry<P, C>, pool: P, config: &NormalizedConfig) -> (id:
    u64)
    ensures
        final(reg)@.wf(),
        (final(reg)@, id) == old(reg)@.store_pool(pool, identity_key(*config)),
{
    let key = config.dedup_key();
    if find_pool(reg, key.as_str()).is_some() {
        return share_pool(reg, config);
    }
    proof {
        use_type_invariant(&*reg);
        reg.lemma_wf();
    }
    let ghost before = reg.pools@;
    let mut pools: HandleTable<PoolHandle<P>> = HandleTable::new();
    core::mem::swap(&mut reg.pools, &mut pools);
    let h = PoolHandle { pool, last_error: None, ref_count: 1, dedup_key: key };
    let id = pools.insert(h);
    proof {
        if id != 0 {
            assert(pools_view(pools@) =~= pools_view(before).insert(id, h@));
        }
        assert(pools_sound(pools@)) by {
            assert forall|a: u64| #[trigger] pools@.contains_key(a) implies pools@[a].ref_count
                >= 1 by {
                if a != id {
                    assert(before.contains_key(a));
                }
            }
            assert forall|a: u64, b: u64|
                pools@.contains_key(a) && pools@.contains_key(b) && a != b implies pools@[a].dedup_key@
                != pools@[b].dedup_key@ by {
                if id != 0 && (a == id || b == id) {
                    let other = if a == id { b } else { a };
                    assert(old(reg)@.pools.contains_key(other));
                    assert(old(reg)@.pools[other].dedup_key != key@);
                } else {
                    assert(before.contains_key(a) && before.contains_key(b));
                }
            }
        }
    }
    core::mem::swap(&mut reg.pools, &mut pools);
    proof {
        reg.lemma_wf();
    }
    id
}

/// The pool behind a handle, or a pool error that names the handle.
pub fn get_pool<P, C>(reg: &HandleRegistry<P, C>, id: u64) -> (r: Result<
    &PoolHandle<P>,
    MssqlError,
>)
    ensures
        reg@.wf(),
        match r {
            Ok(h) => reg@.pools.contains_key(id) && reg@.pools[id] == h@,
            Err(e) => !reg@.pools.contains_key(id) && e.is(ErrorKind::Pool, pool_not_found(id)),
        },
{
    proof {
        use_type_invariant(reg);
        reg.lemma_wf();
    }
    match reg.pools.get(id) {
        Some(h) => Ok(h),
        None => Err(MssqlError::Pool(not_found("Pool ", id))),
    }
}

/// Releases one holder's share of a pool. The pool leaves the registry, and
/// is returned, when that was its last holder.
pub fn remove_pool<P, C>(reg: &mut HandleRegistry<P, C>, id: u64) -> (r: Option<PoolHandle<P>>)
    ensures
        final(reg)@.wf(),
        final(reg)@ == old(reg)@.remove_pool(id).0,
        match r {
            Some(h) => old(reg)@.remove_pool(id).1 == Some(h@),
            None => old(reg)@.remove_pool(id).1 is None,
        },
{
    match take_pool(reg, id) {
        Some(mut h) => {
            if h.ref_count <= 1 {
                h.ref_count = 0;
                Some(h)
            } else {
                h.ref_count = h.ref_count - 1;
                put_pool(reg, id, h);
                assert(reg@.pools =~= old(reg)@.remove_pool(id).0.pools);
                None
            }
        },
        None => {
            assert(reg@.pools =~= old(reg)@.pools);
            None
        },
    }
}

/// Drops every pool, whatever its holders. Handles issued before are not
/// issued again.
pub fn remove_all_pools<P, C>(reg: &mut HandleRegistry<P, C>)
    ensures
        final(reg)@.wf(),
        final(reg)@ == (RegistryView { pools: Map::empty(), ..old(reg)@ }),
{
    proof {
        use_type_invariant(&*reg);
    }
    let mut pools: HandleTable<PoolHandle<P>> = HandleTable::new();
    core::mem::swap(&mut reg.pools, &mut pools);
    pools.clear();
    core::mem::swap(&mut reg.pools, &mut pools);
    proof {
        reg.lemma_wf();
        assert(pools_view(reg.pools@) =~= Map::<u64, PoolModel<P>>::empty());
    }
}

/// Stores a connection, with the handle of the pool it came from if it came
/// from one, and returns its handle.
pub fn store_conn<P, C>(reg: &mut HandleRegistry<P, C>, client: C, pool_id: Option<u64>) -> (id:
    u64)
    ensures
        final(reg)@.wf(),
        (final(reg)@, id) == old(reg)@.store_conn(client, pool_id),
{
    proof {
        use_type_invariant(&*reg);
    }
    let ghost before = reg.conns@;
    let mut conns: HandleTable<ConnHandle<C>> = HandleTable::new();
    core::mem::swap(&mut reg.conns, &mut conns);
    let h = ConnHandle {
        client: Some(client),
        pool_id,
        last_error: None,
        active_transaction: None,
    };
    let id = conns.insert(h);
    proof {
        if id != 0 {
            assert(conns_view(conns@) =~= conns_view(before).insert(id, h@));
        }
    }
    core::mem::swap(&mut reg.conns, &mut conns);
    proof {
        reg.lemma_wf();
    }
    id
}

/// The connection behind a handle, or a connection error that names the
/// handle.
pub fn get_conn<P, C>(reg: &HandleRegistry<P, C>, id: u64) -> (r: Result<
    &ConnHandle<C>,
    MssqlError,
>)
    ensures
        reg@.wf(),
        match r {
            Ok(h) => reg@.conns.contains_key(id) && reg@.conns[id] == h@,
            Err(e) => !reg@.conns.contains_key(id) && e.is(
                ErrorKind::Connection,
                conn_not_found(id),
            ),
        },
{
    proof {
        use_type_invariant(reg);
        reg.lemma_wf();
    }
    match reg.conns.get(id) {
        Some(h) => Ok(h),
        None => Err(MssqlError::Connection(not_found("Connection ", id))),
    }
}

/// Takes a connection out of the registry. A connection that came from a pool
/// goes back to its pool when the returned entry is dropped.
pub fn remove_conn<P, C>(reg: &mut HandleRegistry<P, C>, id: u64) -> (r: Option<ConnHandle<C>>)
    ensures
        old(reg)@.wf(),
        final(reg)@.wf(),
        final(reg)@ == (RegistryView { conns: old(reg)@.conns.remove(id), ..old(reg)@ }),
        match r {
            Some(h) => old(reg)@.conns.contains_key(id) && old(reg)@.conns[id] == h@,
            None => !old(reg)@.conns.contains_key(id),
        },
{
    proof {
        use_type_invariant(&*reg);
        reg.lemma_wf();
    }
    let ghost before = reg.conns@;
    let mut conns: HandleTable<ConnHandle<C>> = HandleTable::new();
    core::mem::swap(&mut reg.conns, &mut conns);
    let r = conns.remove(id);
    proof {
        assert(conns_view(conns@) =~= conns_view(before).remove(id));
    }
    core::mem::swap(&mut reg.conns, &mut conns);
    proof {
        reg.lemma_wf();
    }
    r
}

/// Drops every connection. Handles issued before are not issued again.
pub fn remove_all_conns<P, C>(reg: &mut HandleRegistry<P, C>)
    ensures
        final(reg)@.wf(),
        final(reg)@ == (RegistryView { conns: Map::empty(), ..old(reg)@ }),
{
    proof {
        use_type_invariant(&*reg);
    }
    let mut conns: HandleTable<ConnHandle<C>> = HandleTable::new();
    core::mem::swap(&mut reg.conns, &mut conns);
    conns.clear();
    core::mem::swap(&mut reg.conns, &mut conns);
    proof {
        reg.lemma_wf();
        assert(conns_view(reg.conns@) =~= Map::<u64, ConnModel<C>>::empty());
    }
}

/// Drops every pool and every connection.
pub fn clear_all<P, C>(reg: &mut HandleRegistry<P, C>)
    ensures
        final(reg)@.wf(),
        final(reg)@ == (RegistryView {
            pools: Map::empty(),
            conns: Map::empty(),
            ..old(reg)@
        }),
{
    remove_all_conns(reg);
    remove_all_pools(reg);
}

/// Takes the client of a connection out of its entry for the length of an
/// operation. Fails with a connection error where the handle names no
/// connection, and where the client is already taken out.
pub fn checkout_client<P, C>(reg: &mut HandleRegistry<P, C>, id: u64) -> (r: Result<C, MssqlError>)
    ensures
        final(reg)@.wf(),
        match r {
            Ok(c) => old(reg)@.conns.contains_key(id) && old(reg)@.conns[id].client == Some(c)
                && final(reg)@ == old(reg)@.with_conn(
                id,
                ConnModel { client: None, ..old(reg)@.conns[id] },
            ),
            Err(e) => final(reg)@ == old(reg)@ && if old(reg)@.conns.contains_key(id) {
                old(reg)@.conns[id].client is None && e.is(ErrorKind::Connection, conn_in_use())
            } else {
                e.is(ErrorKind::Connection, conn_not_found(id))
            },
        },
{
    match remove_conn(reg, id) {
        Some(mut h) => {
            let mut client: Option<C> = None;
            core::mem::swap(&mut h.client, &mut client);
            put_conn(reg, id, h);
            assert(reg@.conns =~= old(reg)@.conns.insert(
                id,
                ConnModel { client: None, ..old(reg)@.conns[id] },
            ));
            match client {
                Some(c) => Ok(c),
                None => {
                    assert(reg@.conns =~= old(reg)@.conns);
                    Err(MssqlError::Connection(String::from_str("Connection is in use")))
                },
            }
        },
        None => {
            assert(reg@.conns =~= old(reg)@.conns);
            Err(MssqlError::Connection(not_found("Connection ", id)))
        },
    }
}

/// Puts the client of a connection back into its entry when the operation is
/// over. Where the connection left the registry meanwhile, the client is
/// handed back to the caller.
pub fn return_client<P, C>(reg: &mut HandleRegistry<P, C>, id: u64, client: C) -> (r: Option<C>)
    ensures
        final(reg)@.wf(),
        old(reg)@.conns.contains_key(id) ==> r is None && final(reg)@ == old(reg)@.with_conn(
            id,
            ConnModel { client: Some(client), ..old(reg)@.conns[id] },
        ),
        !old(reg)@.conns.contains_key(id) ==> r == Some(client) && final(reg)@ == old(reg)@,
{
    match remove_conn(reg, id) {
        Some(mut h) => {
            h.client = Some(client);
            put_conn(reg, id, h);
            assert(reg@.conns =~= old(reg)@.conns.insert(
                id,
                ConnModel { client: Some(client), ..old(reg)@.conns[id] },
            ));
            None
        },
        None => {
            assert(reg@.conns =~= old(reg)@.conns);
            Some(client)
        },
    }
}

/// Records an error in the slot of a connection. Returns whether the handle
/// names a connection.
pub fn set_conn_error<P, C>(reg: &mut HandleRegistry<P, C>, id: u64, msg: String) -> (r: bool)
    ensures
        final(reg)@.wf(),
        r == old(reg)@.conns.contains_key(id),
        final(reg)@ == old(reg)@.with_conn(
            id,
            ConnModel { last_error: Some(msg@), ..old(reg)@.conns[id] },
        ),
{
    match remove_conn(reg, id) {
        Some(mut h) => {
            h.set_error(msg);
            put_conn(reg, id, h);
            assert(reg@.conns =~= old(reg)@.conns.insert(
                id,
                ConnModel { last_error: Some(msg@), ..old(reg)@.conns[id] },
            ));
            true
        },
        None => {
            assert(reg@.conns =~= old(reg)@.conns);
            false
        },
    }
}

/// Records which transaction is active on a connection, or that none is.
/// Returns whether the handle names a connection.
pub fn set_active_transaction<P, C>(
    reg: &mut HandleRegistry<P, C>,
    id: u64,
    transaction: Option<String>,
) -> (r: bool)
    ensures
        final(reg)@.wf(),
        r == old(reg)@.conns.contains_key(id),
        final(reg)@ == old(reg)@.with_conn(
            id,
            ConnModel { active_transaction: opt_text(transaction), ..old(reg)@.conns[id] },
        ),
{
    match remove_conn(reg, id) {
        Some(mut h) => {
            h.active_transaction = transaction;
            put_conn(reg, id, h);
            assert(reg@.conns =~= old(reg)@.conns.insert(
                id,
                ConnModel { active_transaction: opt_text(transaction), ..old(reg)@.conns[id] },
            ));
            true
        },
        None => {
            assert(reg@.conns =~= old(reg)@.conns);
            false
        },
    }
}

/// Records an error in the slot of a pool. Returns whether the handle names a
/// pool.
pub fn set_pool_error<P, C>(reg: &mut HandleRegistry<P, C>, id: u64, msg: String) -> (r: bool)
    ensures
        final(reg)@.wf(),
        r == old(reg)@.pools.contains_key(id),
        final(reg)@ == old(reg)@.with_pool(
            id,
            PoolModel { last_error: Some(msg@), ..old(reg)@.pools[id] },
        ),
{
    match take_pool(reg, id) {
        Some(mut h) => {
            h.set_error(msg);
            put_pool(reg, id, h);
            assert(reg@.pools =~= old(reg)@.pools.insert(
                id,
                PoolModel { last_error: Some(msg@), ..old(reg)@.pools[id] },
            ));
            true
        },
        None => {
            assert(reg@.pools =~= old(reg)@.pools);
            false
        },
    }
}

/// Fetches the error recorded for a handle and empties the slot it came from:
/// the slot of the connection with that handle if it holds an error, else the
/// slot of the pool with that handle. A second fetch without a new error
/// finds nothing.
pub fn take_last_error<P, C>(reg: &mut HandleRegistry<P, C>, id: u64) -> (r: Option<String>)
    ensures
        final(reg)@.wf(),
        final(reg)@ == old(reg)@.after_fetch(id),
        match r {
            Some(msg) => old(reg)@.pending_error(id) matches Some(found) && found.1 == msg@,
            None => old(reg)@.pending_error(id) is None,
        },
{
    let from_conn = match remove_conn(reg, id) {
        Some(mut h) => {
            let mut slot: Option<String> = None;
            core::mem::swap(&mut h.last_error, &mut slot);
            put_conn(reg, id, h);
            assert(reg@.conns =~= old(reg)@.conns.insert(
                id,
                ConnModel { last_error: None, ..old(reg)@.conns[id] },
            ));
            if slot.is_none() {
                assert(reg@.conns =~= old(reg)@.conns);
            }
            slot
        },
        None => {
            assert(reg@.conns =~= old(reg)@.conns);
            None
        },
    };
    if from_conn.is_some() {
        return from_conn;
    }
    match take_pool(reg, id) {
        Some(mut h) => {
            let mut slot: Option<String> = None;
            core::mem::swap(&mut h.last_error, &mut slot);
            put_pool(reg, id, h);
            assert(reg@.pools =~= old(reg)@.pools.insert(
                id,
                PoolModel { last_error: None, ..old(reg)@.pools[id] },
            ));
            if slot.is_none() {
                assert(reg@.pools =~= old(reg)@.pools);
            }
            slot
        },
        None => {
            assert(reg@.pools =~= old(reg)@.pools);
            None
        },
    }
}

/// What a snapshot says of one pool.
#[derive(Clone, Copy, Debug, PartialEq, Eq, Structural)]
pub struct PoolInfo {
    pub id: u64,
    pub ref_count: u32,
}

/// What a snapshot says of one connection.
#[derive(Clone, Copy, Debug, PartialEq, Eq, Structural)]
pub struct ConnInfo {
    pub id: u64,
    pub pool_id: Option<u64>,
    pub is_pooled: bool,
    pub has_active_transaction: bool,
}

/// The state of the registry at one moment, for inspection.
#[derive(Debug)]
pub struct DiagnosticSnapshot {
    pub pools: Vec<PoolInfo>,
    pub connections: Vec<ConnInfo>,
}

/// What a snapshot says of the pool `id`.
pub open spec fn pool_info<P>(id: u64, pool: PoolModel<P>) -> PoolInfo {
    PoolInfo { id, ref_count: pool.ref_count }
}

/// What a snapshot says of the connection `id`.
pub open spec fn conn_info<C>(id: u64, conn: ConnModel<C>) -> ConnInfo {
    ConnInfo {
        id,
        pool_id: conn.pool_id,
        is_pooled: conn.pool_id is Some,
        has_active_transaction: conn.active_transaction is Some,
    }
}

/// Lists every pool and every connection once, by increasing handle.
pub fn diagnostic_snapshot<P, C>(reg: &HandleRegistry<P, C>) -> (snap: DiagnosticSnapshot)
    ensures
        reg@.wf(),
        snap.pools.len() == reg@.pools.dom().len(),
        snap.connections.len() == reg@.conns.dom().len(),
        forall|i: int|
            0 <= i < snap.pools.len() ==> reg@.pools.contains_key((#[trigger] snap.pools[i]).id)
                && snap.pools[i] == pool_info(snap.pools[i].id, reg@.pools[snap.pools[i].id]),
        forall|i: int|
            0 <= i < snap.connections.len() ==> reg@.conns.contains_key(
                (#[trigger] snap.connections[i]).id,
            ) && snap.connections[i] == conn_info(
                snap.connections[i].id,
                reg@.conns[snap.connections[i].id],
            ),
        forall|i: int, j: int|
            0 <= i < j < snap.pools.len() ==> snap.pools[i].id < snap.pools[j].id,
        forall|i: int, j: int|
            0 <= i < j < snap.connections.len() ==> snap.connections[i].id
                < snap.connections[j].id,
{
    proof {
        use_type_invariant(reg);
        reg.lemma_wf();
    }
    let pool_ids = reg.pools.ids();
    let mut pools: Vec<PoolInfo> = Vec::new();
    let mut i: usize = 0;
    while i < pool_ids.len()
        invariant
            i <= pool_ids.len(),
            pools.len() == i,
            forall|k: int| 0 <= k < pool_ids.len() ==> reg.pools@.contains_key(#[trigger] pool_ids[k]),
            forall|k: int|
                0 <= k < i ==> (#[trigger] pools[k]) == pool_info(
                    pool_ids[k],
                    reg.pools@[pool_ids[k]]@,
                ),
        decreases pool_ids.len() - i,
    {
        let id = pool_ids[i];
        match reg.pools.get(id) {
            Some(h) => {
                pools.push(PoolInfo { id, ref_count: h.ref_count });
            },
            None => {
                assert(false);
            },
        }
        i += 1;
    }
    let conn_ids = reg.conns.ids();
    let mut connections: Vec<ConnInfo> = Vec::new();
    let mut j: usize = 0;
    while j < conn_ids.len()
        invariant
            j <= conn_ids.len(),
            connections.len() == j,
            forall|k: int| 0 <= k < conn_ids.len() ==> reg.conns@.contains_key(#[trigger] conn_ids[k]),
            forall|k: int|
                0 <= k < j ==> (#[trigger] connections[k]) == conn_info(
                    conn_ids[k],
                    reg.conns@[conn_ids[k]]@,
                ),
        decreases conn_ids.len() - j,
    {
        let id = conn_ids[j];
        match reg.conns.get(id) {
            Some(h) => {
                connections.push(
                    ConnInfo {
                        id,
                        pool_id: h.pool_id,
                        is_pooled: h.pool_id.is_some(),
                        has_active_transaction: h.active_transaction.is_some(),
                    },
                );
            },
            None => {
                assert(false);
            },
        }
        j += 1;
    }
    DiagnosticSnapshot { pools, connections }
}

} // verus!
