use vstd::prelude::*;
use bytes::BytesMut;
use crate::lock_manager::{
    holders_of, lemma_lock_round_trip, set_holders, with_holder, Holders, LockMode, LockTable,
};
use crate::storage::{db_key, StorageAdapter};

verus! {

/// Hit and miss counters that the handlers only ever increase.
pub struct Telemetry {
    pub db_hits: u64,
    pub db_misses: u64,
}

impl Telemetry {
    pub fn new() -> (r: Telemetry)
        ensures
            r.db_hits == 0,
            r.db_misses == 0,
    {
        Telemetry { db_hits: 0, db_misses: 0 }
    }

    /// Counts one read that found its value; the count stops at its maximum.
    pub fn inc_db_hit(&mut self)
        ensures
            final(self).db_hits == if old(self).db_hits == u64::MAX { u64::MAX } else { (old(self).db_hits + 1) as u64 },
            final(self).db_misses == old(self).db_misses,
    {
        self.db_hits = self.db_hits.saturating_add(1);
    }

    /// Counts one read that found nothing; the count stops at its maximum.
    pub fn inc_db_miss(&mut self)
        ensures
            final(self).db_misses == if old(self).db_misses == u64::MAX { u64::MAX } else { (old(self).db_misses + 1) as u64 },
            final(self).db_hits == old(self).db_hits,
    {
        self.db_misses = self.db_misses.saturating_add(1);
    }
}

/// What a handler hands back: the encoded reply, and whether the eviction
/// task should be woken to clean up after deleted keys.
pub struct HandleCommandResult {
    pub response: BytesMut,
    pub trigger_eviction: bool,
}

/// A failure that is no user error and so gets no reply.
#[derive(Debug, PartialEq, Eq)]
pub enum SableError {
    /// A command reached the handlers of another family; holds a message
    /// naming it.
    InvalidArgument(Vec<u8>),
}

/// The state a connection works on: the engine, the database it selected,
/// the key locks, the options and the counters.
pub struct ClientState {
    pub database: StorageAdapter,
    pub database_id: u16,
    /// Child records of deleted keys are removed at once, so `DEL` need not
    /// wake the eviction task.
    pub instant_delete: bool,
    pub telemetry: Telemetry,
    /// Held only while a handler runs.
    pub locks: LockTable,
}

/// The lock table with `key` of `db` held once in `mode` and nothing else.
pub open spec fn held_alone(db: u16, key: Seq<u8>, mode: LockMode) -> Map<Seq<u8>, Holders> {
    set_holders(
        Map::empty(),
        db_key(db, key),
        with_holder(holders_of(Map::empty(), db_key(db, key)), mode),
    )
}

impl ClientState {
    /// The key locks as a map from storage key to holders.
    pub open spec fn locks(&self) -> Map<Seq<u8>, Holders> {
        self.locks@
    }

    /// Between commands no lock is held: every grant is given back before
    /// its handler returns.
    pub open spec fn wf(&self) -> bool {
        self.database.wf() && self.locks() == Map::<Seq<u8>, Holders>::empty()
    }

    pub fn new(database: StorageAdapter, database_id: u16, instant_delete: bool) -> (r: ClientState)
        requires
            database.wf(),
        ensures
            r.wf(),
            r.database == database,
            r.database_id == database_id,
            r.instant_delete == instant_delete,
            r.telemetry.db_hits == 0,
            r.telemetry.db_misses == 0,
    {
        ClientState { database, database_id, instant_delete, telemetry: Telemetry::new(), locks: LockTable::new() }
    }

    /// Takes the lock of `key` in `mode`; with no other lock held it is free.
    pub(crate) fn acquire(&mut self, key: &[u8], mode: LockMode)
        requires
            old(self).locks() == Map::<Seq<u8>, Holders>::empty(),
        ensures
            final(self).locks() == held_alone(old(self).database_id, key@, mode),
            final(self).database == old(self).database,
            final(self).database_id == old(self).database_id,
            final(self).instant_delete == old(self).instant_delete,
            final(self).telemetry == old(self).telemetry,
    {
        proof {
            lemma_lock_round_trip(Map::empty(), db_key(self.database_id, key@), mode);
        }
        let granted = self.locks.try_lock(self.database_id, key, mode);
        assert(granted);
    }

    /// Gives back the lock of `key` in `mode`.
    pub(crate) fn release(&mut self, key: &[u8], mode: LockMode)
        requires
            old(self).locks() == held_alone(old(self).database_id, key@, mode),
        ensures
            final(self).locks() == Map::<Seq<u8>, Holders>::empty(),
            final(self).database == old(self).database,
            final(self).database_id == old(self).database_id,
            final(self).instant_delete == old(self).instant_delete,
            final(self).telemetry == old(self).telemetry,
    {
        proof {
            lemma_lock_round_trip(Map::empty(), db_key(self.database_id, key@), mode);
        }
        self.locks.unlock(self.database_id, key, mode);
    }
}

} // verus!
