use vstd::prelude::*;
use crate::metadata::Expiration;
use crate::storage::{
    apply_ops, db_key, entry_ok, live, make_db_key, op_ok, Entry, EntryModel, StagedOp,
    StorageAdapter,
};

verus! {

/// Type-agnostic access to the keys of one database: reads go to the
/// committed records, writes are staged until `commit`.
pub struct GenericDb {
    db_id: u16,
    batch: Vec<StagedOp>,
}

impl GenericDb {
    pub closed spec fn db(&self) -> u16 {
        self.db_id
    }

    /// The changes staged and not yet committed, in order.
    pub closed spec fn pending(&self) -> Seq<StagedOp> {
        self.batch@
    }

    /// Every staged change keeps within the bulk length limit.
    pub open spec fn wf(&self) -> bool {
        forall|i: int| 0 <= i < self.pending().len() ==> op_ok(#[trigger] self.pending()[i])
    }

    /// An accessor for database `db_id` with nothing staged.
    pub fn with_db(db_id: u16) -> (r: GenericDb)
        ensures
            r.db() == db_id,
            r.pending() == Seq::<StagedOp>::empty(),
            r.wf(),
    {
        GenericDb { db_id, batch: Vec::new() }
    }

    /// Whether `key` holds a value that has not expired at `now_ms`.
    pub fn contains(&self, store: &StorageAdapter, key: &[u8], now_ms: u64) -> (r: bool)
        ensures
            r == live(store@, self.db(), key@, now_ms) is Some,
    {
        self.get(store, key, now_ms).is_some()
    }

    /// The record of `key`, unless it is absent or expired at `now_ms`.
    pub fn get<'a>(&self, store: &'a StorageAdapter, key: &[u8], now_ms: u64) -> (r: Option<&'a Entry>)
        ensures
            match r {
                Some(e) => live(store@, self.db(), key@, now_ms) == Some(e@),
                None => live(store@, self.db(), key@, now_ms) is None,
            },
    {
        let k = make_db_key(self.db_id, key);
        match store.get(k.as_slice()) {
            Some(e) => {
                if e.expiration.is_expired(now_ms) {
                    None
                } else {
                    Some(e)
                }
            },
            None => None,
        }
    }

    /// The expiration of `key`, unless it is absent or expired at `now_ms`.
    pub fn get_expiration(&self, store: &StorageAdapter, key: &[u8], now_ms: u64) -> (r: Option<Expiration>)
        ensures
            match r {
                Some(x) => live(store@, self.db(), key@, now_ms) is Some
                    && x.deadline_ms == live(store@, self.db(), key@, now_ms)->0.expiration,
                None => live(store@, self.db(), key@, now_ms) is None,
            },
    {
        match self.get(store, key, now_ms) {
            Some(e) => Some(e.expiration),
            None => None,
        }
    }

    /// What committing the staged changes would do to records `m`.
    pub open spec fn effect(&self, m: Map<Seq<u8>, EntryModel>) -> Map<Seq<u8>, EntryModel> {
        apply_ops(m, self.pending())
    }

    fn stage(&mut self, op: StagedOp)
        requires
            old(self).wf(),
            op_ok(op),
        ensures
            final(self).wf(),
            final(self).db() == old(self).db(),
            forall|m: Map<Seq<u8>, EntryModel>| #[trigger] final(self).effect(m) == crate::storage::apply_op(old(self).effect(m), op),
    {
        let ghost before = self.batch@;
        self.batch.push(op);
        assert(self.batch@.drop_last() == before);
        assert forall|i: int| 0 <= i < self.pending().len() implies op_ok(#[trigger] self.pending()[i]) by {
            if i < before.len() {
                assert(self.pending()[i] == old(self).pending()[i]);
                assert(op_ok(old(self).pending()[i]));
            } else {
                assert(self.pending()[i] == op);
            }
        }
    }

    /// Stages writing `entry`, metadata and payload together, under `key`.
    pub fn put(&mut self, key: &[u8], entry: Entry)
        requires
            old(self).wf(),
            entry_ok(entry@),
        ensures
            final(self).wf(),
            final(self).db() == old(self).db(),
            forall|m: Map<Seq<u8>, EntryModel>| #[trigger] final(self).effect(m) == old(self).effect(m).insert(db_key(old(self).db(), key@), entry@),
    {
        let k = make_db_key(self.db_id, key);
        self.stage(StagedOp::Put(k, entry));
    }

    /// Stages replacing the expiration of `key`, if it has a record, and
    /// commits at once when `commit_now` holds.
    pub fn put_expiration(&mut self, store: &mut StorageAdapter, key: &[u8], expiration: Expiration, commit_now: bool)
        requires
            old(self).wf(),
            old(store).wf(),
        ensures
            final(self).wf(),
            final(store).wf(),
            final(self).db() == old(self).db(),
            commit_now ==> final(self).pending().len() == 0,
            commit_now ==> final(store)@ == set_expiration(old(self).effect(old(store)@), db_key(old(self).db(), key@), expiration),
            !commit_now ==> *final(store) == *old(store),
            !commit_now ==> forall|m: Map<Seq<u8>, EntryModel>| #[trigger] final(self).effect(m) == set_expiration(old(self).effect(m), db_key(old(self).db(), key@), expiration),
    {
        let k = make_db_key(self.db_id, key);
        self.stage(StagedOp::SetExpiration(k, expiration));
        if commit_now {
            self.commit(store);
        }
    }

    /// Stages removing `key`: its metadata and payload go together.
    pub fn delete(&mut self, key: &[u8])
        requires
            old(self).wf(),
        ensures
            final(self).wf(),
            final(self).db() == old(self).db(),
            forall|m: Map<Seq<u8>, EntryModel>| #[trigger] final(self).effect(m) == old(self).effect(m).remove(db_key(old(self).db(), key@)),
    {
        let k = make_db_key(self.db_id, key);
        self.stage(StagedOp::Delete(k));
    }

    /// Applies every staged change to `store` as one unit and clears the
    /// batch. With nothing staged it changes nothing, so calling it again is harmless.
    pub fn commit(&mut self, store: &mut StorageAdapter)
        requires
            old(self).wf(),
            old(store).wf(),
        ensures
            final(self).wf(),
            final(store).wf(),
            final(self).db() == old(self).db(),
            final(self).pending().len() == 0,
            final(store)@ == old(self).effect(old(store)@),
    {
        let mut ops: Vec<StagedOp> = Vec::new();
        std::mem::swap(&mut ops, &mut self.batch);
        assert(ops@ == old(self).pending());
        assert forall|i: int| 0 <= i < ops@.len() implies op_ok(#[trigger] ops@[i]) by {
            assert(ops@[i] == old(self).pending()[i]);
        }
        store.apply_batch(ops);
    }
}

/// The records `m` with the expiration under storage key `k` replaced, if
/// `k` has a record.
pub open spec fn set_expiration(m: Map<Seq<u8>, EntryModel>, k: Seq<u8>, x: Expiration) -> Map<Seq<u8>, EntryModel> {
    if m.contains_key(k) {
        m.insert(k, EntryModel { expiration: x.deadline_ms, value: m[k].value })
    } else {
        m
    }
}

} // verus!
