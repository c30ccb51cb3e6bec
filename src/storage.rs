use vstd::prelude::*;
use crate::byte_map::ByteMap;
use crate::metadata::{Expiration, ValueType};

verus! {

/// Longest byte string that a command argument, and so a stored value, may have.
pub const MAX_BULK_LEN: usize = 536870912;

/// A stored value: one variant per kind of value.
pub enum Value {
    Str(Vec<u8>),
    List(Vec<Vec<u8>>),
    Hash(ByteMap<Vec<u8>>),
    UnorderedSet(Vec<Vec<u8>>),
}

pub enum ValueModel {
    Str(Seq<u8>),
    List(Seq<Seq<u8>>),
    Hash(Map<Seq<u8>, Seq<u8>>),
    UnorderedSet(Seq<Seq<u8>>),
}

impl View for Value {
    type V = ValueModel;

    open spec fn view(&self) -> ValueModel {
        match self {
            Value::Str(s) => ValueModel::Str(s@),
            Value::List(l) => ValueModel::List(l.deep_view()),
            Value::Hash(h) => ValueModel::Hash(h@),
            Value::UnorderedSet(l) => ValueModel::UnorderedSet(l.deep_view()),
        }
    }
}

pub open spec fn value_type_of(v: ValueModel) -> ValueType {
    match v {
        ValueModel::Str(_) => ValueType::Str,
        ValueModel::List(_) => ValueType::List,
        ValueModel::Hash(_) => ValueType::Hash,
        ValueModel::UnorderedSet(_) => ValueType::UnorderedSet,
    }
}

/// A key's record: its metadata and its payload, written and removed together.
pub struct Entry {
    pub expiration: Expiration,
    pub value: Value,
}

pub struct EntryModel {
    pub expiration: Option<u64>,
    pub value: ValueModel,
}

impl View for Entry {
    type V = EntryModel;

    open spec fn view(&self) -> EntryModel {
        EntryModel { expiration: self.expiration.deadline_ms, value: self.value@ }
    }
}

impl Entry {
    /// The kind of value held.
    pub fn value_type(&self) -> (r: ValueType)
        ensures
            r == value_type_of(self.value@),
    {
        match &self.value {
            Value::Str(_) => ValueType::Str,
            Value::List(_) => ValueType::List,
            Value::Hash(_) => ValueType::Hash,
            Value::UnorderedSet(_) => ValueType::UnorderedSet,
        }
    }
}

/// The byte strings of a record stay within the bulk length limit, and a
/// hash has finitely many fields.
pub open spec fn entry_ok(e: EntryModel) -> bool {
    match e.value {
        ValueModel::Str(s) => s.len() <= MAX_BULK_LEN,
        ValueModel::Hash(h) => h.dom().finite() && forall|f: Seq<u8>| #[trigger] h.contains_key(f) ==> h[f].len() <= MAX_BULK_LEN,
        _ => true,
    }
}

/// The storage key of `key` in database `db`: the id in two bytes, big-endian,
/// then the key.
pub open spec fn db_key(db: u16, key: Seq<u8>) -> Seq<u8> {
    seq![(db / 256) as u8, (db % 256) as u8] + key
}

/// Distinct (database, key) pairs have distinct storage keys.
pub proof fn lemma_db_key_injective(a: u16, k1: Seq<u8>, b: u16, k2: Seq<u8>)
    ensures
        db_key(a, k1) == db_key(b, k2) ==> a == b && k1 == k2,
{
    if db_key(a, k1) == db_key(b, k2) {
        assert(db_key(a, k1)[0] == db_key(b, k2)[0]);
        assert(db_key(a, k1)[1] == db_key(b, k2)[1]);
        assert(k1 =~= db_key(a, k1).subrange(2, db_key(a, k1).len() as int));
        assert(k2 =~= db_key(b, k2).subrange(2, db_key(b, k2).len() as int));
    }
}

/// Builds the storage key of `key` in database `db`.
pub fn make_db_key(db: u16, key: &[u8]) -> (r: Vec<u8>)
    ensures
        r@ == db_key(db, key@),
{
    let mut r: Vec<u8> = Vec::new();
    r.push((db / 256) as u8);
    r.push((db % 256) as u8);
    let mut i: usize = 0;
    while i < key.len()
        invariant
            0 <= i <= key@.len(),
            r@ == seq![(db / 256) as u8, (db % 256) as u8] + key@.subrange(0, i as int),
        decreases key@.len() - i,
    {
        r.push(key[i]);
        assert(key@.subrange(0, i + 1) == key@.subrange(0, i as int).push(key[i as int]));
        i = i + 1;
    }
    assert(key@ == key@.subrange(0, key@.len() as int));
    r
}

/// The record of `key` in `db`, whether or not its deadline has passed.
pub open spec fn lookup(m: Map<Seq<u8>, EntryModel>, db: u16, key: Seq<u8>) -> Option<EntryModel> {
    if m.contains_key(db_key(db, key)) {
        Some(m[db_key(db, key)])
    } else {
        None
    }
}

/// The record of `key` in `db` as readers see it: absent once expired.
pub open spec fn live(m: Map<Seq<u8>, EntryModel>, db: u16, key: Seq<u8>, now_ms: u64) -> Option<EntryModel> {
    match lookup(m, db, key) {
        Some(e) => if crate::metadata::expired(e.expiration, now_ms) {
            None
        } else {
            Some(e)
        },
        None => None,
    }
}

/// One staged change, on a storage key.
pub enum StagedOp {
    Put(Vec<u8>, Entry),
    SetExpiration(Vec<u8>, Expiration),
    SetField(Vec<u8>, Vec<u8>, Vec<u8>),
    Delete(Vec<u8>),
}

pub open spec fn op_ok(op: StagedOp) -> bool {
    match op {
        StagedOp::Put(_, e) => entry_ok(e@),
        StagedOp::SetField(_, _, v) => v@.len() <= MAX_BULK_LEN,
        _ => true,
    }
}

/// What one staged change does to the records.
pub open spec fn apply_op(m: Map<Seq<u8>, EntryModel>, op: StagedOp) -> Map<Seq<u8>, EntryModel> {
    match op {
        StagedOp::Put(k, e) => m.insert(k@, e@),
        StagedOp::SetExpiration(k, x) => if m.contains_key(k@) {
            m.insert(k@, EntryModel { expiration: x.deadline_ms, value: m[k@].value })
        } else {
            m
        },
        StagedOp::SetField(k, f, v) => if m.contains_key(k@) && m[k@].value is Hash {
            m.insert(
                k@,
                EntryModel {
                    expiration: m[k@].expiration,
                    value: ValueModel::Hash(m[k@].value->Hash_0.insert(f@, v@)),
                },
            )
        } else {
            m
        },
        StagedOp::Delete(k) => m.remove(k@),
    }
}

/// What a batch of staged changes does, in order.
pub open spec fn apply_ops(m: Map<Seq<u8>, EntryModel>, ops: Seq<StagedOp>) -> Map<Seq<u8>, EntryModel>
    decreases ops.len(),
{
    if ops.len() == 0 {
        m
    } else {
        apply_op(apply_ops(m, ops.drop_last()), ops.last())
    }
}

/// An in-memory byte-keyed engine holding every record.
pub struct StorageAdapter {
    records: ByteMap<Entry>,
}

impl View for StorageAdapter {
    type V = Map<Seq<u8>, EntryModel>;

    closed spec fn view(&self) -> Map<Seq<u8>, EntryModel> {
        self.records@
    }
}

impl StorageAdapter {
    /// Every record keeps within the bulk length limit.
    pub open spec fn wf(&self) -> bool {
        forall|k: Seq<u8>| #[trigger] self@.contains_key(k) ==> entry_ok(self@[k])
    }

    /// An empty engine.
    pub fn new() -> (r: StorageAdapter)
        ensures
            r.wf(),
            r@ == Map::<Seq<u8>, EntryModel>::empty(),
    {
        StorageAdapter { records: ByteMap::new() }
    }

    /// The record under a storage key.
    pub fn get(&self, k: &[u8]) -> (r: Option<&Entry>)
        ensures
            match r {
                Some(e) => self@.contains_key(k@) && self@[k@] == e@,
                None => !self@.contains_key(k@),
            },
    {
        self.records.get(k)
    }

    /// Applies one change.
    fn apply_one(&mut self, op: StagedOp)
        requires
            old(self).wf(),
            op_ok(op),
        ensures
            final(self).wf(),
            final(self)@ == apply_op(old(self)@, op),
    {
        match op {
            StagedOp::Put(k, e) => {
                self.records.insert(k, e);
            },
            StagedOp::SetExpiration(k, x) => {
                match self.records.remove(k.as_slice()) {
                    Some(e) => {
                        let Entry { expiration: _, value } = e;
                        self.records.insert(k, Entry { expiration: x, value });
                        assert(self@ =~= apply_op(old(self)@, StagedOp::SetExpiration(k, x)));
                    },
                    None => {
                        assert(self@ =~= old(self)@);
                    },
                }
            },
            StagedOp::SetField(k, f, v) => {
                match self.records.remove(k.as_slice()) {
                    Some(e) => {
                        let Entry { expiration, value } = e;
                        match value {
                            Value::Hash(mut h) => {
                                h.insert(f, v);
                                proof { h.lemma_view_finite(); }
                                self.records.insert(k, Entry { expiration, value: Value::Hash(h) });
                                assert(self@ =~= apply_op(old(self)@, StagedOp::SetField(k, f, v)));
                            },
                            other => {
                                self.records.insert(k, Entry { expiration, value: other });
                                assert(self@ =~= old(self)@);
                            },
                        }
                    },
                    None => {
                        assert(self@ =~= old(self)@);
                    },
                }
            },
            StagedOp::Delete(k) => {
                self.records.remove(k.as_slice());
            },
        }
    }

    /// Applies a batch of changes in order, as one unit: no reader sees a
    /// part of it.
    pub fn apply_batch(&mut self, ops: Vec<StagedOp>)
        requires
            old(self).wf(),
            forall|i: int| 0 <= i < ops@.len() ==> op_ok(#[trigger] ops@[i]),
        ensures
            final(self).wf(),
            final(self)@ == apply_ops(old(self)@, ops@),
    {
        let n = ops.len();
        let ghost all = ops@;
        let ghost start = self@;
        let mut rest = ops;
        let mut i: usize = 0;
        while rest.len() > 0
            invariant
                self.wf(),
                0 <= i <= all.len(),
                all.len() == n,
                rest@ == all.subrange(i as int, all.len() as int),
                self@ == apply_ops(start, all.subrange(0, i as int)),
                forall|j: int| 0 <= j < all.len() ==> op_ok(#[trigger] all[j]),
            decreases rest@.len(),
        {
            assert(i < all.len());
            let op = rest.remove(0);
            assert(op == all[i as int]);
            self.apply_one(op);
            assert(all.subrange(0, i + 1).drop_last() == all.subrange(0, i as int));
            i = i + 1;
        }
        assert(all.subrange(0, all.len() as int) == all);
    }
}

} // verus!
