use vstd::prelude::*;
use crate::byte_map::ByteMap;
use crate::bytes_util::copy_bytes;
use crate::generic_db::GenericDb;
use crate::metadata::{Expiration, ValueType};
use crate::storage::{
    db_key, live, value_type_of, Entry, EntryModel, StorageAdapter, Value, ValueModel,
    MAX_BULK_LEN,
};

verus! {

/// Outcome of writing fields into a hash.
pub enum HashPutResult {
    /// How many of the fields did not exist before.
    Created(usize),
    WrongType,
}

/// Outcome of reading fields of a hash.
pub enum HashGetResult {
    WrongType,
    /// The key holds nothing.
    NotFound,
    /// For each requested field, its value, or `None` where it is absent.
    Found(Vec<Option<Vec<u8>>>),
}

/// The (field, value) pairs as byte sequences.
pub open spec fn pairs_view(pairs: Seq<(Vec<u8>, Vec<u8>)>) -> Seq<(Seq<u8>, Seq<u8>)> {
    pairs.map_values(|p: (Vec<u8>, Vec<u8>)| (p.0@, p.1@))
}

/// The fields `m` after writing `pairs` in order; a later pair for the same
/// field wins.
pub open spec fn apply_fields(m: Map<Seq<u8>, Seq<u8>>, pairs: Seq<(Seq<u8>, Seq<u8>)>) -> Map<Seq<u8>, Seq<u8>>
    decreases pairs.len(),
{
    if pairs.len() == 0 {
        m
    } else {
        apply_fields(m, pairs.drop_last()).insert(pairs.last().0, pairs.last().1)
    }
}

/// How many fields writing `pairs` into `m` creates: a field already in `m`,
/// or written by an earlier pair, counts nothing.
pub open spec fn count_new_fields(m: Map<Seq<u8>, Seq<u8>>, pairs: Seq<(Seq<u8>, Seq<u8>)>) -> nat
    decreases pairs.len(),
{
    if pairs.len() == 0 {
        0
    } else {
        count_new_fields(m, pairs.drop_last()) + if apply_fields(m, pairs.drop_last()).contains_key(pairs.last().0) {
            0nat
        } else {
            1nat
        }
    }
}

/// A live record of another kind than `t`.
pub open spec fn wrong_type(e: Option<EntryModel>, t: ValueType) -> bool {
    e is Some && value_type_of(e->0.value) != t
}

/// The fields of a live hash record; none when there is no record.
pub open spec fn hash_fields(e: Option<EntryModel>) -> Map<Seq<u8>, Seq<u8>> {
    match e {
        Some(x) => match x.value {
            ValueModel::Hash(h) => h,
            _ => Map::empty(),
        },
        None => Map::empty(),
    }
}

/// The deadline of a live record; none when there is no record.
pub open spec fn deadline_of(e: Option<EntryModel>) -> Option<u64> {
    match e {
        Some(x) => x.expiration,
        None => None,
    }
}

/// Access to hash values of one database.
pub struct HashDb {
    pub generic: GenericDb,
}

impl HashDb {
    /// An accessor for database `db_id` with nothing staged.
    pub fn with_db(db_id: u16) -> (r: HashDb)
        ensures
            r.generic.db() == db_id,
            r.generic.pending() == Seq::<crate::storage::StagedOp>::empty(),
            r.generic.wf(),
    {
        HashDb { generic: GenericDb::with_db(db_id) }
    }

    /// Stages writing `pairs` into the hash at `key` as one record, metadata
    /// included. An absent or expired key starts as an empty hash with no
    /// deadline. A key of another kind is refused and nothing is staged.
    pub fn put(&mut self, store: &StorageAdapter, key: &[u8], pairs: &Vec<(Vec<u8>, Vec<u8>)>, now_ms: u64) -> (r: HashPutResult)
        requires
            old(self).generic.wf(),
            store.wf(),
            forall|i: int| 0 <= i < pairs@.len() ==> (#[trigger] pairs@[i]).1@.len() <= MAX_BULK_LEN,
        ensures
            final(self).generic.wf(),
            final(self).generic.db() == old(self).generic.db(),
            ({
                let e = live(store@, old(self).generic.db(), key@, now_ms);
                if wrong_type(e, ValueType::Hash) {
                    r is WrongType && final(self).generic.pending() == old(self).generic.pending()
                } else {
                    count_new_fields(hash_fields(e), pairs_view(pairs@)) <= pairs@.len()
                    && hash_fields(e).dom().finite()
                    && apply_fields(hash_fields(e), pairs_view(pairs@)).dom().len()
                        == hash_fields(e).dom().len() + count_new_fields(hash_fields(e), pairs_view(pairs@))
                    && r == HashPutResult::Created(count_new_fields(hash_fields(e), pairs_view(pairs@)) as usize)
                    && forall|m: Map<Seq<u8>, EntryModel>| #[trigger] final(self).generic.effect(m)
                        == old(self).generic.effect(m).insert(
                            db_key(old(self).generic.db(), key@),
                            EntryModel {
                                expiration: deadline_of(e),
                                value: ValueModel::Hash(apply_fields(hash_fields(e), pairs_view(pairs@))),
                            },
                        )
                }
            }),
    {
        let ghost e = live(store@, self.generic.db(), key@, now_ms);
        let (mut h, expiration) = match self.generic.get(store, key, now_ms) {
            Some(entry) => match &entry.value {
                Value::Hash(fields) => (fields.duplicate(), entry.expiration),
                _ => {
                    return HashPutResult::WrongType;
                },
            },
            None => (ByteMap::new(), Expiration::persistent()),
        };
        let ghost base = h@;
        proof {
            h.lemma_view_finite();
            crate::laws::lemma_hset_field_count(base, pairs_view(pairs@));
        }
        let ghost pv = pairs_view(pairs@);
        assert(base == hash_fields(e));
        let mut count: usize = 0;
        let mut i: usize = 0;
        while i < pairs.len()
            invariant
                0 <= i <= pairs@.len(),
                pv == pairs_view(pairs@),
                h@ == apply_fields(base, pv.subrange(0, i as int)),
                count == count_new_fields(base, pv.subrange(0, i as int)),
                count <= i,
                forall|f: Seq<u8>| #[trigger] h@.contains_key(f) ==> h@[f].len() <= MAX_BULK_LEN,
                forall|j: int| 0 <= j < pairs@.len() ==> (#[trigger] pairs@[j]).1@.len() <= MAX_BULK_LEN,
            decreases pairs@.len() - i,
        {
            let f = copy_bytes(pairs[i].0.as_slice());
            let v = copy_bytes(pairs[i].1.as_slice());
            assert(pv.subrange(0, i + 1).drop_last() == pv.subrange(0, i as int));
            assert(pv[i as int] == (f@, v@));
            if !h.contains_key(f.as_slice()) {
                count = count + 1;
            }
            h.insert(f, v);
            i = i + 1;
        }
        assert(pv.subrange(0, pairs@.len() as int) == pv);
        proof { h.lemma_view_finite(); }
        self.generic.put(key, Entry { expiration, value: Value::Hash(h) });
        HashPutResult::Created(count)
    }

    /// Reads `fields` of the hash at `key`.
    pub fn get(&self, store: &StorageAdapter, key: &[u8], fields: &Vec<Vec<u8>>, now_ms: u64) -> (r: HashGetResult)
        ensures
            ({
                let e = live(store@, self.generic.db(), key@, now_ms);
                if e is None {
                    r is NotFound
                } else if wrong_type(e, ValueType::Hash) {
                    r is WrongType
                } else {
                    r is Found && r->Found_0@.len() == fields@.len()
                    && forall|i: int| 0 <= i < fields@.len() ==> match #[trigger] r->Found_0@[i] {
                        Some(v) => hash_fields(e).contains_key(fields@[i]@) && v@ == hash_fields(e)[fields@[i]@],
                        None => !hash_fields(e).contains_key(fields@[i]@),
                    }
                }
            }),
    {
        match self.generic.get(store, key, now_ms) {
            Some(entry) => match &entry.value {
                Value::Hash(h) => {
                    let mut out: Vec<Option<Vec<u8>>> = Vec::new();
                    let mut i: usize = 0;
                    while i < fields.len()
                        invariant
                            0 <= i <= fields@.len(),
                            out@.len() == i,
                            forall|j: int| 0 <= j < i ==> match #[trigger] out@[j] {
                                Some(v) => h@.contains_key(fields@[j]@) && v@ == h@[fields@[j]@],
                                None => !h@.contains_key(fields@[j]@),
                            },
                        decreases fields@.len() - i,
                    {
                        match h.get(fields[i].as_slice()) {
                            Some(v) => out.push(Some(copy_bytes(v.as_slice()))),
                            None => out.push(None),
                        }
                        i = i + 1;
                    }
                    HashGetResult::Found(out)
                },
                _ => HashGetResult::WrongType,
            },
            None => HashGetResult::NotFound,
        }
    }
}

} // verus!
