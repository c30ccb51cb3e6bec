//! Properties that hold across calls of the handlers.

use vstd::prelude::*;
use crate::bytes_util::lower_bytes;
use crate::command::parse_u64_spec;
use crate::error_strings::{unsupported_option_msg, wrong_args_msg, wrongtype_msg};
use crate::generic_commands::{del_keys, exists_count, expire_condition, expire_result, ttl_value};
use crate::generic_db::set_expiration;
use crate::hash_commands::{arg_pairs, hget_result, hset_result};
use crate::hash_db::{apply_fields, count_new_fields, hash_fields, wrong_type};
use crate::metadata::{
    deadline_after, expire_allowed, remaining_seconds, ExpireCondition, Expiration, ValueType,
};
use crate::resp::{bulk_reply, error_reply, integer_reply, null_reply};
use crate::storage::{db_key, entry_ok, lemma_db_key_injective, live, lookup, EntryModel};

verus! {

/// Whether a key is live in records `m` of database `db` at `now_ms`.
pub open spec fn is_live(m: Map<Seq<u8>, EntryModel>, db: u16, now_ms: u64) -> spec_fn(Seq<u8>) -> bool {
    |k: Seq<u8>| live(m, db, k, now_ms) is Some
}

/// `EXISTS` counts exactly the listed keys that are live, a key listed
/// twice counted twice, whatever writes and deletes came before.
pub proof fn lemma_exists_counts_live_keys(m: Map<Seq<u8>, EntryModel>, db: u16, keys: Seq<Seq<u8>>, now_ms: u64)
    ensures
        exists_count(m, db, keys, now_ms) == keys.filter(is_live(m, db, now_ms)).len(),
    decreases keys.len(),
{
    reveal(Seq::filter);
    if keys.len() > 0 {
        lemma_exists_counts_live_keys(m, db, keys.drop_last(), now_ms);
    }
}

/// After `DEL`, no listed key is live, and every key not listed keeps its
/// record.
pub proof fn lemma_del_removes_listed_keys(m: Map<Seq<u8>, EntryModel>, db: u16, keys: Seq<Seq<u8>>, now_ms: u64)
    ensures
        forall|i: int| 0 <= i < keys.len() ==> live(del_keys(m, db, keys, now_ms).0, db, #[trigger] keys[i], now_ms) is None,
        forall|k: Seq<u8>| !keys.contains(k) ==> #[trigger] lookup(del_keys(m, db, keys, now_ms).0, db, k) == lookup(m, db, k),
    decreases keys.len(),
{
    if keys.len() > 0 {
        let prev = keys.drop_last();
        let last = keys.last();
        lemma_del_removes_listed_keys(m, db, prev, now_ms);
        let m1 = del_keys(m, db, prev, now_ms).0;
        let m2 = del_keys(m, db, keys, now_ms).0;
        assert forall|i: int| 0 <= i < keys.len() implies live(m2, db, #[trigger] keys[i], now_ms) is None by {
            if i < keys.len() - 1 {
                assert(keys[i] == prev[i]);
                lemma_db_key_injective(db, keys[i], db, last);
            }
        }
        assert forall|k: Seq<u8>| !keys.contains(k) implies #[trigger] lookup(m2, db, k) == lookup(m, db, k) by {
            if prev.contains(k) {
                let j = choose|j: int| 0 <= j < prev.len() && prev[j] == k;
                assert(keys[j] == k);
            }
            assert(k != last) by {
                assert(keys[keys.len() - 1] == last);
            }
            lemma_db_key_injective(db, k, db, last);
        }
    }
}

/// `DEL` over distinct keys reports how many of them were live.
pub proof fn lemma_del_counts_live_keys(m: Map<Seq<u8>, EntryModel>, db: u16, keys: Seq<Seq<u8>>, now_ms: u64)
    requires
        keys.no_duplicates(),
    ensures
        del_keys(m, db, keys, now_ms).1 == exists_count(m, db, keys, now_ms),
    decreases keys.len(),
{
    if keys.len() > 0 {
        let prev = keys.drop_last();
        let last = keys.last();
        assert(prev.no_duplicates());
        lemma_del_counts_live_keys(m, db, prev, now_ms);
        lemma_del_removes_listed_keys(m, db, prev, now_ms);
        assert(!prev.contains(last)) by {
            if prev.contains(last) {
                let j = choose|j: int| 0 <= j < prev.len() && prev[j] == last;
                assert(keys[j] == keys[keys.len() - 1]);
            }
        }
        assert(lookup(del_keys(m, db, prev, now_ms).0, db, last) == lookup(m, db, last));
    }
}

/// `TTL` reads -2 for a key that is absent or expired and -1 for a key
/// without deadline.
pub proof fn lemma_ttl_without_deadline(m: Map<Seq<u8>, EntryModel>, db: u16, key: Seq<u8>, now_ms: u64)
    ensures
        live(m, db, key, now_ms) is None ==> ttl_value(m, db, key, now_ms) == -2,
        live(m, db, key, now_ms) is Some && live(m, db, key, now_ms)->0.expiration is None
            ==> ttl_value(m, db, key, now_ms) == -1,
        live(m, db, key, now_ms) is Some && live(m, db, key, now_ms)->0.expiration is Some
            ==> ttl_value(m, db, key, now_ms) >= 0,
{
}

/// Once a deadline `seconds` after `set_at` is stored, `TTL` at any later
/// time, while the key lives, reads between 0 and `seconds`.
pub proof fn lemma_ttl_within_configured(
    m: Map<Seq<u8>, EntryModel>,
    db: u16,
    key: Seq<u8>,
    seconds: u64,
    set_at: u64,
    now_ms: u64,
)
    requires
        lookup(m, db, key) is Some,
        deadline_after(set_at, seconds) is Some,
        set_at <= now_ms,
    ensures
        ({
            let m1 = set_expiration(m, db_key(db, key), Expiration { deadline_ms: deadline_after(set_at, seconds) });
            live(m1, db, key, now_ms) is Some ==> 0 <= ttl_value(m1, db, key, now_ms) <= seconds
        }),
{
    let d = deadline_after(set_at, seconds)->0;
    if d > now_ms {
        assert((d - now_ms) / 1000 <= seconds) by (nonlinear_arith)
            requires
                d == set_at + seconds * 1000,
                set_at <= now_ms,
                now_ms < d,
        ;
    }
}

/// `EXPIRE key seconds option` on a live key: `GT` replaces the deadline
/// exactly when `seconds` exceeds the seconds left (always, for a key with
/// no deadline), `LT` exactly when it is below them (never, for a key with
/// no deadline), `NX` exactly when there is no deadline, `XX` exactly when
/// there is one. A replacement replies 1, a refusal 0 and changes nothing;
/// an unknown option is a protocol error and changes nothing.
pub proof fn lemma_expire_conditions(m: Map<Seq<u8>, EntryModel>, db: u16, args: Seq<Seq<u8>>, now_ms: u64)
    requires
        args.len() == 4,
        parse_u64_spec(args[2]) is Some,
        live(m, db, args[1], now_ms) is Some,
        deadline_after(now_ms, parse_u64_spec(args[2])->0) is Some,
    ensures
        ({
            let s = parse_u64_spec(args[2])->0;
            let cur = live(m, db, args[1], now_ms)->0.expiration;
            let r = expire_result(m, db, args, now_ms);
            let replaced = (
                set_expiration(m, db_key(db, args[1]), Expiration { deadline_ms: deadline_after(now_ms, s) }),
                integer_reply(1),
            );
            let refused = (m, integer_reply(0));
            &&& expire_allowed(ExpireCondition::Gt, cur, now_ms, s) == (cur is None || s > remaining_seconds(cur->0, now_ms))
            &&& expire_allowed(ExpireCondition::Lt, cur, now_ms, s) == (cur is Some && s < remaining_seconds(cur->0, now_ms))
            &&& expire_allowed(ExpireCondition::Nx, cur, now_ms, s) == cur is None
            &&& expire_allowed(ExpireCondition::Xx, cur, now_ms, s) == cur is Some
            &&& match expire_condition(lower_bytes(args[3])) {
                Some(c) => r == if expire_allowed(c, cur, now_ms, s) { replaced } else { refused },
                None => r == (m, error_reply(unsupported_option_msg(lower_bytes(args[3])))),
            }
        }),
{
}

/// The fields that `pairs` write.
pub open spec fn pair_fields(pairs: Seq<(Seq<u8>, Seq<u8>)>) -> Set<Seq<u8>> {
    pairs.map_values(|p: (Seq<u8>, Seq<u8>)| p.0).to_set()
}

/// Writing `pairs` into a hash adds exactly their fields, and the count it
/// reports is the number of those fields that the hash lacked: a field set
/// again counts nothing.
pub proof fn lemma_hset_counts_new_fields(h: Map<Seq<u8>, Seq<u8>>, pairs: Seq<(Seq<u8>, Seq<u8>)>)
    ensures
        apply_fields(h, pairs).dom() == h.dom().union(pair_fields(pairs)),
        pair_fields(pairs).difference(h.dom()).finite(),
        count_new_fields(h, pairs) == pair_fields(pairs).difference(h.dom()).len(),
    decreases pairs.len(),
{
    broadcast use vstd::seq_lib::seq_to_set_is_finite;
    if pairs.len() == 0 {
        assert(pair_fields(pairs) =~= Set::<Seq<u8>>::empty());
        assert(apply_fields(h, pairs).dom() =~= h.dom().union(pair_fields(pairs)));
        assert(pair_fields(pairs).difference(h.dom()) =~= Set::<Seq<u8>>::empty());
    } else {
        let prev = pairs.drop_last();
        let f = pairs.last().0;
        lemma_hset_counts_new_fields(h, prev);
        let g = |p: (Seq<u8>, Seq<u8>)| p.0;
        assert(pairs.map_values(g) =~= prev.map_values(g).push(f));
        prev.map_values(g).lemma_push_to_set_commute(f);
        assert(pair_fields(pairs) == pair_fields(prev).insert(f));
        assert(apply_fields(h, pairs).dom() =~= h.dom().union(pair_fields(pairs)));
        let d0 = pair_fields(prev).difference(h.dom());
        let d1 = pair_fields(pairs).difference(h.dom());
        assert(d1.subset_of(pair_fields(pairs)));
        vstd::set_lib::lemma_set_subset_finite(pair_fields(pairs), d1);
        if apply_fields(h, prev).contains_key(f) {
            assert(d1 =~= d0);
        } else {
            assert(d1 =~= d0.insert(f));
            assert(!d0.contains(f));
        }
    }
}

/// Writing `pairs` into a hash with finitely many fields grows its field
/// count by exactly the number of fields created.
pub proof fn lemma_hset_field_count(h: Map<Seq<u8>, Seq<u8>>, pairs: Seq<(Seq<u8>, Seq<u8>)>)
    requires
        h.dom().finite(),
    ensures
        apply_fields(h, pairs).dom().finite(),
        apply_fields(h, pairs).dom().len() == h.dom().len() + count_new_fields(h, pairs),
{
    lemma_hset_counts_new_fields(h, pairs);
    let d = pair_fields(pairs).difference(h.dom());
    assert(apply_fields(h, pairs).dom() =~= h.dom() + d);
    assert(h.dom().disjoint(d));
    vstd::set_lib::lemma_set_disjoint_lens(h.dom(), d);
}

/// After `HSET` on a key of no other kind, the hash has as many more fields
/// as the reply counts.
pub proof fn lemma_hset_reply_counts_growth(m: Map<Seq<u8>, EntryModel>, db: u16, args: Seq<Seq<u8>>, now_ms: u64)
    requires
        forall|k: Seq<u8>| #[trigger] m.contains_key(k) ==> entry_ok(m[k]),
        args.len() >= 4,
        args.len() % 2 == 0,
        !wrong_type(live(m, db, args[1], now_ms), ValueType::Hash),
    ensures
        ({
            let e = live(m, db, args[1], now_ms);
            let after = hset_result(m, db, args, now_ms).0[db_key(db, args[1])].value->Hash_0;
            let created = count_new_fields(hash_fields(e), arg_pairs(args));
            &&& hash_fields(e).dom().finite()
            &&& after.dom().finite()
            &&& after.dom().len() == hash_fields(e).dom().len() + created
            &&& hset_result(m, db, args, now_ms).1 == integer_reply(created as int)
        }),
{
    let e = live(m, db, args[1], now_ms);
    if e is Some {
        assert(m.contains_key(db_key(db, args[1])));
    } else {
        assert(hash_fields(e).dom() =~= Set::<Seq<u8>>::empty());
    }
    lemma_hset_field_count(hash_fields(e), arg_pairs(args));
}

/// `HSET` with a field list that is empty or odd, or on a key of another
/// kind, changes nothing and replies with an error.
pub proof fn lemma_hset_refusals(m: Map<Seq<u8>, EntryModel>, db: u16, args: Seq<Seq<u8>>, now_ms: u64)
    requires
        args.len() >= 1,
    ensures
        (args.len() < 4 || args.len() % 2 != 0) ==> hset_result(m, db, args, now_ms) == (
            m,
            error_reply(wrong_args_msg(lower_bytes(args[0]))),
        ),
        (args.len() >= 4 && args.len() % 2 == 0 && wrong_type(live(m, db, args[1], now_ms), ValueType::Hash))
            ==> hset_result(m, db, args, now_ms) == (m, error_reply(wrongtype_msg())),
{
}

/// `HGET` replies null for an absent key and for a hash without the field,
/// and refuses a key of another kind.
pub proof fn lemma_hget_misses(m: Map<Seq<u8>, EntryModel>, db: u16, args: Seq<Seq<u8>>, now_ms: u64)
    requires
        args.len() >= 3,
    ensures
        live(m, db, args[1], now_ms) is None ==> hget_result(m, db, args, now_ms) == null_reply(),
        wrong_type(live(m, db, args[1], now_ms), ValueType::Hash) ==> hget_result(m, db, args, now_ms) == error_reply(wrongtype_msg()),
        live(m, db, args[1], now_ms) is Some && !wrong_type(live(m, db, args[1], now_ms), ValueType::Hash)
            && !hash_fields(live(m, db, args[1], now_ms)).contains_key(args[2])
            ==> hget_result(m, db, args, now_ms) == null_reply(),
{
}

/// A value written by `HSET` is read back by `HGET` byte for byte.
pub proof fn lemma_hset_then_hget(
    m: Map<Seq<u8>, EntryModel>,
    db: u16,
    set_args: Seq<Seq<u8>>,
    get_args: Seq<Seq<u8>>,
    now_ms: u64,
)
    requires
        set_args.len() == 4,
        get_args.len() == 3,
        get_args[1] == set_args[1],
        get_args[2] == set_args[2],
        !wrong_type(live(m, db, set_args[1], now_ms), ValueType::Hash),
    ensures
        hget_result(hset_result(m, db, set_args, now_ms).0, db, get_args, now_ms) == bulk_reply(set_args[3]),
{
    let pairs = arg_pairs(set_args);
    assert(pairs.len() == 1);
    assert(pairs.drop_last() =~= Seq::<(Seq<u8>, Seq<u8>)>::empty());
    assert(pairs.last() == (set_args[2], set_args[3]));
    let e = live(m, db, set_args[1], now_ms);
    assert(apply_fields(hash_fields(e), pairs.drop_last()) == hash_fields(e));
    assert(apply_fields(hash_fields(e), pairs) == hash_fields(e).insert(set_args[2], set_args[3]));
}

} // verus!
