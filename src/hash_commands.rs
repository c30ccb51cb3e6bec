use vstd::prelude::*;
use bytes::BytesMut;
use crate::bytes_util::{copy_bytes, lower_bytes};
use crate::client_state::{ClientState, HandleCommandResult, SableError};
use crate::command::{command_name, RedisCommand, RedisCommandName};
use crate::error_strings::{
    non_hash_command, non_hash_msg, write_wrong_args, write_wrongtype, wrong_args_msg, wrongtype_msg,
};
use crate::hash_db::{
    apply_fields, count_new_fields, deadline_of, hash_fields, pairs_view, wrong_type, HashDb,
    HashGetResult, HashPutResult,
};
use crate::lock_manager::LockMode;
use crate::metadata::ValueType;
use crate::resp::{
    buffer_bytes, bulk_reply, bulk_string, error_reply, integer_reply, new_buffer, null_reply,
    null_string, number_usize,
};
use crate::storage::{db_key, live, EntryModel, ValueModel, MAX_BULK_LEN};

verus! {

/// Handlers of the commands on hash values.
pub struct HashCommands {}

/// The (field, value) pairs that follow the key of `HSET key f v [f v ...]`.
pub open spec fn arg_pairs(args: Seq<Seq<u8>>) -> Seq<(Seq<u8>, Seq<u8>)> {
    Seq::new(((args.len() - 2) / 2) as nat, |i: int| (args[2 + 2 * i], args[3 + 2 * i]))
}

/// The records and the reply after `HSET`: a missing or odd field/value list
/// is refused, and so is a key of another kind; otherwise the reply counts
/// the fields created.
pub open spec fn hset_result(m: Map<Seq<u8>, EntryModel>, db: u16, args: Seq<Seq<u8>>, now_ms: u64) -> (Map<Seq<u8>, EntryModel>, Seq<u8>) {
    if args.len() < 4 || args.len() % 2 != 0 {
        (m, error_reply(wrong_args_msg(lower_bytes(args[0]))))
    } else {
        let e = live(m, db, args[1], now_ms);
        if wrong_type(e, ValueType::Hash) {
            (m, error_reply(wrongtype_msg()))
        } else {
            (
                m.insert(
                    db_key(db, args[1]),
                    EntryModel {
                        expiration: deadline_of(e),
                        value: ValueModel::Hash(apply_fields(hash_fields(e), arg_pairs(args))),
                    },
                ),
                integer_reply(count_new_fields(hash_fields(e), arg_pairs(args)) as int),
            )
        }
    }
}

/// The reply of `HGET key field`.
pub open spec fn hget_result(m: Map<Seq<u8>, EntryModel>, db: u16, args: Seq<Seq<u8>>, now_ms: u64) -> Seq<u8> {
    if args.len() < 3 {
        error_reply(wrong_args_msg(lower_bytes(args[0])))
    } else {
        let e = live(m, db, args[1], now_ms);
        if e is None {
            null_reply()
        } else if wrong_type(e, ValueType::Hash) {
            error_reply(wrongtype_msg())
        } else if hash_fields(e).contains_key(args[2]) {
            bulk_reply(hash_fields(e)[args[2]])
        } else {
            null_reply()
        }
    }
}

/// What `HGET` counts: `Some(true)` a hit, `Some(false)` a miss, `None` nothing.
pub open spec fn hget_lookup(m: Map<Seq<u8>, EntryModel>, db: u16, args: Seq<Seq<u8>>, now_ms: u64) -> Option<bool> {
    if args.len() < 3 {
        None
    } else {
        let e = live(m, db, args[1], now_ms);
        if e is None {
            Some(false)
        } else if wrong_type(e, ValueType::Hash) {
            None
        } else {
            Some(hash_fields(e).contains_key(args[2]))
        }
    }
}

pub open spec fn saturating_inc(n: u64) -> u64 {
    if n == u64::MAX {
        u64::MAX
    } else {
        (n + 1) as u64
    }
}

/// The counters after a read that `hit` describes.
pub open spec fn counted(before: crate::client_state::Telemetry, after: crate::client_state::Telemetry, hit: Option<bool>) -> bool {
    match hit {
        Some(true) => after.db_hits == saturating_inc(before.db_hits) && after.db_misses == before.db_misses,
        Some(false) => after.db_misses == saturating_inc(before.db_misses) && after.db_hits == before.db_hits,
        None => after == before,
    }
}

impl HashCommands {
    /// Runs `HSET` or `HGET` at time `now_ms`. A command of another family is
    /// a routing defect: it is refused with a message naming it, and changes
    /// nothing.
    pub fn handle_command(client_state: &mut ClientState, command: &RedisCommand, now_ms: u64) -> (r: Result<HandleCommandResult, SableError>)
        requires
            old(client_state).wf(),
            command.wf(),
        ensures
            final(client_state).wf(),
            final(client_state).database_id == old(client_state).database_id,
            final(client_state).instant_delete == old(client_state).instant_delete,
            ({
                let m = old(client_state).database@;
                let db = old(client_state).database_id;
                match command_name(command@[0]) {
                    RedisCommandName::Hset => r is Ok && !r->Ok_0.trigger_eviction
                        && final(client_state).database@ == hset_result(m, db, command@, now_ms).0
                        && buffer_bytes(r->Ok_0.response) == hset_result(m, db, command@, now_ms).1
                        && final(client_state).telemetry == old(client_state).telemetry,
                    RedisCommandName::Hget => r is Ok && !r->Ok_0.trigger_eviction
                        && final(client_state).database == old(client_state).database
                        && buffer_bytes(r->Ok_0.response) == hget_result(m, db, command@, now_ms)
                        && counted(old(client_state).telemetry, final(client_state).telemetry, hget_lookup(m, db, command@, now_ms)),
                    _ => r is Err && r->Err_0->InvalidArgument_0@ == non_hash_msg(lower_bytes(command@[0]))
                        && final(client_state).database == old(client_state).database
                        && final(client_state).telemetry == old(client_state).telemetry,
                }
            }),
    {
        let mut response_buffer = new_buffer(256);
        match command.name() {
            RedisCommandName::Hset => {
                Self::hset(client_state, command, now_ms, &mut response_buffer);
                Ok(HandleCommandResult { response: response_buffer, trigger_eviction: false })
            },
            RedisCommandName::Hget => {
                Self::hget(client_state, command, now_ms, &mut response_buffer);
                Ok(HandleCommandResult { response: response_buffer, trigger_eviction: false })
            },
            _ => {
                let name = command.main_command();
                Err(SableError::InvalidArgument(non_hash_command(name.as_slice())))
            },
        }
    }

    /// Writes field/value pairs into a hash under an exclusive lock, as one
    /// committed record.
    pub fn hset(client_state: &mut ClientState, command: &RedisCommand, now_ms: u64, response_buffer: &mut BytesMut)
        requires
            old(client_state).wf(),
            command.wf(),
            buffer_bytes(*old(response_buffer)) == Seq::<u8>::empty(),
        ensures
            final(client_state).wf(),
            final(client_state).database_id == old(client_state).database_id,
            final(client_state).instant_delete == old(client_state).instant_delete,
            final(client_state).telemetry == old(client_state).telemetry,
            final(client_state).database@ == hset_result(old(client_state).database@, old(client_state).database_id, command@, now_ms).0,
            buffer_bytes(*final(response_buffer)) == hset_result(old(client_state).database@, old(client_state).database_id, command@, now_ms).1,
    {
        let n = command.arg_count();
        if n < 4 || n % 2 != 0 {
            let name = command.main_command();
            write_wrong_args(response_buffer, name.as_slice());
            return;
        }
        let ghost args = command@;
        let mut field_values: Vec<(Vec<u8>, Vec<u8>)> = Vec::new();
        let mut j: usize = 0;
        let npairs: usize = (n - 2) / 2;
        while j < npairs
            invariant
                0 <= j <= npairs,
                npairs == (n - 2) / 2,
                n == args.len(),
                n >= 4,
                args == command@,
                command.wf(),
                field_values@.len() == j,
                pairs_view(field_values@) == arg_pairs(args).subrange(0, j as int),
                forall|i: int| 0 <= i < field_values@.len() ==> (#[trigger] field_values@[i]).1@.len() <= MAX_BULK_LEN,
            decreases npairs - j,
        {
            let f = copy_bytes(command.arg(2 + 2 * j).unwrap().as_slice());
            let v = copy_bytes(command.arg(3 + 2 * j).unwrap().as_slice());
            assert(args[3 + 2 * j].len() <= MAX_BULK_LEN);
            let ghost before = field_values@;
            field_values.push((f, v));
            assert forall|i: int| 0 <= i < j + 1 implies #[trigger] pairs_view(field_values@)[i] == arg_pairs(args).subrange(0, j + 1)[i] by {
                if i < j {
                    assert(field_values@[i] == before[i]);
                    assert(pairs_view(before)[i] == arg_pairs(args).subrange(0, j as int)[i]);
                }
            }
            assert(pairs_view(field_values@) =~= arg_pairs(args).subrange(0, j + 1));
            j = j + 1;
        }
        assert(pairs_view(field_values@) =~= arg_pairs(args));
        let key = command.arg(1).unwrap();
        client_state.acquire(key.as_slice(), LockMode::Exclusive);
        let mut hash_db = HashDb::with_db(client_state.database_id);
        match hash_db.put(&client_state.database, key.as_slice(), &field_values, now_ms) {
            HashPutResult::Created(count) => {
                hash_db.generic.commit(&mut client_state.database);
                client_state.release(key.as_slice(), LockMode::Exclusive);
                number_usize(response_buffer, count);
            },
            HashPutResult::WrongType => {
                client_state.release(key.as_slice(), LockMode::Exclusive);
                write_wrongtype(response_buffer);
            },
        }
    }

    /// Reads one field of a hash under a shared lock, counting a hit when
    /// the field is there and a miss when it or the key is not.
    pub fn hget(client_state: &mut ClientState, command: &RedisCommand, now_ms: u64, response_buffer: &mut BytesMut)
        requires
            old(client_state).wf(),
            command.wf(),
            buffer_bytes(*old(response_buffer)) == Seq::<u8>::empty(),
        ensures
            final(client_state).wf(),
            final(client_state).database_id == old(client_state).database_id,
            final(client_state).instant_delete == old(client_state).instant_delete,
            final(client_state).database == old(client_state).database,
            buffer_bytes(*final(response_buffer)) == hget_result(old(client_state).database@, old(client_state).database_id, command@, now_ms),
            counted(old(client_state).telemetry, final(client_state).telemetry, hget_lookup(old(client_state).database@, old(client_state).database_id, command@, now_ms)),
    {
        if command.arg_count() < 3 {
            let name = command.main_command();
            write_wrong_args(response_buffer, name.as_slice());
            return;
        }
        let key = command.arg(1).unwrap();
        let field = copy_bytes(command.arg(2).unwrap().as_slice());
        let mut fields: Vec<Vec<u8>> = Vec::new();
        fields.push(field);
        assert(fields@[0]@ == command@[2]);
        client_state.acquire(key.as_slice(), LockMode::Shared);
        let hash_db = HashDb::with_db(client_state.database_id);
        let items = hash_db.get(&client_state.database, key.as_slice(), &fields, now_ms);
        client_state.release(key.as_slice(), LockMode::Shared);
        match items {
            HashGetResult::WrongType => {
                write_wrongtype(response_buffer);
            },
            HashGetResult::NotFound => {
                client_state.telemetry.inc_db_miss();
                null_string(response_buffer);
            },
            HashGetResult::Found(values) => {
                match &values[0] {
                    Some(v) => {
                        client_state.telemetry.inc_db_hit();
                        bulk_string(response_buffer, v.as_slice());
                    },
                    None => {
                        client_state.telemetry.inc_db_miss();
                        null_string(response_buffer);
                    },
                }
            },
        }
    }
}

} // verus!
