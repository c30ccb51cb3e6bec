use vstd::prelude::*;
use vstd::string::StringSliceAdditionalSpecFns;
use bytes::BytesMut;
use crate::bytes_util::{bytes_eq, lower_bytes, to_lower};
use crate::client_state::{ClientState, HandleCommandResult, SableError};
use crate::command::{command_name, parse_u64, parse_u64_spec, RedisCommand, RedisCommandName};
use crate::error_strings::{
    invalid_expire_msg, non_generic_command, non_generic_msg, not_an_integer_msg, unsupported_option_msg, wrong_args_msg,
    write_invalid_expire, write_not_an_integer, write_unsupported_option, write_wrong_args,
};
use crate::generic_db::{set_expiration, GenericDb};
use crate::lock_manager::LockMode;
use crate::metadata::{deadline_after, expire_allowed, should_expire, ExpireCondition, Expiration};
use crate::resp::{
    buffer_bytes, error_reply, integer_reply, new_buffer, number_i64, number_u64, number_usize,
};
use crate::storage::{db_key, live, EntryModel};

verus! {

/// Handlers of the commands that work on keys of any kind.
pub struct GenericCommands {}

/// The records after `DEL keys`, and how many keys it removed: each key
/// that is live when its turn comes is removed, so a repeated key counts once.
pub open spec fn del_keys(m: Map<Seq<u8>, EntryModel>, db: u16, keys: Seq<Seq<u8>>, now_ms: u64) -> (Map<Seq<u8>, EntryModel>, nat)
    decreases keys.len(),
{
    if keys.len() == 0 {
        (m, 0)
    } else {
        let (m1, c) = del_keys(m, db, keys.drop_last(), now_ms);
        if live(m1, db, keys.last(), now_ms) is Some {
            (m1.remove(db_key(db, keys.last())), c + 1)
        } else {
            (m1, c)
        }
    }
}

/// How many of `keys` are live, a repeated key counted each time.
pub open spec fn exists_count(m: Map<Seq<u8>, EntryModel>, db: u16, keys: Seq<Seq<u8>>, now_ms: u64) -> nat
    decreases keys.len(),
{
    if keys.len() == 0 {
        0
    } else {
        exists_count(m, db, keys.drop_last(), now_ms) + if live(m, db, keys.last(), now_ms) is Some {
            1nat
        } else {
            0nat
        }
    }
}

/// What `TTL` reports: -2 for no key, -1 for a key without deadline, else
/// the whole seconds left.
pub open spec fn ttl_value(m: Map<Seq<u8>, EntryModel>, db: u16, key: Seq<u8>, now_ms: u64) -> int {
    match live(m, db, key, now_ms) {
        None => -2,
        Some(e) => match e.expiration {
            None => -1,
            Some(d) => crate::metadata::remaining_seconds(d, now_ms) as int,
        },
    }
}

/// The condition that a lower-cased `EXPIRE` option names.
pub open spec fn expire_condition(opt: Seq<u8>) -> Option<ExpireCondition> {
    if opt == "nx".spec_bytes() {
        Some(ExpireCondition::Nx)
    } else if opt == "xx".spec_bytes() {
        Some(ExpireCondition::Xx)
    } else if opt == "gt".spec_bytes() {
        Some(ExpireCondition::Gt)
    } else if opt == "lt".spec_bytes() {
        Some(ExpireCondition::Lt)
    } else {
        None
    }
}

/// The records and the reply after `DEL`.
pub open spec fn del_result(m: Map<Seq<u8>, EntryModel>, db: u16, args: Seq<Seq<u8>>, now_ms: u64) -> (Map<Seq<u8>, EntryModel>, Seq<u8>) {
    if args.len() < 2 {
        (m, error_reply(wrong_args_msg(lower_bytes(args[0]))))
    } else {
        let (m1, c) = del_keys(m, db, args.subrange(1, args.len() as int), now_ms);
        (m1, integer_reply(c as int))
    }
}

/// The reply of `TTL`.
pub open spec fn ttl_result(m: Map<Seq<u8>, EntryModel>, db: u16, args: Seq<Seq<u8>>, now_ms: u64) -> Seq<u8> {
    if args.len() < 2 {
        error_reply(wrong_args_msg(lower_bytes(args[0])))
    } else {
        integer_reply(ttl_value(m, db, args[1], now_ms))
    }
}

/// The reply of `EXISTS`.
pub open spec fn exists_result(m: Map<Seq<u8>, EntryModel>, db: u16, args: Seq<Seq<u8>>, now_ms: u64) -> Seq<u8> {
    if args.len() < 2 {
        error_reply(wrong_args_msg(lower_bytes(args[0])))
    } else {
        integer_reply(exists_count(m, db, args.subrange(1, args.len() as int), now_ms) as int)
    }
}

/// The records and the reply after `EXPIRE key seconds [option]`.
pub open spec fn expire_result(m: Map<Seq<u8>, EntryModel>, db: u16, args: Seq<Seq<u8>>, now_ms: u64) -> (Map<Seq<u8>, EntryModel>, Seq<u8>) {
    if args.len() < 3 {
        (m, error_reply(wrong_args_msg(lower_bytes(args[0]))))
    } else {
        match parse_u64_spec(args[2]) {
            None => (m, error_reply(not_an_integer_msg())),
            Some(s) => match live(m, db, args[1], now_ms) {
                None => (m, integer_reply(0)),
                Some(e) => {
                    let cond = if args.len() == 3 {
                        Some(ExpireCondition::Always)
                    } else {
                        expire_condition(lower_bytes(args[3]))
                    };
                    match cond {
                        None => (m, error_reply(unsupported_option_msg(lower_bytes(args[3])))),
                        Some(c) => if !expire_allowed(c, e.expiration, now_ms, s) {
                            (m, integer_reply(0))
                        } else {
                            match deadline_after(now_ms, s) {
                                None => (m, error_reply(invalid_expire_msg())),
                                Some(d) => (
                                    set_expiration(m, db_key(db, args[1]), Expiration { deadline_ms: Some(d) }),
                                    integer_reply(1),
                                ),
                            }
                        },
                    }
                },
            },
        }
    }
}

/// The records, the reply and the eviction signal after a generic command;
/// `None` for a command of another family.
pub open spec fn generic_result(
    m: Map<Seq<u8>, EntryModel>,
    db: u16,
    instant_delete: bool,
    args: Seq<Seq<u8>>,
    now_ms: u64,
) -> Option<(Map<Seq<u8>, EntryModel>, Seq<u8>, bool)> {
    match command_name(args[0]) {
        RedisCommandName::Del => {
            let (m1, reply) = del_result(m, db, args, now_ms);
            let removed = args.len() >= 2 && del_keys(m, db, args.subrange(1, args.len() as int), now_ms).1 > 0;
            Some((m1, reply, removed && !instant_delete))
        },
        RedisCommandName::Ttl => Some((m, ttl_result(m, db, args, now_ms), false)),
        RedisCommandName::Exists => Some((m, exists_result(m, db, args, now_ms), false)),
        RedisCommandName::Expire => {
            let (m1, reply) = expire_result(m, db, args, now_ms);
            Some((m1, reply, false))
        },
        _ => None,
    }
}

/// What a handler leaves alone.
pub open spec fn same_context(a: &ClientState, b: &ClientState) -> bool {
    a.database_id == b.database_id && a.instant_delete == b.instant_delete && a.telemetry == b.telemetry
}

impl GenericCommands {
    /// Runs `DEL`, `TTL`, `EXISTS` or `EXPIRE` at time `now_ms`. A command of
    /// another family is a routing defect: it is refused with a message naming
    /// it, and changes nothing.
    pub fn handle_command(client_state: &mut ClientState, command: &RedisCommand, now_ms: u64) -> (r: Result<HandleCommandResult, SableError>)
        requires
            old(client_state).wf(),
            command.wf(),
        ensures
            final(client_state).wf(),
            same_context(old(client_state), final(client_state)),
            match generic_result(old(client_state).database@, old(client_state).database_id, old(client_state).instant_delete, command@, now_ms) {
                Some((m, reply, evict)) => r is Ok && final(client_state).database@ == m
                    && buffer_bytes(r->Ok_0.response) == reply && r->Ok_0.trigger_eviction == evict,
                None => r is Err && r->Err_0->InvalidArgument_0@ == non_generic_msg(lower_bytes(command@[0]))
                    && final(client_state).database == old(client_state).database,
            },
    {
        let mut response_buffer = new_buffer(256);
        match command.name() {
            RedisCommandName::Ttl => {
                Self::ttl(client_state, command, now_ms, &mut response_buffer);
                Ok(HandleCommandResult { response: response_buffer, trigger_eviction: false })
            },
            RedisCommandName::Del => {
                let evict = Self::del(client_state, command, now_ms, &mut response_buffer);
                Ok(HandleCommandResult { response: response_buffer, trigger_eviction: evict })
            },
            RedisCommandName::Exists => {
                Self::count_existing(client_state, command, now_ms, &mut response_buffer);
                Ok(HandleCommandResult { response: response_buffer, trigger_eviction: false })
            },
            RedisCommandName::Expire => {
                Self::expire(client_state, command, now_ms, &mut response_buffer);
                Ok(HandleCommandResult { response: response_buffer, trigger_eviction: false })
            },
            _ => {
                let name = command.main_command();
                Err(SableError::InvalidArgument(non_generic_command(name.as_slice())))
            },
        }
    }

    /// Removes each live key in turn, each under its own exclusive lock and
    /// committed on its own; asks for eviction when it removed something and
    /// deletion is not instant.
    pub fn del(client_state: &mut ClientState, command: &RedisCommand, now_ms: u64, response_buffer: &mut BytesMut) -> (evict: bool)
        requires
            old(client_state).wf(),
            command.wf(),
            buffer_bytes(*old(response_buffer)) == Seq::<u8>::empty(),
        ensures
            final(client_state).wf(),
            same_context(old(client_state), final(client_state)),
            final(client_state).database@ == del_result(old(client_state).database@, old(client_state).database_id, command@, now_ms).0,
            buffer_bytes(*final(response_buffer)) == del_result(old(client_state).database@, old(client_state).database_id, command@, now_ms).1,
            evict == (command@.len() >= 2
                && del_keys(old(client_state).database@, old(client_state).database_id, command@.subrange(1, command@.len() as int), now_ms).1 > 0
                && !old(client_state).instant_delete),
    {
        let n = command.arg_count();
        if n < 2 {
            let name = command.main_command();
            write_wrong_args(response_buffer, name.as_slice());
            return false;
        }
        let ghost m0 = client_state.database@;
        let ghost args = command@;
        let db = client_state.database_id;
        let mut generic_db = GenericDb::with_db(db);
        let mut deleted_items: usize = 0;
        let mut i: usize = 1;
        while i < n
            invariant
                1 <= i <= n,
                n == args.len(),
                args == command@,
                command.wf(),
                client_state.wf(),
                same_context(old(client_state), client_state),
                db == client_state.database_id,
                generic_db.wf(),
                generic_db.db() == db,
                generic_db.pending().len() == 0,
                (client_state.database@, deleted_items as nat) == del_keys(m0, db, args.subrange(1, i as int), now_ms),
                deleted_items < i,
            decreases n - i,
        {
            let key = command.arg(i).unwrap();
            assert(args.subrange(1, i + 1).drop_last() == args.subrange(1, i as int));
            assert(args.subrange(1, i + 1).last() == key@);
            client_state.acquire(key.as_slice(), LockMode::Exclusive);
            if generic_db.contains(&client_state.database, key.as_slice(), now_ms) {
                generic_db.delete(key.as_slice());
                generic_db.commit(&mut client_state.database);
                deleted_items = deleted_items + 1;
            }
            client_state.release(key.as_slice(), LockMode::Exclusive);
            i = i + 1;
        }
        assert(args.subrange(1, n as int) == args.subrange(1, args.len() as int));
        number_usize(response_buffer, deleted_items);
        deleted_items > 0 && !client_state.instant_delete
    }

    /// Reports the time to live of a key, under a shared lock.
    pub fn ttl(client_state: &mut ClientState, command: &RedisCommand, now_ms: u64, response_buffer: &mut BytesMut)
        requires
            old(client_state).wf(),
            command.wf(),
            buffer_bytes(*old(response_buffer)) == Seq::<u8>::empty(),
        ensures
            final(client_state).wf(),
            same_context(old(client_state), final(client_state)),
            final(client_state).database == old(client_state).database,
            buffer_bytes(*final(response_buffer)) == ttl_result(old(client_state).database@, old(client_state).database_id, command@, now_ms),
    {
        if command.arg_count() < 2 {
            let name = command.main_command();
            write_wrong_args(response_buffer, name.as_slice());
            return;
        }
        let key = command.arg(1).unwrap();
        client_state.acquire(key.as_slice(), LockMode::Shared);
        let generic_db = GenericDb::with_db(client_state.database_id);
        let (no_key, no_ttl, seconds) = match generic_db.get(&client_state.database, key.as_slice(), now_ms) {
            Some(entry) => {
                if !entry.expiration.has_ttl() {
                    (false, true, 0)
                } else {
                    (false, false, entry.expiration.ttl_in_seconds(now_ms))
                }
            },
            None => (true, false, 0),
        };
        client_state.release(key.as_slice(), LockMode::Shared);
        if no_key {
            number_i64(response_buffer, -2);
        } else if no_ttl {
            number_i64(response_buffer, -1);
        } else {
            number_u64(response_buffer, seconds);
        }
    }

    /// Counts the live keys among the arguments, repeats included. A pure
    /// probe: it takes no lock.
    pub fn count_existing(client_state: &mut ClientState, command: &RedisCommand, now_ms: u64, response_buffer: &mut BytesMut)
        requires
            old(client_state).wf(),
            command.wf(),
            buffer_bytes(*old(response_buffer)) == Seq::<u8>::empty(),
        ensures
            *final(client_state) == *old(client_state),
            buffer_bytes(*final(response_buffer)) == exists_result(old(client_state).database@, old(client_state).database_id, command@, now_ms),
    {
        let n = command.arg_count();
        if n < 2 {
            let name = command.main_command();
            write_wrong_args(response_buffer, name.as_slice());
            return;
        }
        let ghost args = command@;
        let generic_db = GenericDb::with_db(client_state.database_id);
        let mut items_found: usize = 0;
        let mut i: usize = 1;
        while i < n
            invariant
                1 <= i <= n,
                n == args.len(),
                args == command@,
                generic_db.db() == client_state.database_id,
                items_found as nat == exists_count(client_state.database@, client_state.database_id, args.subrange(1, i as int), now_ms),
                items_found < i,
            decreases n - i,
        {
            let key = command.arg(i).unwrap();
            assert(args.subrange(1, i + 1).drop_last() == args.subrange(1, i as int));
            assert(args.subrange(1, i + 1).last() == key@);
            if generic_db.contains(&client_state.database, key.as_slice(), now_ms) {
                items_found = items_found + 1;
            }
            i = i + 1;
        }
        assert(args.subrange(1, n as int) == args.subrange(1, args.len() as int));
        number_usize(response_buffer, items_found);
    }

    /// Sets the time to live of a key when its option allows, under an
    /// exclusive lock.
    pub fn expire(client_state: &mut ClientState, command: &RedisCommand, now_ms: u64, response_buffer: &mut BytesMut)
        requires
            old(client_state).wf(),
            command.wf(),
            buffer_bytes(*old(response_buffer)) == Seq::<u8>::empty(),
        ensures
            final(client_state).wf(),
            same_context(old(client_state), final(client_state)),
            final(client_state).database@ == expire_result(old(client_state).database@, old(client_state).database_id, command@, now_ms).0,
            buffer_bytes(*final(response_buffer)) == expire_result(old(client_state).database@, old(client_state).database_id, command@, now_ms).1,
    {
        let n = command.arg_count();
        if n < 3 {
            let name = command.main_command();
            write_wrong_args(response_buffer, name.as_slice());
            return;
        }
        let key = command.arg(1).unwrap();
        let seconds = match parse_u64(command.arg(2).unwrap().as_slice()) {
            Some(s) => s,
            None => {
                write_not_an_integer(response_buffer);
                return;
            },
        };
        client_state.acquire(key.as_slice(), LockMode::Exclusive);
        let mut generic_db = GenericDb::with_db(client_state.database_id);
        let mut expiration = match generic_db.get_expiration(&client_state.database, key.as_slice(), now_ms) {
            Some(x) => x,
            None => {
                client_state.release(key.as_slice(), LockMode::Exclusive);
                number_usize(response_buffer, 0);
                return;
            },
        };
        let cond = if n == 3 {
            Some(ExpireCondition::Always)
        } else {
            let opt = to_lower(command.arg(3).unwrap().as_slice());
            let c = parse_condition(opt.as_slice());
            if c.is_none() {
                client_state.release(key.as_slice(), LockMode::Exclusive);
                write_unsupported_option(response_buffer, opt.as_slice());
                return;
            }
            c
        };
        let cond = cond.unwrap();
        if !should_expire(cond, &expiration, now_ms, seconds) {
            client_state.release(key.as_slice(), LockMode::Exclusive);
            number_usize(response_buffer, 0);
            return;
        }
        if !expiration.set_ttl_seconds(seconds, now_ms) {
            client_state.release(key.as_slice(), LockMode::Exclusive);
            write_invalid_expire(response_buffer);
            return;
        }
        generic_db.put_expiration(&mut client_state.database, key.as_slice(), expiration, true);
        client_state.release(key.as_slice(), LockMode::Exclusive);
        number_usize(response_buffer, 1);
    }
}

/// Reads a lower-cased `EXPIRE` option.
pub fn parse_condition(opt: &[u8]) -> (r: Option<ExpireCondition>)
    ensures
        r == expire_condition(opt@),
{
    if bytes_eq(opt, "nx".as_bytes()) {
        Some(ExpireCondition::Nx)
    } else if bytes_eq(opt, "xx".as_bytes()) {
        Some(ExpireCondition::Xx)
    } else if bytes_eq(opt, "gt".as_bytes()) {
        Some(ExpireCondition::Gt)
    } else if bytes_eq(opt, "lt".as_bytes()) {
        Some(ExpireCondition::Lt)
    } else {
        None
    }
}

} // verus!
