use sabledb_core::byte_map::ByteMap;
use sabledb_core::client_state::{ClientState, SableError};
use sabledb_core::command::RedisCommand;
use sabledb_core::generic_commands::GenericCommands;
use sabledb_core::generic_db::GenericDb;
use sabledb_core::hash_commands::HashCommands;
use sabledb_core::metadata::Expiration;
use sabledb_core::storage::{Entry, StorageAdapter, Value};

const NOW: u64 = 1_700_000_000_000;

fn new_state() -> ClientState {
    ClientState::new(StorageAdapter::new(), 0, false)
}

fn cmd(parts: &[&str]) -> RedisCommand {
    RedisCommand::new(parts.iter().map(|p| p.as_bytes().to_vec()).collect()).unwrap()
}

fn run_at(state: &mut ClientState, parts: &[&str], now: u64) -> String {
    let c = cmd(parts);
    let r = match GenericCommands::handle_command(state, &c, now) {
        Ok(r) => r,
        Err(_) => HashCommands::handle_command(state, &c, now).unwrap(),
    };
    String::from_utf8(r.response.to_vec()).unwrap()
}

fn run(state: &mut ClientState, parts: &[&str]) -> String {
    run_at(state, parts, NOW)
}

fn put(state: &mut ClientState, key: &str, value: Value, expiration: Expiration) {
    let mut db = GenericDb::with_db(state.database_id);
    db.put(key.as_bytes(), Entry { expiration, value });
    db.commit(&mut state.database);
}

fn set(state: &mut ClientState, key: &str, value: &str) {
    put(state, key, Value::Str(value.as_bytes().to_vec()), Expiration::persistent());
}

fn set_ex(state: &mut ClientState, key: &str, value: &str, seconds: u64) {
    let x = Expiration { deadline_ms: Some(NOW + seconds * 1000) };
    put(state, key, Value::Str(value.as_bytes().to_vec()), x);
}

fn lpush(state: &mut ClientState, key: &str, items: &[&str]) {
    let l = items.iter().map(|i| i.as_bytes().to_vec()).collect();
    put(state, key, Value::List(l), Expiration::persistent());
}

fn present(state: &ClientState, key: &str) -> bool {
    GenericDb::with_db(state.database_id).contains(&state.database, key.as_bytes(), NOW)
}

#[test]
fn test_del() {
    let mut s = new_state();
    set(&mut s, "mystr", "myvalue");
    set(&mut s, "mystr2", "myvalue2");
    lpush(&mut s, "mylist_1", &["a", "b", "c"]);
    lpush(&mut s, "mylist_2", &["a", "b", "c"]);
    assert_eq!(run(&mut s, &["del", "mystr", "mystr2", "mylist_1", "mylist_2"]), ":4\r\n");
    assert!(!present(&s, "mystr"));
    assert!(!present(&s, "mystr2"));
    assert!(!present(&s, "mylist_1"));
    assert!(!present(&s, "mylist_2"));
    assert_eq!(run(&mut s, &["del", "mylist_2"]), ":0\r\n");
}

#[test]
fn del_reports_eviction_only_when_something_went() {
    let mut s = new_state();
    set(&mut s, "a", "1");
    let r = GenericCommands::handle_command(&mut s, &cmd(&["DEL", "a"]), NOW).unwrap();
    assert!(r.trigger_eviction);
    let r = GenericCommands::handle_command(&mut s, &cmd(&["DEL", "a"]), NOW).unwrap();
    assert!(!r.trigger_eviction);
    assert_eq!(&r.response[..], b":0\r\n");

    let mut t = ClientState::new(StorageAdapter::new(), 0, true);
    set(&mut t, "a", "1");
    let r = GenericCommands::handle_command(&mut t, &cmd(&["del", "a"]), NOW).unwrap();
    assert!(!r.trigger_eviction);
    assert_eq!(&r.response[..], b":1\r\n");
}

#[test]
fn del_counts_a_repeated_key_once() {
    let mut s = new_state();
    set(&mut s, "a", "1");
    set(&mut s, "b", "2");
    assert_eq!(run(&mut s, &["del", "a", "a", "b", "nope"]), ":2\r\n");
    assert!(!present(&s, "a"));
    assert!(!present(&s, "b"));
}

#[test]
fn del_without_keys_is_a_protocol_error() {
    let mut s = new_state();
    assert_eq!(run(&mut s, &["DEL"]), "-ERR wrong number of arguments for 'del' command\r\n");
}

#[test]
fn test_exists() {
    let mut s = new_state();
    set(&mut s, "mykey1", "myvalue");
    set(&mut s, "mykey2", "myvalue1");
    assert_eq!(run(&mut s, &["exists", "mykey1", "mykey2"]), ":2\r\n");
    assert_eq!(run(&mut s, &["exists", "mykey1", "mykey2", "mykey1"]), ":3\r\n");
    assert_eq!(run(&mut s, &["exists", "no_such_key", "mykey2", "mykey1"]), ":2\r\n");
}

#[test]
fn exists_follows_writes_and_deletes() {
    let mut s = new_state();
    assert_eq!(run(&mut s, &["exists", "a", "a"]), ":0\r\n");
    set(&mut s, "a", "1");
    assert_eq!(run(&mut s, &["exists", "a", "a", "b"]), ":2\r\n");
    run(&mut s, &["del", "a"]);
    set(&mut s, "b", "2");
    assert_eq!(run(&mut s, &["exists", "a", "a", "b"]), ":1\r\n");
    assert_eq!(run(&mut s, &["exists"]), "-ERR wrong number of arguments for 'exists' command\r\n");
}

#[test]
fn expired_key_reads_as_absent() {
    let mut s = new_state();
    set_ex(&mut s, "k", "v", 10);
    assert_eq!(run_at(&mut s, &["exists", "k"], NOW + 9_999), ":1\r\n");
    assert_eq!(run_at(&mut s, &["exists", "k"], NOW + 10_000), ":0\r\n");
    assert_eq!(run_at(&mut s, &["ttl", "k"], NOW + 10_000), ":-2\r\n");
    assert_eq!(run_at(&mut s, &["del", "k"], NOW + 10_000), ":0\r\n");
}

#[test]
fn test_expire() {
    let mut s = new_state();
    set(&mut s, "mykey1", "myvalue");
    assert_eq!(run(&mut s, &["expire", "mykey1", "100"]), ":1\r\n");
    assert!(present(&s, "mykey1"));
    set_ex(&mut s, "mykey2", "myvalue", 100);
    assert_eq!(run(&mut s, &["expire", "mykey2", "90", "GT"]), ":0\r\n");
    assert_eq!(run(&mut s, &["expire", "mykey2", "120", "GT"]), ":1\r\n");
    assert!(present(&s, "mykey2"));
    set_ex(&mut s, "mykey3", "myvalue", 100);
    assert_eq!(run(&mut s, &["expire", "mykey3", "123", "LT"]), ":0\r\n");
    assert_eq!(run(&mut s, &["expire", "mykey3", "90", "LT"]), ":1\r\n");
    assert!(present(&s, "mykey3"));
    set_ex(&mut s, "mykey4", "myvalue", 100);
    assert_eq!(run(&mut s, &["expire", "mykey4", "120", "NX"]), ":0\r\n");
    assert_eq!(run(&mut s, &["expire", "mykey4", "120", "XX"]), ":1\r\n");
    set(&mut s, "mykey5", "myvalue");
    assert_eq!(run(&mut s, &["expire", "mykey5", "120", "XX"]), ":0\r\n");
    assert_eq!(run(&mut s, &["expire", "mykey5", "120", "NX"]), ":1\r\n");
}

#[test]
fn expire_gt_keeps_then_updates_the_ttl() {
    let mut s = new_state();
    set_ex(&mut s, "mykey2", "v", 100);
    assert_eq!(run(&mut s, &["expire", "mykey2", "90", "GT"]), ":0\r\n");
    assert_eq!(run(&mut s, &["ttl", "mykey2"]), ":100\r\n");
    assert_eq!(run(&mut s, &["expire", "mykey2", "120", "GT"]), ":1\r\n");
    assert_eq!(run(&mut s, &["ttl", "mykey2"]), ":120\r\n");
}

#[test]
fn expire_on_a_key_without_deadline_passes_gt_and_fails_lt() {
    let mut s = new_state();
    set(&mut s, "p", "v");
    assert_eq!(run(&mut s, &["expire", "p", "5", "lt"]), ":0\r\n");
    assert_eq!(run(&mut s, &["ttl", "p"]), ":-1\r\n");
    assert_eq!(run(&mut s, &["expire", "p", "3", "gt"]), ":1\r\n");
    assert_eq!(run(&mut s, &["ttl", "p"]), ":3\r\n");
}

#[test]
fn expire_errors_leave_the_ttl_alone() {
    let mut s = new_state();
    set_ex(&mut s, "k", "v", 100);
    assert_eq!(run(&mut s, &["expire", "k", "50", "ZZ"]), "-ERR Unsupported option zz\r\n");
    assert_eq!(run(&mut s, &["expire", "k", "abc"]), "-ERR value is not an integer or out of range\r\n");
    assert_eq!(run(&mut s, &["expire", "k", "-5"]), "-ERR value is not an integer or out of range\r\n");
    assert_eq!(
        run(&mut s, &["expire", "k", "18446744073709551615"]),
        "-ERR invalid expire time in 'expire' command\r\n"
    );
    assert_eq!(run(&mut s, &["expire", "k"]), "-ERR wrong number of arguments for 'expire' command\r\n");
    assert_eq!(run(&mut s, &["ttl", "k"]), ":100\r\n");
    assert_eq!(run(&mut s, &["expire", "missing", "10"]), ":0\r\n");
    assert_eq!(run(&mut s, &["expire", "missing", "10", "bogus"]), ":0\r\n");
    assert_eq!(run(&mut s, &["expire", "k", "+7"]), ":1\r\n");
    assert_eq!(run(&mut s, &["ttl", "k"]), ":7\r\n");
}

#[test]
fn ttl_values() {
    let mut s = new_state();
    assert_eq!(run(&mut s, &["ttl", "none"]), ":-2\r\n");
    set(&mut s, "p", "v");
    assert_eq!(run(&mut s, &["ttl", "p"]), ":-1\r\n");
    set_ex(&mut s, "e", "v", 100);
    assert_eq!(run(&mut s, &["ttl", "e"]), ":100\r\n");
    assert_eq!(run_at(&mut s, &["ttl", "e"], NOW + 1), ":99\r\n");
    assert_eq!(run_at(&mut s, &["ttl", "e"], NOW + 99_999), ":0\r\n");
    assert_eq!(run(&mut s, &["TTL"]), "-ERR wrong number of arguments for 'ttl' command\r\n");
}

#[test]
fn test_hset() {
    let mut s = new_state();
    assert_eq!(run(&mut s, &["hset", "myhash", "field1", "value1"]), ":1\r\n");
    assert_eq!(run(&mut s, &["hset", "myhash", "field1", "value1", "field1", "value1"]), ":0\r\n");
    assert_eq!(
        run(&mut s, &["hset", "myhash", "field1", "value1", "field2"]),
        "-ERR wrong number of arguments for 'hset' command\r\n"
    );
    assert_eq!(run(&mut s, &["hget", "myhash", "field2"]), "$-1\r\n");
    assert_eq!(run(&mut s, &["hset", "myhash", "field2", "value2"]), ":1\r\n");
    assert_eq!(run(&mut s, &["hset", "myhash"]), "-ERR wrong number of arguments for 'hset' command\r\n");
}

#[test]
fn hset_counts_new_fields_only() {
    let mut s = new_state();
    assert_eq!(run(&mut s, &["hset", "h", "a", "1", "b", "2", "a", "3"]), ":2\r\n");
    assert_eq!(run(&mut s, &["hget", "h", "a"]), "$1\r\n3\r\n");
    assert_eq!(run(&mut s, &["hset", "h", "a", "4", "c", "5"]), ":1\r\n");
    assert_eq!(run(&mut s, &["hget", "h", "a"]), "$1\r\n4\r\n");
}

#[test]
fn hash_commands_on_a_string_are_wrong_type() {
    let mut s = new_state();
    set(&mut s, "str", "v");
    let wrongtype = "-WRONGTYPE Operation against a key holding the wrong kind of value\r\n";
    assert_eq!(run(&mut s, &["hset", "str", "f", "v"]), wrongtype);
    assert_eq!(run(&mut s, &["hget", "str", "f"]), wrongtype);
    assert_eq!(run(&mut s, &["exists", "str"]), ":1\r\n");
    assert_eq!(s.telemetry.db_hits, 0);
    assert_eq!(s.telemetry.db_misses, 0);
}

#[test]
fn test_hget() {
    let mut s = new_state();
    assert_eq!(run(&mut s, &["hset", "myhash", "field1", "value1", "field2", "value2"]), ":2\r\n");
    assert_eq!(run(&mut s, &["hget", "myhash", "field1"]), "$6\r\nvalue1\r\n");
    assert_eq!(run(&mut s, &["hget", "myhash", "field2"]), "$6\r\nvalue2\r\n");
    assert_eq!(run(&mut s, &["hget", "myhash", "nosuchfield"]), "$-1\r\n");
}

#[test]
fn hget_counts_hits_and_misses() {
    let mut s = new_state();
    assert_eq!(run(&mut s, &["hget", "nokey", "f"]), "$-1\r\n");
    assert_eq!(run(&mut s, &["hset", "h", "f", "v"]), ":1\r\n");
    assert_eq!(run(&mut s, &["hget", "h", "f"]), "$1\r\nv\r\n");
    assert_eq!(run(&mut s, &["hget", "h", "g"]), "$-1\r\n");
    assert_eq!(s.telemetry.db_hits, 1);
    assert_eq!(s.telemetry.db_misses, 2);
    assert_eq!(run(&mut s, &["hget", "h"]), "-ERR wrong number of arguments for 'hget' command\r\n");
}

#[test]
fn hget_returns_binary_values_unchanged() {
    let mut s = new_state();
    let value: Vec<u8> = vec![0, 255, 13, 10, 36, 7];
    let args = vec![b"hset".to_vec(), b"bin".to_vec(), b"f".to_vec(), value.clone()];
    let r = HashCommands::handle_command(&mut s, &RedisCommand::new(args).unwrap(), NOW).unwrap();
    assert_eq!(&r.response[..], b":1\r\n");
    let r = HashCommands::handle_command(&mut s, &cmd(&["hget", "bin", "f"]), NOW).unwrap();
    let mut expected = b"$6\r\n".to_vec();
    expected.extend_from_slice(&value);
    expected.extend_from_slice(b"\r\n");
    assert_eq!(&r.response[..], &expected[..]);
}

#[test]
fn hset_keeps_the_deadline_of_the_hash() {
    let mut s = new_state();
    let x = Expiration { deadline_ms: Some(NOW + 50_000) };
    put(&mut s, "h", Value::Hash(ByteMap::new()), x);
    assert_eq!(run(&mut s, &["hset", "h", "f", "v"]), ":1\r\n");
    assert_eq!(run(&mut s, &["ttl", "h"]), ":50\r\n");
}

#[test]
fn commands_of_another_family_are_refused() {
    let mut s = new_state();
    set(&mut s, "a", "1");
    let r = GenericCommands::handle_command(&mut s, &cmd(&["hget", "a", "f"]), NOW);
    assert!(matches!(r, Err(SableError::InvalidArgument(ref n)) if n == b"Non generic command hget"));
    let r = HashCommands::handle_command(&mut s, &cmd(&["DEL", "a"]), NOW);
    assert!(matches!(r, Err(SableError::InvalidArgument(ref n)) if n == b"Non hash command del"));
    assert!(present(&s, "a"));
}

#[test]
fn databases_do_not_share_keys() {
    let mut s0 = ClientState::new(StorageAdapter::new(), 0, false);
    set(&mut s0, "k", "v");
    let mut s1 = ClientState::new(s0.database, 1, false);
    assert_eq!(run(&mut s1, &["exists", "k"]), ":0\r\n");
    set(&mut s1, "k", "w");
    assert_eq!(run(&mut s1, &["del", "k"]), ":1\r\n");
    let mut s0 = ClientState::new(s1.database, 0, false);
    assert_eq!(run(&mut s0, &["exists", "k"]), ":1\r\n");
}

#[test]
fn command_names_ignore_case() {
    let mut s = new_state();
    assert_eq!(run(&mut s, &["HsEt", "h", "f", "v"]), ":1\r\n");
    assert_eq!(run(&mut s, &["ExIsTs", "h"]), ":1\r\n");
}

#[test]
fn oversized_or_empty_commands_are_rejected() {
    assert!(RedisCommand::new(vec![]).is_none());
    assert!(RedisCommand::new(vec![b"ttl".to_vec()]).is_some());
}

#[test]
fn handlers_can_be_called_one_by_one() {
    let mut s = new_state();
    set(&mut s, "a", "1");
    set_ex(&mut s, "b", "2", 100);
    let mut b = bytes::BytesMut::new();
    GenericCommands::ttl(&mut s, &cmd(&["ttl", "b"]), NOW, &mut b);
    assert_eq!(&b[..], b":100\r\n");
    let mut b = bytes::BytesMut::new();
    GenericCommands::expire(&mut s, &cmd(&["expire", "b", "90", "lt"]), NOW, &mut b);
    assert_eq!(&b[..], b":1\r\n");
    let mut b = bytes::BytesMut::new();
    GenericCommands::count_existing(&mut s, &cmd(&["exists", "a", "b", "c", "a"]), NOW, &mut b);
    assert_eq!(&b[..], b":3\r\n");
    let mut b = bytes::BytesMut::new();
    let evict = GenericCommands::del(&mut s, &cmd(&["del", "a", "b", "c"]), NOW, &mut b);
    assert_eq!(&b[..], b":2\r\n");
    assert!(evict);
    let mut b = bytes::BytesMut::new();
    HashCommands::hset(&mut s, &cmd(&["hset", "h", "f", "v", "g", "w"]), NOW, &mut b);
    assert_eq!(&b[..], b":2\r\n");
    let mut b = bytes::BytesMut::new();
    HashCommands::hget(&mut s, &cmd(&["hget", "h", "g"]), NOW, &mut b);
    assert_eq!(&b[..], b"$1\r\nw\r\n");
}
