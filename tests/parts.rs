use sabledb_core::bytes_util::{bytes_eq, to_lower};
use sabledb_core::command::parse_u64;
use sabledb_core::lock_manager::{LockMode, LockTable};
use sabledb_core::metadata::{should_expire, ExpireCondition, Expiration};
use sabledb_core::resp;

#[test]
fn replies_are_encoded_byte_for_byte() {
    let mut b = bytes::BytesMut::new();
    resp::number_i64(&mut b, -2);
    resp::number_u64(&mut b, 0);
    resp::number_usize(&mut b, 1234567890);
    resp::bulk_string(&mut b, b"hi");
    resp::bulk_string(&mut b, b"");
    resp::null_string(&mut b);
    resp::error_string(&mut b, b"ERR x");
    resp::simple_string(&mut b, b"OK");
    assert_eq!(&b[..], &b":-2\r\n:0\r\n:1234567890\r\n$2\r\nhi\r\n$0\r\n\r\n$-1\r\n-ERR x\r\n+OK\r\n"[..]);
}

#[test]
fn extreme_numbers_are_encoded() {
    let mut b = bytes::BytesMut::with_capacity(8);
    resp::number_i64(&mut b, i64::MIN);
    resp::number_u64(&mut b, u64::MAX);
    assert_eq!(&b[..], &b":-9223372036854775808\r\n:18446744073709551615\r\n"[..]);
}

#[test]
fn numbers_parse() {
    assert_eq!(parse_u64(b"0"), Some(0));
    assert_eq!(parse_u64(b"+42"), Some(42));
    assert_eq!(parse_u64(b"18446744073709551615"), Some(u64::MAX));
    assert_eq!(parse_u64(b"18446744073709551616"), None);
    assert_eq!(parse_u64(b""), None);
    assert_eq!(parse_u64(b"+"), None);
    assert_eq!(parse_u64(b"-1"), None);
    assert_eq!(parse_u64(b"1a"), None);
}

#[test]
fn bytes_helpers() {
    assert!(bytes_eq(b"abc", b"abc"));
    assert!(!bytes_eq(b"abc", b"abd"));
    assert!(!bytes_eq(b"abc", b"ab"));
    assert_eq!(to_lower(b"GeT-X1"), b"get-x1".to_vec());
}

#[test]
fn shared_locks_exclude_exclusive_ones() {
    let mut t = LockTable::new();
    assert!(t.try_lock(0, b"k", LockMode::Shared));
    assert!(t.try_lock(0, b"k", LockMode::Shared));
    assert!(!t.try_lock(0, b"k", LockMode::Exclusive));
    assert!(t.try_lock(1, b"k", LockMode::Exclusive));
    assert!(t.try_lock(0, b"other", LockMode::Exclusive));
    t.unlock(0, b"k", LockMode::Shared);
    assert!(!t.try_lock(0, b"k", LockMode::Exclusive));
    t.unlock(0, b"k", LockMode::Shared);
    assert!(t.try_lock(0, b"k", LockMode::Exclusive));
    assert!(!t.try_lock(0, b"k", LockMode::Shared));
    assert!(!t.try_lock(0, b"k", LockMode::Exclusive));
    t.unlock(0, b"k", LockMode::Exclusive);
    assert!(t.try_lock(0, b"k", LockMode::Shared));
}

#[test]
fn expire_policy_order() {
    let none = Expiration::persistent();
    let some = Expiration { deadline_ms: Some(100_000) };
    assert!(should_expire(ExpireCondition::Gt, &none, 0, 0));
    assert!(!should_expire(ExpireCondition::Lt, &none, 0, 1_000_000));
    assert!(should_expire(ExpireCondition::Nx, &none, 0, 1));
    assert!(!should_expire(ExpireCondition::Xx, &none, 0, 1));
    assert!(should_expire(ExpireCondition::Gt, &some, 0, 101));
    assert!(!should_expire(ExpireCondition::Gt, &some, 0, 100));
    assert!(should_expire(ExpireCondition::Lt, &some, 0, 99));
    assert!(!should_expire(ExpireCondition::Lt, &some, 0, 100));
    assert!(should_expire(ExpireCondition::Always, &some, 0, 0));
    assert_eq!(some.ttl_in_seconds(200_000), 0);
    assert_eq!(some.ttl_in_seconds(1_500), 98);
    let mut x = Expiration::persistent();
    assert!(x.set_ttl_seconds(5, 10));
    assert_eq!(x.deadline_ms, Some(5_010));
    assert!(!x.set_ttl_seconds(u64::MAX / 1000, 1000));
    assert_eq!(x.deadline_ms, Some(5_010));
}
