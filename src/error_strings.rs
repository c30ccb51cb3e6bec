use vstd::prelude::*;
use vstd::string::StringSliceAdditionalSpecFns;
use bytes::BytesMut;
use crate::resp::{buffer_bytes, error_reply, error_string};
use crate::storage::MAX_BULK_LEN;

verus! {

pub open spec fn wrongtype_msg() -> Seq<u8> {
    "WRONGTYPE Operation against a key holding the wrong kind of value".spec_bytes()
}

pub open spec fn not_an_integer_msg() -> Seq<u8> {
    "ERR value is not an integer or out of range".spec_bytes()
}

pub open spec fn invalid_expire_msg() -> Seq<u8> {
    "ERR invalid expire time in 'expire' command".spec_bytes()
}

/// The complaint about the number of arguments of command `name`.
pub open spec fn wrong_args_msg(name: Seq<u8>) -> Seq<u8> {
    "ERR wrong number of arguments for '".spec_bytes() + name + "' command".spec_bytes()
}

/// The complaint about an option that the command does not know.
pub open spec fn unsupported_option_msg(option: Seq<u8>) -> Seq<u8> {
    "ERR Unsupported option ".spec_bytes() + option
}

/// The error for a command that reached the generic handlers from another family.
pub open spec fn non_generic_msg(name: Seq<u8>) -> Seq<u8> {
    "Non generic command ".spec_bytes() + name
}

/// The error for a command that reached the hash handlers from another family.
pub open spec fn non_hash_msg(name: Seq<u8>) -> Seq<u8> {
    "Non hash command ".spec_bytes() + name
}

/// Room that every reply of the handlers fits in, a bulk value included.
pub open spec fn max_reply_len() -> int {
    MAX_BULK_LEN + 1024
}

fn push_all(out: &mut Vec<u8>, s: &[u8])
    ensures
        final(out)@ == old(out)@ + s@,
{
    let mut i: usize = 0;
    while i < s.len()
        invariant
            0 <= i <= s@.len(),
            out@ == old(out)@ + s@.subrange(0, i as int),
        decreases s@.len() - i,
    {
        out.push(s[i]);
        assert(s@.subrange(0, i + 1) == s@.subrange(0, i as int).push(s[i as int]));
        i = i + 1;
    }
    assert(s@.subrange(0, s@.len() as int) == s@);
}

/// Appends the reply for a key of the wrong kind.
pub fn write_wrongtype(buf: &mut BytesMut)
    requires
        buffer_bytes(*old(buf)).len() + max_reply_len() <= isize::MAX,
    ensures
        buffer_bytes(*final(buf)) == buffer_bytes(*old(buf)) + error_reply(wrongtype_msg()),
{
    let m = "WRONGTYPE Operation against a key holding the wrong kind of value".as_bytes();
    proof {
        reveal_strlit("WRONGTYPE Operation against a key holding the wrong kind of value");
        vstd::string::is_ascii_spec_bytes("WRONGTYPE Operation against a key holding the wrong kind of value");
    }
    error_string(buf, m);
}

/// Appends the reply for a number that does not parse.
pub fn write_not_an_integer(buf: &mut BytesMut)
    requires
        buffer_bytes(*old(buf)).len() + max_reply_len() <= isize::MAX,
    ensures
        buffer_bytes(*final(buf)) == buffer_bytes(*old(buf)) + error_reply(not_an_integer_msg()),
{
    let m = "ERR value is not an integer or out of range".as_bytes();
    proof {
        reveal_strlit("ERR value is not an integer or out of range");
        vstd::string::is_ascii_spec_bytes("ERR value is not an integer or out of range");
    }
    error_string(buf, m);
}

/// Appends the reply for a TTL whose deadline does not fit.
pub fn write_invalid_expire(buf: &mut BytesMut)
    requires
        buffer_bytes(*old(buf)).len() + max_reply_len() <= isize::MAX,
    ensures
        buffer_bytes(*final(buf)) == buffer_bytes(*old(buf)) + error_reply(invalid_expire_msg()),
{
    let m = "ERR invalid expire time in 'expire' command".as_bytes();
    proof {
        reveal_strlit("ERR invalid expire time in 'expire' command");
        vstd::string::is_ascii_spec_bytes("ERR invalid expire time in 'expire' command");
    }
    error_string(buf, m);
}

/// Appends the reply for a wrong number of arguments of command `name`.
pub fn write_wrong_args(buf: &mut BytesMut, name: &[u8])
    requires
        name@.len() <= MAX_BULK_LEN,
        buffer_bytes(*old(buf)).len() + max_reply_len() <= isize::MAX,
    ensures
        buffer_bytes(*final(buf)) == buffer_bytes(*old(buf)) + error_reply(wrong_args_msg(name@)),
{
    let a = "ERR wrong number of arguments for '".as_bytes();
    let b = "' command".as_bytes();
    proof {
        reveal_strlit("ERR wrong number of arguments for '");
        vstd::string::is_ascii_spec_bytes("ERR wrong number of arguments for '");
        reveal_strlit("' command");
        vstd::string::is_ascii_spec_bytes("' command");
    }
    let mut m: Vec<u8> = Vec::new();
    push_all(&mut m, a);
    push_all(&mut m, name);
    push_all(&mut m, b);
    error_string(buf, m.as_slice());
}

/// Appends the reply for an option that the command does not know.
pub fn write_unsupported_option(buf: &mut BytesMut, option: &[u8])
    requires
        option@.len() <= MAX_BULK_LEN,
        buffer_bytes(*old(buf)).len() + max_reply_len() <= isize::MAX,
    ensures
        buffer_bytes(*final(buf)) == buffer_bytes(*old(buf)) + error_reply(unsupported_option_msg(option@)),
{
    let a = "ERR Unsupported option ".as_bytes();
    proof {
        reveal_strlit("ERR Unsupported option ");
        vstd::string::is_ascii_spec_bytes("ERR Unsupported option ");
    }
    let mut m: Vec<u8> = Vec::new();
    push_all(&mut m, a);
    push_all(&mut m, option);
    error_string(buf, m.as_slice());
}

/// Builds the error for command `name` routed to the generic handlers.
pub fn non_generic_command(name: &[u8]) -> (r: Vec<u8>)
    ensures
        r@ == non_generic_msg(name@),
{
    let mut m: Vec<u8> = Vec::new();
    push_all(&mut m, "Non generic command ".as_bytes());
    push_all(&mut m, name);
    m
}

/// Builds the error for command `name` routed to the hash handlers.
pub fn non_hash_command(name: &[u8]) -> (r: Vec<u8>)
    ensures
        r@ == non_hash_msg(name@),
{
    let mut m: Vec<u8> = Vec::new();
    push_all(&mut m, "Non hash command ".as_bytes());
    push_all(&mut m, name);
    m
}

} // verus!
