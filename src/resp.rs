use vstd::prelude::*;
use bytes::BytesMut;

verus! {

#[verifier::external_type_specification]
#[verifier::external_body]
pub struct ExBytesMut(BytesMut);

/// The bytes that a reply buffer holds.
pub uninterp spec fn buffer_bytes(b: BytesMut) -> Seq<u8>;

/// Relies on `bytes::BytesMut::with_capacity`: the new buffer holds no bytes,
/// whatever capacity it reserved.
#[verifier::external_body]
pub(crate) fn new_buffer(capacity: usize) -> (r: BytesMut)
    ensures
        buffer_bytes(r) == Seq::<u8>::empty(),
{
    BytesMut::with_capacity(capacity)
}

/// Relies on `bytes::BytesMut::extend_from_slice`: `data` is appended after
/// the bytes already held. It panics only when the new length overflows,
/// which the bound rules out.
#[verifier::external_body]
fn append(buf: &mut BytesMut, data: &[u8])
    requires
        buffer_bytes(*old(buf)).len() + data@.len() <= isize::MAX,
    ensures
        buffer_bytes(*final(buf)) == buffer_bytes(*old(buf)) + data@,
{
    buf.extend_from_slice(data)
}

/// Room that a reply of a number or of a fixed message needs beyond its payload.
pub open spec fn reply_room() -> int {
    64
}

pub open spec fn crlf() -> Seq<u8> {
    seq![13u8, 10u8]
}

/// Decimal digits of `n`, most significant first, with no leading zero.
pub open spec fn decimal(n: nat) -> Seq<u8>
    decreases n,
{
    if n < 10 {
        seq![(48 + n) as u8]
    } else {
        decimal(n / 10).push((48 + n % 10) as u8)
    }
}

/// Decimal form of a signed number.
pub open spec fn signed_decimal(n: int) -> Seq<u8> {
    if n < 0 {
        seq![45u8] + decimal((-n) as nat)
    } else {
        decimal(n as nat)
    }
}

/// `:<n>\r\n`
pub open spec fn integer_reply(n: int) -> Seq<u8> {
    seq![58u8] + signed_decimal(n) + crlf()
}

/// `$<len>\r\n<bytes>\r\n`
pub open spec fn bulk_reply(v: Seq<u8>) -> Seq<u8> {
    seq![36u8] + decimal(v.len()) + crlf() + v + crlf()
}

/// `$-1\r\n`
pub open spec fn null_reply() -> Seq<u8> {
    seq![36u8, 45u8, 49u8] + crlf()
}

/// `-<message>\r\n`
pub open spec fn error_reply(msg: Seq<u8>) -> Seq<u8> {
    seq![45u8] + msg + crlf()
}

/// `+<text>\r\n`
pub open spec fn simple_reply(text: Seq<u8>) -> Seq<u8> {
    seq![43u8] + text + crlf()
}

pub open spec fn pow10(k: nat) -> nat
    decreases k,
{
    if k == 0 {
        1
    } else {
        10 * pow10((k - 1) as nat)
    }
}

proof fn lemma_decimal_len(n: nat, k: nat)
    requires
        1 <= k,
        n < pow10(k),
    ensures
        decimal(n).len() <= k,
    decreases k,
{
    if n >= 10 {
        assert(k >= 2) by {
            if k == 1 {
                reveal_with_fuel(pow10, 2);
            }
        }
        assert(n / 10 < pow10((k - 1) as nat)) by (nonlinear_arith)
            requires
                n < pow10(k),
                pow10(k) == 10 * pow10((k - 1) as nat),
        ;
        lemma_decimal_len(n / 10, (k - 1) as nat);
    }
}

/// Every `u64` has at most twenty decimal digits.
pub proof fn lemma_decimal_u64(n: nat)
    requires
        n <= u64::MAX,
    ensures
        decimal(n).len() <= 20,
{
    reveal_with_fuel(pow10, 21);
    assert(pow10(20) == 100000000000000000000nat);
    lemma_decimal_len(n, 20);
}

fn push_decimal(out: &mut Vec<u8>, n: u64)
    ensures
        final(out)@ == old(out)@ + decimal(n as nat),
    decreases n,
{
    if n >= 10 {
        push_decimal(out, n / 10);
    }
    out.push(48 + (n % 10) as u8);
    assert(final(out)@ =~= old(out)@ + decimal(n as nat));
}

/// Appends `:<n>\r\n` for the number whose sign is `negative` and whose
/// absolute value is `magnitude`.
fn push_integer(buf: &mut BytesMut, negative: bool, magnitude: u64)
    requires
        buffer_bytes(*old(buf)).len() + reply_room() <= isize::MAX,
    ensures
        buffer_bytes(*final(buf)) == buffer_bytes(*old(buf)) + seq![58u8] + (if negative && magnitude > 0 {
            seq![45u8]
        } else {
            Seq::<u8>::empty()
        }) + decimal(magnitude as nat) + crlf(),
{
    let mut out: Vec<u8> = Vec::new();
    out.push(58);
    if negative && magnitude > 0 {
        out.push(45);
    }
    push_decimal(&mut out, magnitude);
    out.push(13);
    out.push(10);
    proof {
        lemma_decimal_u64(magnitude as nat);
    }
    append(buf, out.as_slice());
    assert(buffer_bytes(*final(buf)) =~= buffer_bytes(*old(buf)) + seq![58u8] + (if negative && magnitude > 0 {
        seq![45u8]
    } else {
        Seq::<u8>::empty()
    }) + decimal(magnitude as nat) + crlf());
}

/// Appends an integer reply.
pub fn number_u64(buf: &mut BytesMut, n: u64)
    requires
        buffer_bytes(*old(buf)).len() + reply_room() <= isize::MAX,
    ensures
        buffer_bytes(*final(buf)) == buffer_bytes(*old(buf)) + integer_reply(n as int),
{
    push_integer(buf, false, n);
    assert(buffer_bytes(*final(buf)) =~= buffer_bytes(*old(buf)) + integer_reply(n as int));
}

/// Appends an integer reply.
pub fn number_usize(buf: &mut BytesMut, n: usize)
    requires
        buffer_bytes(*old(buf)).len() + reply_room() <= isize::MAX,
    ensures
        buffer_bytes(*final(buf)) == buffer_bytes(*old(buf)) + integer_reply(n as int),
{
    number_u64(buf, n as u64);
}

/// Appends an integer reply.
pub fn number_i64(buf: &mut BytesMut, n: i64)
    requires
        buffer_bytes(*old(buf)).len() + reply_room() <= isize::MAX,
    ensures
        buffer_bytes(*final(buf)) == buffer_bytes(*old(buf)) + integer_reply(n as int),
{
    if n < 0 {
        let m: u64 = (-(n as i128)) as u64;
        push_integer(buf, true, m);
    } else {
        push_integer(buf, false, n as u64);
    }
    assert(buffer_bytes(*final(buf)) =~= buffer_bytes(*old(buf)) + integer_reply(n as int));
}

/// Appends a bulk string reply holding `v`.
pub fn bulk_string(buf: &mut BytesMut, v: &[u8])
    requires
        buffer_bytes(*old(buf)).len() + v@.len() + reply_room() <= isize::MAX,
    ensures
        buffer_bytes(*final(buf)) == buffer_bytes(*old(buf)) + bulk_reply(v@),
{
    let mut head: Vec<u8> = Vec::new();
    head.push(36);
    push_decimal(&mut head, v.len() as u64);
    head.push(13);
    head.push(10);
    proof {
        lemma_decimal_u64(v@.len() as nat);
    }
    append(buf, head.as_slice());
    append(buf, v);
    let mut tail: Vec<u8> = Vec::new();
    tail.push(13);
    tail.push(10);
    append(buf, tail.as_slice());
    assert(buffer_bytes(*final(buf)) =~= buffer_bytes(*old(buf)) + bulk_reply(v@));
}

/// Appends the null reply.
pub fn null_string(buf: &mut BytesMut)
    requires
        buffer_bytes(*old(buf)).len() + reply_room() <= isize::MAX,
    ensures
        buffer_bytes(*final(buf)) == buffer_bytes(*old(buf)) + null_reply(),
{
    let mut out: Vec<u8> = Vec::new();
    out.push(36);
    out.push(45);
    out.push(49);
    out.push(13);
    out.push(10);
    append(buf, out.as_slice());
    assert(buffer_bytes(*final(buf)) =~= buffer_bytes(*old(buf)) + null_reply());
}

/// Appends an error reply carrying `msg`.
pub fn error_string(buf: &mut BytesMut, msg: &[u8])
    requires
        buffer_bytes(*old(buf)).len() + msg@.len() + reply_room() <= isize::MAX,
    ensures
        buffer_bytes(*final(buf)) == buffer_bytes(*old(buf)) + error_reply(msg@),
{
    let mut head: Vec<u8> = Vec::new();
    head.push(45);
    append(buf, head.as_slice());
    append(buf, msg);
    let mut tail: Vec<u8> = Vec::new();
    tail.push(13);
    tail.push(10);
    append(buf, tail.as_slice());
    assert(buffer_bytes(*final(buf)) =~= buffer_bytes(*old(buf)) + error_reply(msg@));
}

/// Appends a simple string reply carrying `text`.
pub fn simple_string(buf: &mut BytesMut, text: &[u8])
    requires
        buffer_bytes(*old(buf)).len() + text@.len() + reply_room() <= isize::MAX,
    ensures
        buffer_bytes(*final(buf)) == buffer_bytes(*old(buf)) + simple_reply(text@),
{
    let mut head: Vec<u8> = Vec::new();
    head.push(43);
    append(buf, head.as_slice());
    append(buf, text);
    let mut tail: Vec<u8> = Vec::new();
    tail.push(13);
    tail.push(10);
    append(buf, tail.as_slice());
    assert(buffer_bytes(*final(buf)) =~= buffer_bytes(*old(buf)) + simple_reply(text@));
}

} // verus!
