use vstd::prelude::*;
use crate::bytes_util::{bytes_eq, lower_bytes, to_lower};
use crate::storage::MAX_BULK_LEN;
use vstd::string::StringSliceAdditionalSpecFns;

verus! {

/// The commands that the handlers know.
#[derive(Clone, Copy, Debug, PartialEq, Eq, Structural)]
pub enum RedisCommandName {
    Del,
    Ttl,
    Exists,
    Expire,
    Hset,
    Hget,
    Other,
}

/// Which command a name denotes, ignoring ASCII case.
pub open spec fn command_name(name: Seq<u8>) -> RedisCommandName {
    let l = lower_bytes(name);
    if l == "del".spec_bytes() {
        RedisCommandName::Del
    } else if l == "ttl".spec_bytes() {
        RedisCommandName::Ttl
    } else if l == "exists".spec_bytes() {
        RedisCommandName::Exists
    } else if l == "expire".spec_bytes() {
        RedisCommandName::Expire
    } else if l == "hset".spec_bytes() {
        RedisCommandName::Hset
    } else if l == "hget".spec_bytes() {
        RedisCommandName::Hget
    } else {
        RedisCommandName::Other
    }
}

/// A parsed command: its name, then its arguments.
pub struct RedisCommand {
    args: Vec<Vec<u8>>,
}

impl View for RedisCommand {
    type V = Seq<Seq<u8>>;

    closed spec fn view(&self) -> Seq<Seq<u8>> {
        self.args.deep_view()
    }
}

/// A command line has a name, and no part of it exceeds the bulk length limit.
pub open spec fn valid_args(args: Seq<Seq<u8>>) -> bool {
    args.len() >= 1 && forall|i: int| 0 <= i < args.len() ==> (#[trigger] args[i]).len() <= MAX_BULK_LEN
}

impl RedisCommand {
    pub open spec fn wf(&self) -> bool {
        valid_args(self@)
    }

    /// A command from its parts, name first; `None` when there is no name or a
    /// part is longer than the bulk length limit.
    pub fn new(args: Vec<Vec<u8>>) -> (r: Option<RedisCommand>)
        ensures
            r is Some == valid_args(args.deep_view()),
            r is Some ==> r->0@ == args.deep_view() && r->0.wf(),
    {
        if args.len() == 0 {
            return None;
        }
        let mut i: usize = 0;
        while i < args.len()
            invariant
                0 <= i <= args@.len(),
                forall|j: int| 0 <= j < i ==> (#[trigger] args.deep_view()[j]).len() <= MAX_BULK_LEN,
            decreases args@.len() - i,
        {
            if args[i].len() > MAX_BULK_LEN {
                assert(args.deep_view()[i as int].len() > MAX_BULK_LEN);
                return None;
            }
            i = i + 1;
        }
        Some(RedisCommand { args })
    }

    /// Number of parts, the name included.
    pub fn arg_count(&self) -> (r: usize)
        ensures
            r == self@.len(),
    {
        self.args.len()
    }

    /// Part `i`; the name is part 0.
    pub fn arg(&self, i: usize) -> (r: Option<&Vec<u8>>)
        ensures
            match r {
                Some(a) => i < self@.len() && a@ == self@[i as int],
                None => i >= self@.len(),
            },
    {
        if i < self.args.len() {
            Some(&self.args[i])
        } else {
            None
        }
    }

    /// All parts, name first.
    pub fn args_vec(&self) -> (r: &Vec<Vec<u8>>)
        ensures
            r.deep_view() == self@,
    {
        &self.args
    }

    /// The name in ASCII lower case.
    pub fn main_command(&self) -> (r: Vec<u8>)
        requires
            self.wf(),
        ensures
            r@ == lower_bytes(self@[0]),
            r@.len() <= MAX_BULK_LEN,
    {
        let a = self.arg(0).unwrap();
        assert(self@[0].len() <= MAX_BULK_LEN);
        to_lower(a.as_slice())
    }

    /// The command this is.
    pub fn name(&self) -> (r: RedisCommandName)
        requires
            self.wf(),
        ensures
            r == command_name(self@[0]),
    {
        let l = to_lower(self.args[0].as_slice());
        assert(l@ == lower_bytes(self@[0]));
        if bytes_eq(l.as_slice(), "del".as_bytes()) {
            RedisCommandName::Del
        } else if bytes_eq(l.as_slice(), "ttl".as_bytes()) {
            RedisCommandName::Ttl
        } else if bytes_eq(l.as_slice(), "exists".as_bytes()) {
            RedisCommandName::Exists
        } else if bytes_eq(l.as_slice(), "expire".as_bytes()) {
            RedisCommandName::Expire
        } else if bytes_eq(l.as_slice(), "hset".as_bytes()) {
            RedisCommandName::Hset
        } else if bytes_eq(l.as_slice(), "hget".as_bytes()) {
            RedisCommandName::Hget
        } else {
            RedisCommandName::Other
        }
    }
}

/// Whether every byte is an ASCII digit.
pub open spec fn all_digits(s: Seq<u8>) -> bool {
    forall|i: int| 0 <= i < s.len() ==> 48 <= #[trigger] s[i] <= 57
}

/// The number that decimal digits `s` spell.
pub open spec fn digits_value(s: Seq<u8>) -> nat
    decreases s.len(),
{
    if s.len() == 0 {
        0
    } else {
        digits_value(s.drop_last()) * 10 + (s.last() - 48) as nat
    }
}

/// The digits after an optional leading `+`.
pub open spec fn unsigned_digits(s: Seq<u8>) -> Seq<u8> {
    if s.len() > 0 && s[0] == 43 {
        s.subrange(1, s.len() as int)
    } else {
        s
    }
}

/// The `u64` that `s` spells in decimal, after an optional `+`; `None` when
/// it spells none.
pub open spec fn parse_u64_spec(s: Seq<u8>) -> Option<u64> {
    let d = unsigned_digits(s);
    if d.len() > 0 && all_digits(d) && digits_value(d) <= u64::MAX {
        Some(digits_value(d) as u64)
    } else {
        None
    }
}

proof fn lemma_digits_grow(s: Seq<u8>, i: int, j: int)
    requires
        0 <= i <= j <= s.len(),
        all_digits(s),
    ensures
        digits_value(s.subrange(0, i)) <= digits_value(s.subrange(0, j)),
    decreases j - i,
{
    if i < j {
        lemma_digits_grow(s, i, j - 1);
        assert(s.subrange(0, j).drop_last() == s.subrange(0, j - 1));
    }
}

/// Parses a decimal `u64`, as `parse_u64_spec` says.
pub fn parse_u64(s: &[u8]) -> (r: Option<u64>)
    ensures
        r == parse_u64_spec(s@),
{
    let start: usize = if s.len() > 0 && s[0] == 43 { 1 } else { 0 };
    let ghost d = unsigned_digits(s@);
    assert(d == s@.subrange(start as int, s@.len() as int));
    if start >= s.len() {
        return None;
    }
    let mut value: u64 = 0;
    let mut overflow = false;
    let mut i: usize = start;
    while i < s.len()
        invariant
            start <= i <= s@.len(),
            d == unsigned_digits(s@),
            d == s@.subrange(start as int, s@.len() as int),
            all_digits(d.subrange(0, i - start)),
            !overflow ==> value == digits_value(d.subrange(0, i - start)),
            overflow ==> digits_value(d.subrange(0, i - start)) > u64::MAX,
        decreases s@.len() - i,
    {
        let c = s[i];
        if c < 48 || c > 57 {
            assert(d[i - start] == c);
            return None;
        }
        let ghost k = (i - start) as int;
        assert(d.subrange(0, k + 1).drop_last() == d.subrange(0, k));
        assert(d.subrange(0, k + 1).last() == c);
        assert(all_digits(d.subrange(0, k + 1))) by {
            assert forall|j: int| 0 <= j < k + 1 implies 48 <= #[trigger] d.subrange(0, k + 1)[j] <= 57 by {
                if j < k {
                    assert(d.subrange(0, k + 1)[j] == d.subrange(0, k)[j]);
                }
            }
        }
        if !overflow {
            match value.checked_mul(10) {
                Some(t) => match t.checked_add((c - 48) as u64) {
                    Some(n) => {
                        value = n;
                    },
                    None => {
                        overflow = true;
                    },
                },
                None => {
                    overflow = true;
                },
            }
        }
        i = i + 1;
    }
    assert(d.subrange(0, d.len() as int) == d);
    if overflow {
        None
    } else {
        Some(value)
    }
}

} // verus!
