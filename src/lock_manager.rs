use vstd::prelude::*;
use crate::byte_map::ByteMap;
use crate::storage::{db_key, make_db_key};

verus! {

/// How a key is held.
#[derive(Clone, Copy, Debug, PartialEq, Eq, Structural)]
pub enum LockMode {
    /// Many holders at once, none of them exclusive.
    Shared,
    /// One holder, alone.
    Exclusive,
}

/// Holders of one key.
#[derive(Clone, Copy, Debug, PartialEq, Eq, Structural)]
pub struct Holders {
    pub readers: u64,
    pub writer: bool,
}

impl View for Holders {
    type V = Holders;

    open spec fn view(&self) -> Holders {
        *self
    }
}

/// The holders of storage key `k`; nobody when it has no entry.
pub open spec fn holders_of(m: Map<Seq<u8>, Holders>, k: Seq<u8>) -> Holders {
    if m.contains_key(k) {
        m[k]
    } else {
        Holders { readers: 0, writer: false }
    }
}

/// Whether a request in `mode` can be granted beside `h`: exclusive excludes
/// every other holder; shared only excludes an exclusive one.
pub open spec fn compatible(h: Holders, mode: LockMode) -> bool {
    match mode {
        LockMode::Exclusive => h.readers == 0 && !h.writer,
        LockMode::Shared => !h.writer && h.readers < u64::MAX,
    }
}

/// `h` with one more holder in `mode`.
pub open spec fn with_holder(h: Holders, mode: LockMode) -> Holders {
    match mode {
        LockMode::Exclusive => Holders { readers: h.readers, writer: true },
        LockMode::Shared => Holders { readers: (h.readers + 1) as u64, writer: h.writer },
    }
}

/// Whether `h` includes a holder in `mode`.
pub open spec fn holds(h: Holders, mode: LockMode) -> bool {
    match mode {
        LockMode::Exclusive => h.writer,
        LockMode::Shared => h.readers > 0,
    }
}

/// `h` with one holder in `mode` fewer.
pub open spec fn without_holder(h: Holders, mode: LockMode) -> Holders {
    match mode {
        LockMode::Exclusive => Holders { readers: h.readers, writer: false },
        LockMode::Shared => Holders { readers: (h.readers - 1) as u64, writer: h.writer },
    }
}

/// Sets the holders of `k`; a key with no holder leaves the table.
pub open spec fn set_holders(m: Map<Seq<u8>, Holders>, k: Seq<u8>, h: Holders) -> Map<Seq<u8>, Holders> {
    if h.readers == 0 && !h.writer {
        m.remove(k)
    } else {
        m.insert(k, h)
    }
}

/// Per-key shared/exclusive locks, keyed by database id and key. Distinct
/// keys never share an entry, so they never contend.
pub struct LockTable {
    locks: ByteMap<Holders>,
}

impl View for LockTable {
    type V = Map<Seq<u8>, Holders>;

    closed spec fn view(&self) -> Map<Seq<u8>, Holders> {
        self.locks@
    }
}

impl LockTable {
    /// A table in which nothing is held.
    pub fn new() -> (r: LockTable)
        ensures
            r@ == Map::<Seq<u8>, Holders>::empty(),
    {
        LockTable { locks: ByteMap::new() }
    }

    /// Grants `key` of database `db` in `mode` when no holder conflicts, and
    /// reports whether it did; when it did not, nothing changes.
    pub fn try_lock(&mut self, db: u16, key: &[u8], mode: LockMode) -> (r: bool)
        ensures
            r == compatible(holders_of(old(self)@, db_key(db, key@)), mode),
            r ==> final(self)@ == set_holders(
                old(self)@,
                db_key(db, key@),
                with_holder(holders_of(old(self)@, db_key(db, key@)), mode),
            ),
            !r ==> final(self)@ == old(self)@,
    {
        let k = make_db_key(db, key);
        let h = match self.locks.get(k.as_slice()) {
            Some(h) => *h,
            None => Holders { readers: 0, writer: false },
        };
        let granted = match mode {
            LockMode::Exclusive => h.readers == 0 && !h.writer,
            LockMode::Shared => !h.writer && h.readers < u64::MAX,
        };
        if !granted {
            return false;
        }
        let nh = match mode {
            LockMode::Exclusive => Holders { readers: h.readers, writer: true },
            LockMode::Shared => Holders { readers: h.readers + 1, writer: h.writer },
        };
        self.locks.insert(k, nh);
        true
    }

    /// Gives back one grant of `key` in `mode`.
    pub fn unlock(&mut self, db: u16, key: &[u8], mode: LockMode)
        requires
            holds(holders_of(old(self)@, db_key(db, key@)), mode),
        ensures
            final(self)@ == set_holders(
                old(self)@,
                db_key(db, key@),
                without_holder(holders_of(old(self)@, db_key(db, key@)), mode),
            ),
    {
        let k = make_db_key(db, key);
        let h = match self.locks.get(k.as_slice()) {
            Some(h) => *h,
            None => Holders { readers: 0, writer: false },
        };
        let nh = match mode {
            LockMode::Exclusive => Holders { readers: h.readers, writer: false },
            LockMode::Shared => Holders { readers: h.readers - 1, writer: h.writer },
        };
        if nh.readers == 0 && !nh.writer {
            self.locks.remove(k.as_slice());
        } else {
            self.locks.insert(k, nh);
        }
    }
}

/// Taking a lock on a free key and giving it back leaves the table as it was.
pub proof fn lemma_lock_round_trip(m: Map<Seq<u8>, Holders>, k: Seq<u8>, mode: LockMode)
    requires
        !m.contains_key(k),
    ensures
        compatible(holders_of(m, k), mode),
        holds(holders_of(set_holders(m, k, with_holder(holders_of(m, k), mode)), k), mode),
        set_holders(
            set_holders(m, k, with_holder(holders_of(m, k), mode)),
            k,
            without_holder(holders_of(set_holders(m, k, with_holder(holders_of(m, k), mode)), k), mode),
        ) == m,
{
    let m1 = set_holders(m, k, with_holder(holders_of(m, k), mode));
    let m2 = set_holders(m1, k, without_holder(holders_of(m1, k), mode));
    assert(m2 =~= m);
}

} // verus!
