use vstd::prelude::*;

verus! {

/// The kind of value that a key holds.
#[derive(Clone, Copy, Debug, PartialEq, Eq, Structural)]
pub enum ValueType {
    Str,
    List,
    Hash,
    UnorderedSet,
}

/// When a key expires: never, or at an absolute deadline in milliseconds.
#[derive(Clone, Copy, Debug, PartialEq, Eq, Structural)]
pub struct Expiration {
    pub deadline_ms: Option<u64>,
}

/// A deadline has passed once the clock reaches it.
pub open spec fn expired(deadline: Option<u64>, now_ms: u64) -> bool {
    match deadline {
        Some(d) => d <= now_ms,
        None => false,
    }
}

/// Whole seconds left before `deadline`, never negative.
pub open spec fn remaining_seconds(deadline: u64, now_ms: u64) -> nat {
    if deadline <= now_ms {
        0
    } else {
        ((deadline - now_ms) / 1000) as nat
    }
}

/// The deadline that a TTL of `seconds` set at `now_ms` gives, when it fits in a `u64`.
pub open spec fn deadline_after(now_ms: u64, seconds: u64) -> Option<u64> {
    if now_ms + seconds * 1000 <= u64::MAX {
        Some((now_ms + seconds * 1000) as u64)
    } else {
        None
    }
}

impl Expiration {
    /// No deadline.
    pub fn persistent() -> (r: Expiration)
        ensures
            r.deadline_ms is None,
    {
        Expiration { deadline_ms: None }
    }

    /// Whether a deadline is set.
    pub fn has_ttl(&self) -> (r: bool)
        ensures
            r == self.deadline_ms is Some,
    {
        self.deadline_ms.is_some()
    }

    /// Whether the deadline has passed at `now_ms`.
    pub fn is_expired(&self, now_ms: u64) -> (r: bool)
        ensures
            r == expired(self.deadline_ms, now_ms),
    {
        match self.deadline_ms {
            Some(d) => d <= now_ms,
            None => false,
        }
    }

    /// Seconds left before the deadline, clamped at zero.
    pub fn ttl_in_seconds(&self, now_ms: u64) -> (r: u64)
        requires
            self.deadline_ms is Some,
        ensures
            r == remaining_seconds(self.deadline_ms->0, now_ms),
    {
        let d = self.deadline_ms.unwrap();
        if d <= now_ms {
            0
        } else {
            (d - now_ms) / 1000
        }
    }

    /// Sets the deadline `seconds` after `now_ms`; returns false, and keeps
    /// the deadline, when that instant does not fit in a `u64`.
    pub fn set_ttl_seconds(&mut self, seconds: u64, now_ms: u64) -> (r: bool)
        ensures
            r == deadline_after(now_ms, seconds) is Some,
            r ==> final(self).deadline_ms == deadline_after(now_ms, seconds),
            !r ==> *final(self) == *old(self),
    {
        if seconds > (u64::MAX - now_ms) / 1000 {
            assert(now_ms + seconds * 1000 > u64::MAX) by (nonlinear_arith)
                requires
                    seconds > (u64::MAX - now_ms) / 1000,
                    now_ms <= u64::MAX,
            ;
            return false;
        }
        assert(seconds * 1000 <= u64::MAX - now_ms) by (nonlinear_arith)
            requires
                seconds <= (u64::MAX - now_ms) / 1000,
                now_ms <= u64::MAX,
        ;
        self.deadline_ms = Some(now_ms + seconds * 1000);
        true
    }
}

/// The condition under which `EXPIRE` replaces a TTL.
#[derive(Clone, Copy, Debug, PartialEq, Eq, Structural)]
pub enum ExpireCondition {
    Always,
    /// Only when no TTL is set.
    Nx,
    /// Only when a TTL is set.
    Xx,
    /// Only when the new TTL exceeds the one left.
    Gt,
    /// Only when the new TTL is below the one left.
    Lt,
}

/// Whether `EXPIRE` with `cond` and `seconds` replaces the deadline `current`.
/// A key with no deadline ranks below every finite TTL for `Gt`, so it always
/// passes there, and never passes `Lt`.
pub open spec fn expire_allowed(cond: ExpireCondition, current: Option<u64>, now_ms: u64, seconds: u64) -> bool {
    match cond {
        ExpireCondition::Always => true,
        ExpireCondition::Nx => current is None,
        ExpireCondition::Xx => current is Some,
        ExpireCondition::Gt => match current {
            None => true,
            Some(d) => seconds > remaining_seconds(d, now_ms),
        },
        ExpireCondition::Lt => match current {
            None => false,
            Some(d) => seconds < remaining_seconds(d, now_ms),
        },
    }
}

/// Decides whether `EXPIRE` with `cond` and `seconds` replaces `current`.
pub fn should_expire(cond: ExpireCondition, current: &Expiration, now_ms: u64, seconds: u64) -> (r: bool)
    ensures
        r == expire_allowed(cond, current.deadline_ms, now_ms, seconds),
{
    match cond {
        ExpireCondition::Always => true,
        ExpireCondition::Nx => !current.has_ttl(),
        ExpireCondition::Xx => current.has_ttl(),
        ExpireCondition::Gt => !current.has_ttl() || seconds > current.ttl_in_seconds(now_ms),
        ExpireCondition::Lt => current.has_ttl() && seconds < current.ttl_in_seconds(now_ms),
    }
}

} // verus!
