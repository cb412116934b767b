//! Throttling of failed logins, by the address they come from.

use crate::table::{
    distinct, lemma_map_absent, lemma_map_at, lemma_map_push, lemma_map_remove, lemma_map_update,
    map_of,
};
use vstd::prelude::*;

verus! {

/// Failures in a row that lock an address out.
pub const MAX_FAILS_PER_IP: u32 = 5;

/// How long an address stays locked out, in nanoseconds: 60 seconds.
pub const LOCKOUT: u64 = 60_000_000_000;

/// The address of a peer.
#[derive(Clone, Copy, Debug, PartialEq, Eq, Structural)]
pub enum PeerIp {
    V4(u32),
    V6(u128),
}

/// The failures of an address: how many since the last lockout or success, and
/// until when it is locked out. Moments are nanoseconds of a clock that never
/// goes back.
#[derive(Clone, Copy, Debug, PartialEq, Eq, Structural)]
pub struct FailEntry {
    pub count: u32,
    pub locked_until: Option<u64>,
}

/// The failures of all addresses that have any.
pub type Fails = Map<PeerIp, FailEntry>;

/// The failures of an address, which may have none.
pub open spec fn fails_of(m: Fails, ip: PeerIp) -> FailEntry {
    if m.dom().contains(ip) { m[ip] } else { FailEntry { count: 0, locked_until: None } }
}

/// The address is locked out at that moment.
pub open spec fn locked(m: Fails, ip: PeerIp, now: u64) -> bool {
    m.dom().contains(ip) && (m[ip].locked_until matches Some(t) && now < t)
}

/// One more failure at that moment.
pub open spec fn one_more(e: FailEntry, now: u64) -> FailEntry {
    if e.count + 1 >= MAX_FAILS_PER_IP {
        FailEntry { count: 0, locked_until: Some((now + LOCKOUT) as u64) }
    } else {
        FailEntry { count: (e.count + 1) as u32, locked_until: e.locked_until }
    }
}

/// The failures after one more of an address.
pub open spec fn after_fail(m: Fails, ip: PeerIp, now: u64) -> Fails {
    m.insert(ip, one_more(fails_of(m, ip), now))
}

/// The failures after several of an address, at these moments.
pub open spec fn after_fails(m: Fails, ip: PeerIp, times: Seq<u64>) -> Fails
    decreases times.len(),
{
    if times.len() == 0 {
        m
    } else {
        after_fail(after_fails(m, ip, times.drop_last()), ip, times.last())
    }
}

proof fn lemma_count(m: Fails, ip: PeerIp, times: Seq<u64>)
    requires
        !m.dom().contains(ip),
        times.len() < MAX_FAILS_PER_IP,
    ensures
        fails_of(after_fails(m, ip, times), ip) == (FailEntry {
            count: times.len() as u32,
            locked_until: None,
        }),
    decreases times.len(),
{
    if times.len() > 0 {
        lemma_count(m, ip, times.drop_last());
    }
}

/// An address without failures is not locked out by fewer than five in a row.
/// Five in a row lock it out for 60 seconds from the last, and no longer.
pub proof fn five_failures_lock(m: Fails, ip: PeerIp, times: Seq<u64>, now: u64)
    requires
        !m.dom().contains(ip),
        times.len() <= MAX_FAILS_PER_IP,
        forall|i: int| 0 <= i < times.len() ==> #[trigger] times[i] <= u64::MAX - LOCKOUT,
    ensures
        locked(after_fails(m, ip, times), ip, now) == (times.len() == MAX_FAILS_PER_IP && now
            < times.last() + LOCKOUT),
{
    if times.len() < MAX_FAILS_PER_IP {
        lemma_count(m, ip, times);
        let e = after_fails(m, ip, times);
        if e.dom().contains(ip) {
            assert(e[ip] == fails_of(e, ip));
        }
    } else {
        lemma_count(m, ip, times.drop_last());
    }
}

/// A success forgets all failures of the address: it is not locked out, and the
/// count starts anew.
pub proof fn success_clears(m: Fails, ip: PeerIp, now: u64)
    ensures
        !locked(m.remove(ip), ip, now),
        fails_of(m.remove(ip), ip).count == 0,
{
}

/// Failures and successes of one address leave every other as it was.
pub proof fn addresses_are_apart(m: Fails, ip: PeerIp, other: PeerIp, at: u64, now: u64)
    requires
        ip != other,
    ensures
        locked(after_fail(m, ip, at), other, now) == locked(m, other, now),
        locked(m.remove(ip), other, now) == locked(m, other, now),
        fails_of(after_fail(m, ip, at), other) == fails_of(m, other),
        fails_of(m.remove(ip), other) == fails_of(m, other),
{
}

/// The failed logins of a host.
pub struct Throttle {
    entries: Vec<(PeerIp, FailEntry)>,
}

impl View for Throttle {
    type V = Fails;

    closed spec fn view(&self) -> Fails {
        map_of(self.entries@)
    }
}

impl Throttle {
    #[verifier::type_invariant]
    spec fn wf(self) -> bool {
        distinct(self.entries@) && forall|i: int|
            0 <= i < self.entries@.len() ==> (#[trigger] self.entries@[i]).1.count
                < MAX_FAILS_PER_IP
    }

    /// No failures yet.
    pub fn new() -> (r: Self)
        ensures
            r@ == Fails::empty(),
    {
        let r = Throttle { entries: Vec::new() };
        assert(r@ =~= Fails::empty());
        r
    }

    fn position(&self, ip: PeerIp) -> (r: Option<usize>)
        ensures
            r is Some == self@.dom().contains(ip),
            r matches Some(i) ==> i < self.entries@.len() && self.entries@[i as int].0 == ip
                && self@[ip] == self.entries@[i as int].1,
    {
        proof {
            use_type_invariant(self);
        }
        let mut i: usize = 0;
        while i < self.entries.len()
            invariant
                distinct(self.entries@),
                i <= self.entries@.len(),
                forall|k: int| 0 <= k < i ==> (#[trigger] self.entries@[k]).0 != ip,
            decreases self.entries@.len() - i,
        {
            if self.entries[i].0 == ip {
                proof {
                    lemma_map_at(self.entries@, i as int);
                }
                return Some(i);
            }
            i += 1;
        }
        proof {
            lemma_map_absent(self.entries@, ip);
        }
        None
    }

    /// Whether the address is locked out.
    pub fn is_locked(&self, ip: PeerIp, now: u64) -> (r: bool)
        ensures
            r == locked(self@, ip, now),
    {
        match self.position(ip) {
            Some(i) => match self.entries[i].1.locked_until {
                Some(t) => now < t,
                None => false,
            },
            None => false,
        }
    }

    /// Counts a failure. Gives whether it locks the address out.
    pub fn record_fail(&mut self, ip: PeerIp, now: u64) -> (r: bool)
        requires
            now <= u64::MAX - LOCKOUT,
        ensures
            final(self)@ == after_fail(old(self)@, ip, now),
            r == (fails_of(old(self)@, ip).count + 1 >= MAX_FAILS_PER_IP),
    {
        proof {
            use_type_invariant(&*self);
        }
        let found = self.position(ip);
        let mut entries: Vec<(PeerIp, FailEntry)> = Vec::new();
        std::mem::swap(&mut entries, &mut self.entries);
        let ghost before = entries@;
        let e = match found {
            Some(i) => entries[i].1,
            None => FailEntry { count: 0, locked_until: None },
        };
        let count: u32 = e.count + 1;
        let locks = count >= MAX_FAILS_PER_IP;
        let next = if locks {
            FailEntry { count: 0, locked_until: Some(now + LOCKOUT) }
        } else {
            FailEntry { count, locked_until: e.locked_until }
        };
        match found {
            Some(i) => {
                proof {
                    lemma_map_update(before, i as int, next);
                }
                entries.set(i, (ip, next));
            },
            None => {
                proof {
                    lemma_map_push(before, ip, next);
                }
                entries.push((ip, next));
            },
        }
        self.entries = entries;
        locks
    }

    /// Forgets the failures of an address.
    pub fn record_success(&mut self, ip: PeerIp)
        ensures
            final(self)@ == old(self)@.remove(ip),
    {
        proof {
            use_type_invariant(&*self);
        }
        match self.position(ip) {
            Some(i) => {
                let mut entries: Vec<(PeerIp, FailEntry)> = Vec::new();
                std::mem::swap(&mut entries, &mut self.entries);
                proof {
                    lemma_map_remove(entries@, i as int);
                }
                entries.remove(i);
                self.entries = entries;
            },
            None => {
                assert(self@.remove(ip) =~= self@);
            },
        }
    }
}

} // verus!
