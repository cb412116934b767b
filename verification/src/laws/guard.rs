//! Guards of the host: failed logins and the lives of sessions.

use crate::sessions::{Registry, Session};
use crate::throttle::{PeerIp, Throttle, fails_of};
use crate::token::all_hex;
use vstd::prelude::*;
use vstd::string::*;

verus! {

// ---------------------------------------------------------------- failed logins

/// An address that failed less than five times in a row is not locked out. The
/// fifth failure locks it out for 60 seconds from then on, and says so; the
/// count then starts anew.
pub proof fn the_fifth_failure_locks(
    t: &mut Throttle,
    ip: PeerIp,
    at: u64,
    r: bool,
    now: u64,
    before: bool,
    after: bool,
)
    requires
        at + 60_000_000_000 <= u64::MAX,
        call_ensures(Throttle::record_fail, (t, ip, at), r),
        call_ensures(Throttle::is_locked, (&*old(t), ip, now), before),
        call_ensures(Throttle::is_locked, (&*final(t), ip, now), after),
    ensures
        r <==> fails_of(old(t)@, ip).count >= 4,
        r ==> (after <==> now < at + 60_000_000_000) && fails_of(final(t)@, ip).count == 0,
        !r ==> after == before && fails_of(final(t)@, ip).count == fails_of(old(t)@, ip).count + 1,
{
}

/// An address that has not failed, or has succeeded, is not locked out, and its
/// count starts at none.
pub proof fn success_starts_anew(
    t: &mut Throttle,
    u: Throttle,
    ip: PeerIp,
    now: u64,
    a: bool,
    b: bool,
)
    requires
        call_ensures(Throttle::record_success, (t, ip), ()),
        call_ensures(Throttle::new, (), u),
        call_ensures(Throttle::is_locked, (&*final(t), ip, now), a),
        call_ensures(Throttle::is_locked, (&u, ip, now), b),
    ensures
        !a,
        !b,
        fails_of(final(t)@, ip).count == 0,
        fails_of(u@, ip).count == 0,
{
}

/// What one address does leaves every other as it was.
pub proof fn addresses_do_not_touch(
    t: &mut Throttle,
    u: &mut Throttle,
    ip: PeerIp,
    other: PeerIp,
    at: u64,
    r: bool,
    now: u64,
    a: bool,
    b: bool,
    c: bool,
)
    requires
        ip != other,
        *old(t) == *old(u),
        call_ensures(Throttle::record_fail, (t, ip, at), r),
        call_ensures(Throttle::record_success, (u, ip), ()),
        call_ensures(Throttle::is_locked, (&*old(t), other, now), a),
        call_ensures(Throttle::is_locked, (&*final(t), other, now), b),
        call_ensures(Throttle::is_locked, (&*final(u), other, now), c),
    ensures
        a == b,
        a == c,
        fails_of(final(t)@, other) == fails_of(old(t)@, other),
        fails_of(final(u)@, other) == fails_of(old(t)@, other),
{
}

// ---------------------------------------------------------------- sessions

/// An opened session is found under its key, with its user and peer; a sign of
/// life within 300 seconds of the last keeps it, a later one does not; sessions
/// that showed none for 300 seconds go when another is opened or when they are
/// swept, and no other does.
pub proof fn sessions_live_by_signs_of_life(
    t: &mut Registry,
    key: &str,
    user: &str,
    peer: PeerIp,
    now: u64,
    got: Option<Session>,
    u: &mut Registry,
    later: u64,
    alive: bool,
    again: Option<Session>,
)
    requires
        call_ensures(Registry::open_with_key, (t, key, user, peer, now), ()),
        call_ensures(Registry::get, (&*final(t), key), got),
        *old(u) == *final(t),
        call_ensures(Registry::touch, (u, key, later), alive),
        call_ensures(Registry::get, (&*final(u), key), again),
    ensures
        got matches Some(s) && s.user@ == user@ && s.peer == peer && s.created == now && s.last_seen
            == now,
        alive <==> later < now + 300_000_000_000,
        again matches Some(s) && s.user@ == user@ && s.peer == peer && s.created == now
            && s.last_seen == (if alive { later } else { now }),
{
}

/// Opening and sweeping drop exactly the sessions that have shown no sign of
/// life for 300 seconds; a session that is closed is not found any more, and
/// closing touches no other.
pub proof fn silent_sessions_go(
    t: &mut Registry,
    u: &mut Registry,
    v: &mut Registry,
    key: &str,
    user: &str,
    peer: PeerIp,
    now: u64,
    other: &str,
    before: Option<Session>,
    opened: Option<Session>,
    swept: Option<Session>,
    closed: Option<Session>,
    gone: Option<Session>,
)
    requires
        *old(t) == *old(u),
        *old(t) == *old(v),
        other@ != key@,
        call_ensures(Registry::open_with_key, (t, key, user, peer, now), ()),
        call_ensures(Registry::sweep, (u, now), ()),
        call_ensures(Registry::close, (v, key), ()),
        call_ensures(Registry::get, (&*old(t), other), before),
        call_ensures(Registry::get, (&*final(t), other), opened),
        call_ensures(Registry::get, (&*final(u), other), swept),
        call_ensures(Registry::get, (&*final(v), other), closed),
        call_ensures(Registry::get, (&*final(v), key), gone),
    ensures
        opened is Some <==> (before matches Some(s) && now < s.last_seen + 300_000_000_000),
        swept is Some <==> (before matches Some(s) && now < s.last_seen + 300_000_000_000),
        opened matches Some(s) ==> s@ == before->0@,
        swept matches Some(s) ==> s@ == before->0@,
        closed is Some <==> before is Some,
        closed matches Some(s) ==> s@ == before->0@,
        gone is None,
{
}

/// A sign of life of a session that is not there does nothing, and one session's
/// signs of life do nothing for another.
pub proof fn signs_of_life_are_for_one_session(
    t: &mut Registry,
    key: &str,
    now: u64,
    alive: bool,
    other: &str,
    a: Option<Session>,
    b: Option<Session>,
)
    requires
        call_ensures(Registry::touch, (t, key, now), alive),
        other@ != key@,
        call_ensures(Registry::get, (&*old(t), other), a),
        call_ensures(Registry::get, (&*final(t), other), b),
    ensures
        !old(t)@.dom().contains(key@) ==> !alive && final(t)@ == old(t)@,
        a is Some <==> b is Some,
        b matches Some(s) ==> s@ == a->0@,
{
}

/// There are as many sessions as were opened and have not gone.
pub proof fn sessions_are_counted(t: &mut Registry, key: &str, n: usize, m: usize)
    requires
        call_ensures(Registry::active_count, (&*old(t),), n),
        call_ensures(Registry::close, (t, key), ()),
        call_ensures(Registry::active_count, (&*final(t),), m),
    ensures
        old(t)@.dom().contains(key@) ==> m == n - 1,
        !old(t)@.dom().contains(key@) ==> m == n,
{
    assert(final(t)@.dom() =~= old(t)@.dom().remove(key@));
    if !old(t)@.dom().contains(key@) {
        assert(final(t)@.dom() =~= old(t)@.dom());
    }
}

/// A registry starts without sessions; a session opens under a key of 64 digits
/// that was drawn for it.
pub proof fn sessions_open_under_drawn_keys(
    n: Registry,
    t: &mut Registry,
    user: &str,
    peer: PeerIp,
    now: u64,
    key: String,
    k: &str,
    got: Option<Session>,
    none: Option<Session>,
)
    requires
        call_ensures(Registry::new, (), n),
        call_ensures(Registry::open_session, (t, user, peer, now), key),
        k@ == key@,
        call_ensures(Registry::get, (&*final(t), k), got),
        call_ensures(Registry::get, (&n, k), none),
    ensures
        none is None,
        key@.len() == 64 && all_hex(key@),
        got matches Some(s) && s.user@ == user@ && s.peer == peer && s.created == now && s.last_seen
            == now,
{
}

} // verus!
