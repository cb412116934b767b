//! The sessions that a host has promoted, by their keys.

use crate::table::{
    distinct, lemma_map_absent, lemma_map_at, lemma_map_push, lemma_map_remove, lemma_map_size,
    lemma_map_update, map_of,
};
use crate::text::same;
use crate::throttle::PeerIp;
use crate::token::{all_hex, generate};
use vstd::prelude::*;
use vstd::string::*;

verus! {

/// How long a session lives without a sign of life, in nanoseconds: 300
/// seconds.
pub const SESSION_TTL: u64 = 300_000_000_000;

/// What is known of a session.
pub struct SessionView {
    pub user: Seq<char>,
    pub peer: PeerIp,
    pub created: u64,
    pub last_seen: u64,
}

/// A promoted session. Moments are nanoseconds of a clock that never goes back.
pub struct Session {
    pub user: String,
    pub peer: PeerIp,
    pub created: u64,
    /// Refreshed on every heartbeat round trip.
    pub last_seen: u64,
}

impl View for Session {
    type V = SessionView;

    open spec fn view(&self) -> SessionView {
        SessionView {
            user: self.user@,
            peer: self.peer,
            created: self.created,
            last_seen: self.last_seen,
        }
    }
}

impl Clone for Session {
    fn clone(&self) -> (r: Self)
        ensures
            r == *self,
    {
        Session {
            user: self.user.clone(),
            peer: self.peer,
            created: self.created,
            last_seen: self.last_seen,
        }
    }
}

/// Sessions by key.
pub type SessionMap = Map<Seq<char>, SessionView>;

/// A session that has shown life within its time.
pub open spec fn is_live(s: SessionView, now: u64) -> bool {
    s.last_seen + SESSION_TTL > now
}

/// The sessions that have shown life within their time.
pub open spec fn live_sessions(m: SessionMap, now: u64) -> SessionMap {
    Map::new(|k: Seq<char>| m.dom().contains(k) && is_live(m[k], now), |k: Seq<char>| m[k])
}

/// A new session.
pub open spec fn fresh_session(user: Seq<char>, peer: PeerIp, now: u64) -> SessionView {
    SessionView { user, peer, created: now, last_seen: now }
}

/// The sessions after one was opened: it is there, and those that outlived
/// their time are gone.
pub open spec fn after_open(
    m: SessionMap,
    key: Seq<char>,
    user: Seq<char>,
    peer: PeerIp,
    now: u64,
) -> SessionMap {
    live_sessions(m.insert(key, fresh_session(user, peer, now)), now)
}

/// There is such a session, and it has not outlived its time.
pub open spec fn is_known(m: SessionMap, key: Seq<char>, now: u64) -> bool {
    m.dom().contains(key) && is_live(m[key], now)
}

/// The sessions after a sign of life: it keeps a session that lives, and does
/// nothing for one that has outlived its time.
pub open spec fn after_touch(m: SessionMap, key: Seq<char>, now: u64) -> SessionMap {
    if is_known(m, key, now) {
        m.insert(key, SessionView { last_seen: now, ..m[key] })
    } else {
        m
    }
}

/// An opened session is found under its key; a sign of life within its time
/// keeps it, and one that comes later does not revive it; once it is closed it
/// is not found any more. Other sessions that live are untouched.
pub proof fn session_life(
    m: SessionMap,
    key: Seq<char>,
    user: Seq<char>,
    peer: PeerIp,
    now: u64,
    later: u64,
    other: Seq<char>,
)
    requires
        other != key,
    ensures
        ({
            let opened = after_open(m, key, user, peer, now);
            let touched = after_touch(opened, key, later);
            &&& opened.dom().contains(key)
            &&& opened[key] == fresh_session(user, peer, now)
            &&& touched.dom().contains(key)
            &&& touched[key].user == user
            &&& later < now + SESSION_TTL ==> touched[key].last_seen == later && is_known(
                touched,
                key,
                later,
            )
            &&& later >= now + SESSION_TTL ==> touched == opened && !is_known(touched, key, later)
            &&& !touched.remove(key).dom().contains(key)
            &&& after_touch(touched.remove(key), key, later) == touched.remove(key)
            &&& m.dom().contains(other) && is_live(m[other], now) ==> touched.remove(
                key,
            ).dom().contains(other) && touched.remove(key)[other] == m[other]
        }),
{
}

/// The sessions of a host.
pub struct Registry {
    entries: Vec<(String, Session)>,
}

spec fn session_list(s: Seq<(String, Session)>) -> Seq<(Seq<char>, SessionView)> {
    s.map_values(|e: (String, Session)| (e.0@, e.1@))
}

impl View for Registry {
    type V = SessionMap;

    closed spec fn view(&self) -> SessionMap {
        map_of(session_list(self.entries@))
    }
}

impl Registry {
    #[verifier::type_invariant]
    spec fn wf(self) -> bool {
        distinct(session_list(self.entries@))
    }

    /// No sessions yet.
    pub fn new() -> (r: Self)
        ensures
            r@ == SessionMap::empty(),
    {
        let r = Registry { entries: Vec::new() };
        assert(r@ =~= SessionMap::empty());
        r
    }

    fn position(&self, key: &str) -> (r: Option<usize>)
        ensures
            r is Some == self@.dom().contains(key@),
            r matches Some(i) ==> i < self.entries@.len() && self.entries@[i as int].0@ == key@
                && self@[key@] == self.entries@[i as int].1@,
    {
        proof {
            use_type_invariant(self);
        }
        let ghost list = session_list(self.entries@);
        let mut i: usize = 0;
        while i < self.entries.len()
            invariant
                list == session_list(self.entries@),
                distinct(list),
                i <= self.entries@.len(),
                forall|k: int| 0 <= k < i ==> (#[trigger] list[k]).0 != key@,
            decreases self.entries@.len() - i,
        {
            assert(list[i as int] == (self.entries@[i as int].0@, self.entries@[i as int].1@));
            if same(&self.entries[i].0, key) {
                proof {
                    lemma_map_at(list, i as int);
                }
                return Some(i);
            }
            i += 1;
        }
        proof {
            lemma_map_absent(list, key@);
        }
        None
    }

    /// Opens a session under a fresh key.
    pub fn open_session(&mut self, user: &str, peer: PeerIp, now: u64) -> (key: String)
        ensures
            key@.len() == 64,
            all_hex(key@),
            final(self)@ == after_open(old(self)@, key@, user@, peer, now),
    {
        let key = generate();
        self.open_with_key(&key, user, peer, now);
        key
    }

    /// Opens a session under the given key, and drops the sessions that have
    /// outlived their time.
    pub fn open_with_key(&mut self, key: &str, user: &str, peer: PeerIp, now: u64)
        ensures
            final(self)@ == after_open(old(self)@, key@, user@, peer, now),
    {
        let s = Session { user: String::from_str(user), peer, created: now, last_seen: now };
        self.put(key, s);
        self.sweep(now);
    }

    fn put(&mut self, key: &str, s: Session)
        ensures
            final(self)@ == old(self)@.insert(key@, s@),
    {
        proof {
            use_type_invariant(&*self);
        }
        let found = self.position(key);
        let mut entries: Vec<(String, Session)> = Vec::new();
        std::mem::swap(&mut entries, &mut self.entries);
        let ghost before = session_list(entries@);
        let ghost sv = s@;
        match found {
            Some(i) => {
                proof {
                    lemma_map_update(before, i as int, s@);
                }
                entries.set(i, (String::from_str(key), s));
                assert(session_list(entries@) =~= before.update(i as int, (key@, sv)));
            },
            None => {
                proof {
                    lemma_map_push(before, key@, s@);
                }
                entries.push((String::from_str(key), s));
                assert(session_list(entries@) =~= before.push((key@, sv)));
            },
        }
        self.entries = entries;
    }

    /// The session under a key; it is not used up.
    pub fn get(&self, key: &str) -> (r: Option<Session>)
        ensures
            r is Some == self@.dom().contains(key@),
            r matches Some(s) ==> s@ == self@[key@],
    {
        match self.position(key) {
            Some(i) => Some(self.entries[i].1.clone()),
            None => None,
        }
    }

    /// Notes a sign of life of a session. Gives whether there is such a session
    /// that has not outlived its time.
    pub fn touch(&mut self, key: &str, now: u64) -> (r: bool)
        ensures
            r == (old(self)@.dom().contains(key@) && is_live(old(self)@[key@], now)),
            r ==> final(self)@ == old(self)@.insert(
                key@,
                SessionView { last_seen: now, ..old(self)@[key@] },
            ),
            !r ==> final(self)@ == old(self)@,
            final(self)@ == after_touch(old(self)@, key@, now),
    {
        match self.get(key) {
            Some(s) => if s.last_seen > now || now - s.last_seen < SESSION_TTL {
                self.put(key, Session { last_seen: now, ..s });
                true
            } else {
                false
            },
            None => false,
        }
    }

    /// Forgets a session.
    pub fn close(&mut self, key: &str)
        ensures
            final(self)@ == old(self)@.remove(key@),
    {
        proof {
            use_type_invariant(&*self);
        }
        match self.position(key) {
            Some(i) => {
                let mut entries: Vec<(String, Session)> = Vec::new();
                std::mem::swap(&mut entries, &mut self.entries);
                let ghost before = session_list(entries@);
                proof {
                    lemma_map_remove(before, i as int);
                }
                entries.remove(i);
                assert(session_list(entries@) =~= before.remove(i as int));
                self.entries = entries;
            },
            None => {
                assert(self@.remove(key@) =~= self@);
            },
        }
    }

    /// Drops the sessions that have outlived their time.
    pub fn sweep(&mut self, now: u64)
        ensures
            final(self)@ == live_sessions(old(self)@, now),
    {
        proof {
            use_type_invariant(&*self);
        }
        let mut entries: Vec<(String, Session)> = Vec::new();
        std::mem::swap(&mut entries, &mut self.entries);
        let ghost all = session_list(entries@);
        let mut kept: Vec<(String, Session)> = Vec::new();
        let mut i: usize = 0;
        proof {
            assert(map_of(session_list(kept@)) =~= live_sessions(map_of(all.take(0)), now));
        }
        while i < entries.len()
            invariant
                all == session_list(entries@),
                distinct(all),
                i <= entries@.len(),
                distinct(session_list(kept@)),
                map_of(session_list(kept@)) == live_sessions(map_of(all.take(i as int)), now),
            decreases entries@.len() - i,
        {
            let ghost before = map_of(all.take(i as int));
            let ghost list = session_list(kept@);
            let ghost e = all[i as int];
            proof {
                assert(distinct(all.take(i as int)));
                assert(!before.dom().contains(e.0)) by {
                    lemma_map_absent(all.take(i as int), e.0);
                }
                lemma_map_push(all.take(i as int), e.0, e.1);
                assert(all.take(i + 1) =~= all.take(i as int).push(e));
            }
            let s = entries[i].1.clone();
            let alive = s.last_seen > now || now - s.last_seen < SESSION_TTL;
            if alive {
                let k = entries[i].0.clone();
                proof {
                    lemma_map_push(list, e.0, e.1);
                }
                kept.push((k, s));
                proof {
                    assert(session_list(kept@) =~= list.push(e));
                    assert(live_sessions(before.insert(e.0, e.1), now) =~= live_sessions(
                        before,
                        now,
                    ).insert(e.0, e.1));
                }
            } else {
                assert(live_sessions(before.insert(e.0, e.1), now) =~= live_sessions(before, now));
            }
            i += 1;
        }
        assert(all.take(i as int) =~= all);
        self.entries = kept;
    }

    /// How many sessions there are.
    pub fn active_count(&self) -> (n: usize)
        ensures
            n == self@.dom().len(),
            self@.dom().finite(),
    {
        proof {
            use_type_invariant(self);
            lemma_map_size(session_list(self.entries@));
        }
        self.entries.len()
    }
}

} // verus!
