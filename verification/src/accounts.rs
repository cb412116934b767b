//! The accounts of a host and the state that it keeps of itself.

use crate::text::{
    lemma_lex_asymmetric, lemma_lex_irreflexive, lemma_lex_total, lemma_lex_transitive, lex_less,
    same, text_less, texts,
};
use vstd::prelude::*;
use vstd::string::*;

verus! {

/// The role of ordinary accounts.
pub const ROLE_USER: &'static str = "user";

/// The role of accounts that may run elevated commands.
pub const ROLE_ADMIN: &'static str = "admin";

/// What an account holds.
pub struct UserView {
    pub pw_salt: Seq<char>,
    pub pw_hash: Seq<char>,
    pub licensed: bool,
    pub token_hash: Seq<char>,
    pub role: Seq<char>,
}

impl UserView {
    /// An account with nothing in it.
    pub open spec fn blank() -> UserView {
        UserView {
            pw_salt: Seq::empty(),
            pw_hash: Seq::empty(),
            licensed: false,
            token_hash: Seq::empty(),
            role: Seq::empty(),
        }
    }

    pub open spec fn admin(self) -> bool {
        self.role == "admin"@
    }
}

/// One account: the salted password hash, whether a token was ever issued, the
/// hash of that token, and the role, `user` or `admin`. Admins may run elevated
/// commands on the remote terminal channel; standard users cannot.
pub struct UserRecord {
    pub pw_salt: String,
    pub pw_hash: String,
    pub licensed: bool,
    pub token_hash: String,
    pub role: String,
}

impl View for UserRecord {
    type V = UserView;

    open spec fn view(&self) -> UserView {
        UserView {
            pw_salt: self.pw_salt@,
            pw_hash: self.pw_hash@,
            licensed: self.licensed,
            token_hash: self.token_hash@,
            role: self.role@,
        }
    }
}

impl Clone for UserRecord {
    fn clone(&self) -> (r: Self)
        ensures
            r == *self,
    {
        UserRecord {
            pw_salt: self.pw_salt.clone(),
            pw_hash: self.pw_hash.clone(),
            licensed: self.licensed,
            token_hash: self.token_hash.clone(),
            role: self.role.clone(),
        }
    }
}

impl Default for UserRecord {
    fn default() -> (r: Self)
        ensures
            r@ == UserView::blank(),
    {
        let r = UserRecord {
            pw_salt: String::new(),
            pw_hash: String::new(),
            licensed: false,
            token_hash: String::new(),
            role: String::new(),
        };
        assert(r@.pw_salt =~= Seq::empty());
        assert(r@.pw_hash =~= Seq::empty());
        assert(r@.token_hash =~= Seq::empty());
        assert(r@.role =~= Seq::empty());
        r
    }
}

impl UserRecord {
    /// Whether the account may run elevated commands.
    pub fn is_admin(&self) -> (r: bool)
        ensures
            r == self@.admin(),
    {
        same(&self.role, ROLE_ADMIN)
    }
}

/// Accounts by name, in the order of their names.
pub type UserList = Seq<(Seq<char>, UserView)>;

/// The names rise strictly: each occurs once.
pub open spec fn names_rise(users: UserList) -> bool {
    forall|i: int, j: int| 0 <= i < j < users.len() ==> lex_less(#[trigger] users[i].0, #[trigger] users[j].0)
}

/// How many accounts stand before the name.
pub open spec fn rank(users: UserList, name: Seq<char>) -> nat
    decreases users.len(),
{
    if users.len() > 0 && lex_less(users[0].0, name) {
        1 + rank(users.drop_first(), name)
    } else {
        0
    }
}

/// The account of that name.
pub open spec fn lookup(users: UserList, name: Seq<char>) -> Option<UserView> {
    let k = rank(users, name) as int;
    if k < users.len() && users[k].0 == name {
        Some(users[k].1)
    } else {
        None
    }
}

/// The accounts with the one of that name added or replaced.
pub open spec fn with_user(users: UserList, name: Seq<char>, rec: UserView) -> UserList {
    let k = rank(users, name) as int;
    if k < users.len() && users[k].0 == name {
        users.update(k, (name, rec))
    } else {
        users.insert(k, (name, rec))
    }
}

pub proof fn lemma_rank(users: UserList, name: Seq<char>)
    requires
        names_rise(users),
    ensures
        rank(users, name) <= users.len(),
        forall|i: int| 0 <= i < rank(users, name) ==> lex_less(#[trigger] users[i].0, name),
        forall|i: int|
            rank(users, name) <= i < users.len() ==> (#[trigger] users[i].0 == name || lex_less(
                name,
                users[i].0,
            )),
        forall|i: int| rank(users, name) < i < users.len() ==> #[trigger] users[i].0 != name,
    decreases users.len(),
{
    if users.len() > 0 && lex_less(users[0].0, name) {
        let t = users.drop_first();
        assert(names_rise(t)) by {
            assert forall|i: int, j: int| 0 <= i < j < t.len() implies lex_less(
                #[trigger] t[i].0,
                #[trigger] t[j].0,
            ) by {
                assert(t[i] == users[i + 1] && t[j] == users[j + 1]);
            }
        }
        lemma_rank(t, name);
        assert forall|i: int| 0 <= i < rank(users, name) implies lex_less(
            #[trigger] users[i].0,
            name,
        ) by {
            if i > 0 {
                assert(users[i] == t[i - 1]);
            }
        }
        assert forall|i: int| rank(users, name) <= i < users.len() implies (#[trigger] users[i].0
            == name || lex_less(name, users[i].0)) && (i > rank(users, name) ==> users[i].0
            != name) by {
            assert(users[i] == t[i - 1]);
        }
    } else if users.len() > 0 {
        assert forall|i: int| 0 <= i < users.len() implies (#[trigger] users[i].0 == name
            || lex_less(name, users[i].0)) && (i > 0 ==> users[i].0 != name) by {
            lemma_lex_total(users[0].0, name);
            if i > 0 {
                assert(lex_less(users[0].0, users[i].0));
                if users[0].0 != name {
                    lemma_lex_transitive(name, users[0].0, users[i].0);
                }
                lemma_lex_irreflexive(name);
            }
        }
    }
}

/// A position with the properties of the rank is the rank.
pub proof fn lemma_rank_is(users: UserList, name: Seq<char>, k: int)
    requires
        0 <= k <= users.len(),
        forall|i: int| 0 <= i < k ==> lex_less(#[trigger] users[i].0, name),
        k < users.len() ==> !lex_less(users[k].0, name),
    ensures
        rank(users, name) == k,
    decreases k,
{
    if k > 0 {
        let t = users.drop_first();
        assert(lex_less(users[0].0, name));
        assert forall|i: int| 0 <= i < k - 1 implies lex_less(#[trigger] t[i].0, name) by {
            assert(t[i] == users[i + 1]);
        }
        lemma_rank_is(t, name, k - 1);
    }
}

/// Adding or replacing an account keeps the names rising.
pub proof fn lemma_with_user(users: UserList, name: Seq<char>, rec: UserView)
    requires
        names_rise(users),
    ensures
        names_rise(with_user(users, name, rec)),
{
    lemma_rank(users, name);
    let k = rank(users, name) as int;
    let u = with_user(users, name, rec);
    if k < users.len() && users[k].0 == name {
        assert forall|i: int, j: int| 0 <= i < j < u.len() implies lex_less(
            #[trigger] u[i].0,
            #[trigger] u[j].0,
        ) by {
            assert(u[i].0 == users[i].0 && u[j].0 == users[j].0);
        }
    } else {
        assert forall|i: int, j: int| 0 <= i < j < u.len() implies lex_less(
            #[trigger] u[i].0,
            #[trigger] u[j].0,
        ) by {
            let a = if i < k { i } else { i - 1 };
            let b = if j < k { j } else { j - 1 };
            if i != k {
                assert(u[i] == users[a]);
            }
            if j != k {
                assert(u[j] == users[b]);
            }
            if i != k && j != k {
                assert(lex_less(users[a].0, users[b].0));
            }
        }
    }
}

/// After an account is added or replaced, its name finds it, and every other
/// name finds what it found before.
pub proof fn inserted_user_is_found(
    users: UserList,
    name: Seq<char>,
    rec: UserView,
    other: Seq<char>,
)
    requires
        names_rise(users),
    ensures
        lookup(with_user(users, name, rec), name) == Some(rec),
        other != name ==> lookup(with_user(users, name, rec), other) == lookup(users, other),
{
    lemma_rank(users, name);
    lemma_with_user(users, name, rec);
    let k = rank(users, name) as int;
    let u = with_user(users, name, rec);
    lemma_lex_irreflexive(name);
    assert forall|i: int| 0 <= i < k implies lex_less(#[trigger] u[i].0, name) by {
        assert(u[i] == users[i]);
    }
    lemma_rank_is(u, name, k);
    if other != name {
        lemma_rank(users, other);
        lemma_rank(u, other);
        let m = rank(users, other) as int;
        let n = rank(u, other) as int;
        lemma_lex_total(name, other);
        let replaced = k < users.len() && users[k].0 == name;
        let want = if replaced || lex_less(other, name) { m } else { m + 1 };
        lemma_lex_asymmetric(name, other);
        lemma_lex_irreflexive(other);
        if !replaced && lex_less(other, name) && k < m {
            lemma_lex_transitive(users[k].0, other, name);
            lemma_lex_asymmetric(users[k].0, name);
        }
        if !replaced && lex_less(name, other) && m < k {
            lemma_lex_transitive(users[m].0, name, other);
            lemma_lex_asymmetric(users[m].0, other);
        }
        assert forall|i: int| 0 <= i < want implies lex_less(#[trigger] u[i].0, other) by {
            if replaced {
                assert(u[i].0 == users[i].0);
            } else if i < k {
                assert(u[i] == users[i]);
            } else if i > k {
                assert(u[i] == users[i - 1]);
            }
        }
        if want < u.len() {
            lemma_lex_asymmetric(u[want].0, other);
            if replaced {
                assert(u[want].0 == users[want].0);
            } else if want < k {
                assert(u[want] == users[want]);
            } else if want > k {
                assert(u[want] == users[want - 1]);
            }
        }
        lemma_rank_is(u, other, want);
    }
}

/// The accounts of a host, by name and in the order of the names.
pub struct Users {
    entries: Vec<(String, UserRecord)>,
}

impl View for Users {
    type V = UserList;

    closed spec fn view(&self) -> UserList {
        self.entries@.map_values(|e: (String, UserRecord)| (e.0@, e.1@))
    }
}

impl Users {
    #[verifier::type_invariant]
    spec fn wf(self) -> bool {
        names_rise(self@)
    }

    /// No accounts.
    pub fn new() -> (r: Self)
        ensures
            r@ == UserList::empty(),
    {
        let r = Users { entries: Vec::new() };
        assert(r@ =~= UserList::empty());
        r
    }

    /// How many accounts there are. Their names rise, in every list.
    pub fn len(&self) -> (n: usize)
        ensures
            n == self@.len(),
            names_rise(self@),
    {
        proof {
            use_type_invariant(self);
        }
        self.entries.len()
    }

    pub fn is_empty(&self) -> (r: bool)
        ensures
            r == (self@.len() == 0),
    {
        self.entries.len() == 0
    }

    /// The name and the record at a position.
    pub fn entry(&self, i: usize) -> (r: (&str, &UserRecord))
        requires
            i < self@.len(),
        ensures
            (r.0@, r.1@) == self@[i as int],
    {
        let e = &self.entries[i];
        (e.0.as_str(), &e.1)
    }

    fn position(&self, name: &str) -> (k: usize)
        ensures
            k == rank(self@, name@),
            k <= self@.len(),
    {
        let mut k: usize = 0;
        while k < self.entries.len() && text_less(&self.entries[k].0, name)
            invariant
                k <= self.entries@.len(),
                forall|i: int| 0 <= i < k ==> lex_less(#[trigger] self@[i].0, name@),
            decreases self.entries@.len() - k,
        {
            assert(self@[k as int].0 == self.entries@[k as int].0@);
            k += 1;
        }
        proof {
            if k < self.entries.len() {
                assert(self@[k as int].0 == self.entries@[k as int].0@);
            }
            lemma_rank_is(self@, name@, k as int);
        }
        k
    }

    /// The account of that name.
    pub fn get(&self, name: &str) -> (r: Option<&UserRecord>)
        ensures
            r is Some == lookup(self@, name@) is Some,
            r matches Some(u) ==> lookup(self@, name@) == Some(u@),
    {
        let k: usize = self.position(name);
        if k < self.entries.len() && same(&self.entries[k].0, name) {
            Some(&self.entries[k].1)
        } else {
            None
        }
    }

    pub fn contains_key(&self, name: &str) -> (r: bool)
        ensures
            r == lookup(self@, name@) is Some,
    {
        self.get(name).is_some()
    }

    /// Adds the account, or replaces the one of that name.
    pub fn insert(&mut self, name: String, rec: UserRecord)
        ensures
            final(self)@ == with_user(old(self)@, name@, rec@),
            names_rise(final(self)@),
    {
        proof {
            use_type_invariant(&*self);
            lemma_with_user(self@, name@, rec@);
        }
        let k: usize = self.position(&name);
        let found = k < self.entries.len() && same(&self.entries[k].0, &name);
        let ghost before = self@;
        let ghost want = with_user(before, name@, rec@);
        let mut entries: Vec<(String, UserRecord)> = Vec::new();
        std::mem::swap(&mut entries, &mut self.entries);
        assert(forall|i: int| 0 <= i < entries@.len() ==> before[i] == (#[trigger] entries@[i].0@, entries@[i].1@));
        if found {
            entries.set(k, (name, rec));
        } else {
            entries.insert(k, (name, rec));
        }
        proof {
            let now = entries@.map_values(|e: (String, UserRecord)| (e.0@, e.1@));
            assert(now =~= want);
        }
        self.entries = entries;
    }
}

impl Clone for Users {
    fn clone(&self) -> (r: Self)
        ensures
            r@ == self@,
    {
        proof {
            use_type_invariant(self);
        }
        let mut entries: Vec<(String, UserRecord)> = Vec::new();
        let mut i: usize = 0;
        while i < self.entries.len()
            invariant
                i <= self.entries@.len(),
                entries@ == self.entries@.take(i as int),
            decreases self.entries@.len() - i,
        {
            entries.push((self.entries[i].0.clone(), self.entries[i].1.clone()));
            i += 1;
            assert(entries@ =~= self.entries@.take(i as int));
        }
        assert(entries@ =~= self.entries@);
        Users { entries }
    }
}

impl Default for Users {
    fn default() -> (r: Self)
        ensures
            r@ == UserList::empty(),
    {
        Users::new()
    }
}

/// What a host keeps of itself.
pub struct StateView {
    pub enabled: bool,
    pub users: UserList,
    pub ip_whitelist: Seq<Seq<char>>,
    pub allow_all_ips: bool,
}

impl StateView {
    /// A host that is not set up: closed, with no accounts and no addresses.
    pub open spec fn blank() -> StateView {
        StateView {
            enabled: false,
            users: Seq::empty(),
            ip_whitelist: Seq::empty(),
            allow_all_ips: false,
        }
    }
}

/// The state that a host keeps: whether it takes connections, its accounts, and
/// the addresses that may connect.
pub struct HostState {
    pub enabled: bool,
    pub users: Users,
    pub ip_whitelist: Vec<String>,
    pub allow_all_ips: bool,
}

impl View for HostState {
    type V = StateView;

    open spec fn view(&self) -> StateView {
        StateView {
            enabled: self.enabled,
            users: self.users@,
            ip_whitelist: texts(self.ip_whitelist@),
            allow_all_ips: self.allow_all_ips,
        }
    }
}

/// A copy of a list of texts.
pub fn copy_texts(v: &Vec<String>) -> (r: Vec<String>)
    ensures
        r@ == v@,
{
    let mut r: Vec<String> = Vec::new();
    let mut i: usize = 0;
    while i < v.len()
        invariant
            i <= v@.len(),
            r@ == v@.take(i as int),
        decreases v@.len() - i,
    {
        r.push(v[i].clone());
        i += 1;
        assert(r@ =~= v@.take(i as int));
    }
    assert(r@ =~= v@);
    r
}

impl Clone for HostState {
    fn clone(&self) -> (r: Self)
        ensures
            r@ == self@,
    {
        HostState {
            enabled: self.enabled,
            users: self.users.clone(),
            ip_whitelist: copy_texts(&self.ip_whitelist),
            allow_all_ips: self.allow_all_ips,
        }
    }
}

impl Default for HostState {
    fn default() -> (r: Self)
        ensures
            r@ == StateView::blank(),
    {
        let r = HostState {
            enabled: false,
            users: Users::new(),
            ip_whitelist: Vec::new(),
            allow_all_ips: false,
        };
        assert(r@.ip_whitelist =~= Seq::empty());
        r
    }
}

} // verus!
