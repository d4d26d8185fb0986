//! The session manager and its credential store: user registration,
//! login with a lazy expired-session sweep, token validation, logout
//! and the "who am I" join. A session is valid iff it exists and its
//! expiry is absent or still in the future; any lookup failure counts
//! as unauthenticated, never as authenticated.

use vstd::prelude::*;
use crate::errors::StoreError;
use crate::ids::fresh_token;
use crate::strings::{str_eq, trim_spec, trim_str};

verus! {

/// A registered user as shown to callers; carries no credential material.
#[derive(Debug)]
pub struct Usuario {
    pub id: i64,
    pub nome: String,
    pub email: String,
}

/// A registration request.
pub struct RegisterInput {
    pub nome: String,
    pub email: String,
    pub senha: String,
}

/// A login request.
pub struct LoginInput {
    pub email: String,
    pub senha: String,
}

/// A stored user row, including the password hash.
pub struct UserRecord {
    pub id: i64,
    pub nome: String,
    pub email: String,
    pub senha_hash: String,
}

/// A stored session row. `expires_at` is a Unix timestamp in seconds;
/// an absent expiry never expires.
pub struct Session {
    pub id: String,
    pub user_id: i64,
    pub created_at: u64,
    pub expires_at: Option<u64>,
}

/// Seconds a session issued at login stays valid: 24 hours.
pub const SESSION_LIFETIME_SECS: u64 = 86400;

/// Whether bcrypt's `verify` accepts `password` against `hash`: the
/// result of `bcrypt::verify`, a function of its two arguments alone.
pub uninterp spec fn verifies(password: Seq<char>, hash: Seq<char>) -> bool;

/// Relies on bcrypt::hash: hashes the password with a randomly salted,
/// slow one-way hash at the given cost. bcrypt::verify re-derives the
/// hash from the password and the embedded salt and cost, so it accepts
/// the password against the returned hash.
#[verifier::external_body]
fn bcrypt_hash(password: &str, cost: u32) -> (r: Option<String>)
    ensures
        r matches Some(h) ==> verifies(password@, h@),
{
    match bcrypt::hash(password, cost) {
        Ok(h) => Some(h),
        Err(_) => None,
    }
}

/// Relies on bcrypt::verify: checks a password against a stored hash,
/// deterministically in its two arguments; `None` when the stored hash
/// is malformed.
#[verifier::external_body]
fn bcrypt_check(password: &str, hash: &str) -> (r: Option<bool>)
    ensures
        r matches Some(b) ==> b == verifies(password@, hash@),
{
    match bcrypt::verify(password, hash) {
        Ok(b) => Some(b),
        Err(_) => None,
    }
}

/// A session is live at `now` iff its expiry is absent or strictly in
/// the future.
pub open spec fn session_live(s: Session, now: u64) -> bool {
    match s.expires_at {
        None => true,
        Some(e) => e > now,
    }
}

/// The first session with the given token, if any; session ids are
/// unique, so "first" is "the".
pub open spec fn find_session(s: Seq<Session>, token: Seq<char>) -> Option<Session>
    decreases s.len(),
{
    if s.len() == 0 {
        None
    } else if s[0].id@ == token {
        Some(s[0])
    } else {
        find_session(s.subrange(1, s.len() as int), token)
    }
}

/// What `validate` answers: the owning user id iff a session with the
/// token exists and is live at `now`.
pub open spec fn validate_spec(s: Seq<Session>, token: Seq<char>, now: u64) -> Option<i64> {
    match find_session(s, token) {
        Some(sess) => if session_live(sess, now) {
            Some(sess.user_id)
        } else {
            None
        },
        None => None,
    }
}

/// The lazy sweep: the sessions still live at `now`, in order.
pub open spec fn sweep_spec(s: Seq<Session>, now: u64) -> Seq<Session>
    decreases s.len(),
{
    if s.len() == 0 {
        s
    } else {
        sweep_spec(s.drop_last(), now) + (if session_live(s.last(), now) {
            seq![s.last()]
        } else {
            Seq::<Session>::empty()
        })
    }
}

/// The first user with the given (trimmed) email, if any; emails are
/// unique, so "first" is "the".
pub open spec fn find_user(users: Seq<UserRecord>, email: Seq<char>) -> Option<UserRecord>
    decreases users.len(),
{
    if users.len() == 0 {
        None
    } else if users[0].email@ == email {
        Some(users[0])
    } else {
        find_user(users.subrange(1, users.len() as int), email)
    }
}

/// The first user with the given id, if any.
pub open spec fn find_user_by_id(users: Seq<UserRecord>, id: i64) -> Option<UserRecord>
    decreases users.len(),
{
    if users.len() == 0 {
        None
    } else if users[0].id == id {
        Some(users[0])
    } else {
        find_user_by_id(users.subrange(1, users.len() as int), id)
    }
}

/// The store invariant: unique emails, unique user ids below the next
/// fresh id, and unique session tokens.
pub open spec fn store_inv(users: Seq<UserRecord>, sessions: Seq<Session>, next_id: int) -> bool {
    &&& forall|i: int, j: int| 0 <= i < j < users.len() ==> users[i].email@ != users[j].email@
    &&& forall|i: int, j: int| 0 <= i < j < users.len() ==> users[i].id != users[j].id
    &&& forall|i: int| 0 <= i < users.len() ==> (#[trigger] users[i]).id < next_id
    &&& 1 <= next_id
    &&& forall|i: int, j: int| 0 <= i < j < sessions.len() ==> sessions[i].id@ != sessions[j].id@
}

proof fn lemma_find_session_props(s: Seq<Session>, q: Seq<char>)
    ensures
        match find_session(s, q) {
            Some(l) => l.id@ == q && exists|i: int| 0 <= i < s.len() && s[i] == l,
            None => forall|i: int| 0 <= i < s.len() ==> s[i].id@ != q,
        },
    decreases s.len(),
{
    if s.len() == 0 {
    } else if s[0].id@ == q {
        assert(0 <= 0 < s.len() && s[0] == find_session(s, q).unwrap());
    } else {
        let t = s.subrange(1, s.len() as int);
        lemma_find_session_props(t, q);
        match find_session(t, q) {
            Some(l) => {
                let i = choose|i: int| 0 <= i < t.len() && t[i] == l;
                assert(s[i + 1] == l);
            },
            None => {
                assert forall|i: int| 0 <= i < s.len() implies s[i].id@ != q by {
                    if i >= 1 {
                        assert(t[i - 1] == s[i]);
                    }
                }
            },
        }
    }
}

proof fn lemma_find_session_first(s: Seq<Session>, q: Seq<char>, i: int)
    requires
        0 <= i < s.len(),
        s[i].id@ == q,
        forall|j: int| 0 <= j < i ==> s[j].id@ != q,
    ensures
        find_session(s, q) == Some(s[i]),
    decreases s.len(),
{
    if i > 0 {
        let t = s.subrange(1, s.len() as int);
        assert(t[i - 1] == s[i]);
        assert forall|j: int| 0 <= j < i - 1 implies t[j].id@ != q by {
            assert(t[j] == s[j + 1]);
        }
        lemma_find_session_first(t, q, i - 1);
    }
}

proof fn lemma_find_session_push(s: Seq<Session>, v: Session, q: Seq<char>)
    ensures
        find_session(s.push(v), q) == (if find_session(s, q) is Some {
            find_session(s, q)
        } else if v.id@ == q {
            Some(v)
        } else {
            None::<Session>
        }),
    decreases s.len(),
{
    let s2 = s.push(v);
    if s.len() == 0 {
        assert(s2.subrange(1, s2.len() as int) =~= Seq::<Session>::empty());
        assert(find_session(Seq::<Session>::empty(), q) is None);
        assert(s2[0] == v);
    } else {
        assert(s2[0] == s[0]);
        assert(s2.subrange(1, s2.len() as int) =~= s.subrange(1, s.len() as int).push(v));
        lemma_find_session_push(s.subrange(1, s.len() as int), v, q);
    }
}

proof fn lemma_find_session_remove(s: Seq<Session>, i: int, q: Seq<char>)
    requires
        forall|a: int, b: int| 0 <= a < b < s.len() ==> s[a].id@ != s[b].id@,
        0 <= i < s.len(),
    ensures
        find_session(s.remove(i), q) == (if s[i].id@ == q {
            None::<Session>
        } else {
            find_session(s, q)
        }),
    decreases s.len(),
{
    let s2 = s.remove(i);
    let t = s.subrange(1, s.len() as int);
    assert forall|a: int, b: int| 0 <= a < b < t.len() implies t[a].id@ != t[b].id@ by {
        assert(t[a] == s[a + 1] && t[b] == s[b + 1]);
    }
    if i == 0 {
        assert(s2 =~= t);
        if s[0].id@ == q {
            lemma_find_session_props(t, q);
            if find_session(t, q) is Some {
                let l = find_session(t, q).unwrap();
                let j = choose|j: int| 0 <= j < t.len() && t[j] == l;
                assert(s[j + 1] == l);
                assert(false);
            }
        }
    } else {
        assert(s2[0] == s[0]);
        if s[0].id@ == q {
            assert(s[i].id@ != q);
        } else {
            assert(s2.subrange(1, s2.len() as int) =~= t.remove(i - 1));
            assert(t[i - 1] == s[i]);
            lemma_find_session_remove(t, i - 1, q);
        }
    }
}

proof fn lemma_sweep_membership(s: Seq<Session>, now: u64)
    ensures
        forall|k: int|
            0 <= k < sweep_spec(s, now).len() ==> exists|j: int|
                0 <= j < s.len() && s[j] == #[trigger] sweep_spec(s, now)[k],
        forall|k: int|
            0 <= k < sweep_spec(s, now).len() ==> session_live(
                #[trigger] sweep_spec(s, now)[k],
                now,
            ),
    decreases s.len(),
{
    if s.len() > 0 {
        let t = s.drop_last();
        lemma_sweep_membership(t, now);
        let w = sweep_spec(s, now);
        let wt = sweep_spec(t, now);
        assert forall|k: int| 0 <= k < w.len() implies exists|j: int|
            0 <= j < s.len() && s[j] == #[trigger] w[k] by {
            if k < wt.len() {
                let j = choose|j: int| 0 <= j < t.len() && t[j] == wt[k];
                assert(s[j] == w[k]);
            } else {
                assert(w[k] == s.last());
                assert(s[s.len() - 1] == w[k]);
            }
        }
        assert forall|k: int| 0 <= k < w.len() implies exists|j: int|
            0 <= j < s.len() && s[j] == #[trigger] sweep_spec(s, now)[k] by {
            assert(w[k] == sweep_spec(s, now)[k]);
        }
    }
}

proof fn lemma_sweep_unique(s: Seq<Session>, now: u64)
    requires
        forall|a: int, b: int| 0 <= a < b < s.len() ==> s[a].id@ != s[b].id@,
    ensures
        forall|a: int, b: int|
            0 <= a < b < sweep_spec(s, now).len() ==> sweep_spec(s, now)[a].id@ != sweep_spec(
                s,
                now,
            )[b].id@,
    decreases s.len(),
{
    if s.len() > 0 {
        let t = s.drop_last();
        assert forall|a: int, b: int| 0 <= a < b < t.len() implies t[a].id@ != t[b].id@ by {
            assert(t[a] == s[a] && t[b] == s[b]);
        }
        lemma_sweep_unique(t, now);
        lemma_sweep_membership(t, now);
        let w = sweep_spec(s, now);
        let wt = sweep_spec(t, now);
        assert forall|a: int, b: int| 0 <= a < b < w.len() implies w[a].id@ != w[b].id@ by {
            if b < wt.len() {
                assert(w[a] == wt[a] && w[b] == wt[b]);
            } else {
                assert(w[b] == s.last());
                assert(w[a] == wt[a]);
                let j = choose|j: int| 0 <= j < t.len() && t[j] == wt[a];
                assert(s[j].id@ != s[s.len() - 1].id@);
            }
        }
    }
}

/// Whether two session values carry the same data, field by field.
pub open spec fn session_matches(a: Session, b: Session) -> bool {
    &&& a.id@ == b.id@
    &&& a.user_id == b.user_id
    &&& a.created_at == b.created_at
    &&& a.expires_at == b.expires_at
}

/// A session is valid immediately after login: pushing a live session
/// whose token is not already present makes `validate` answer its
/// owner's id for that token.
pub proof fn lemma_validate_after_login(sessions: Seq<Session>, sess: Session, now: u64)
    requires
        find_session(sessions, sess.id@) is None,
        session_live(sess, now),
    ensures
        validate_spec(sessions.push(sess), sess.id@, now) == Some(sess.user_id),
{
    lemma_find_session_push(sessions, sess, sess.id@);
}

/// A session is invalid after logout: once no session carries the
/// token, `validate` answers nothing for it, at any time.
pub proof fn lemma_validate_after_logout(sessions: Seq<Session>, token: Seq<char>, now: u64)
    requires
        find_session(sessions, token) is None,
    ensures
        validate_spec(sessions, token, now) is None,
{
}

/// A validated token always names a live session: an expired session is
/// never returned as valid, even if not yet swept.
pub proof fn lemma_valid_implies_live_session(sessions: Seq<Session>, token: Seq<char>, now: u64)
    ensures
        validate_spec(sessions, token, now) matches Some(uid) ==> exists|i: int|
            0 <= i < sessions.len() && sessions[i].id@ == token && session_live(sessions[i], now)
                && sessions[i].user_id == uid,
{
    lemma_find_session_props(sessions, token);
    if validate_spec(sessions, token, now) is Some {
        let l = find_session(sessions, token).unwrap();
        let i = choose|i: int| 0 <= i < sessions.len() && sessions[i] == l;
        assert(sessions[i].id@ == token && session_live(sessions[i], now));
    }
}

proof fn lemma_find_user_props(users: Seq<UserRecord>, q: Seq<char>)
    ensures
        match find_user(users, q) {
            Some(l) => l.email@ == q && exists|i: int| 0 <= i < users.len() && users[i] == l,
            None => forall|i: int| 0 <= i < users.len() ==> users[i].email@ != q,
        },
    decreases users.len(),
{
    if users.len() == 0 {
    } else if users[0].email@ == q {
        assert(0 <= 0 < users.len() && users[0] == find_user(users, q).unwrap());
    } else {
        let t = users.subrange(1, users.len() as int);
        lemma_find_user_props(t, q);
        match find_user(t, q) {
            Some(l) => {
                let i = choose|i: int| 0 <= i < t.len() && t[i] == l;
                assert(users[i + 1] == l);
            },
            None => {
                assert forall|i: int| 0 <= i < users.len() implies users[i].email@ != q by {
                    if i >= 1 {
                        assert(t[i - 1] == users[i]);
                    }
                }
            },
        }
    }
}

proof fn lemma_find_user_first(users: Seq<UserRecord>, q: Seq<char>, i: int)
    requires
        0 <= i < users.len(),
        users[i].email@ == q,
        forall|j: int| 0 <= j < i ==> users[j].email@ != q,
    ensures
        find_user(users, q) == Some(users[i]),
    decreases users.len(),
{
    if i > 0 {
        let t = users.subrange(1, users.len() as int);
        assert(t[i - 1] == users[i]);
        assert forall|j: int| 0 <= j < i - 1 implies t[j].email@ != q by {
            assert(t[j] == users[j + 1]);
        }
        lemma_find_user_first(t, q, i - 1);
    }
}

proof fn lemma_find_user_by_id_props(users: Seq<UserRecord>, id: i64)
    ensures
        match find_user_by_id(users, id) {
            Some(l) => l.id == id && exists|i: int| 0 <= i < users.len() && users[i] == l,
            None => forall|i: int| 0 <= i < users.len() ==> users[i].id != id,
        },
    decreases users.len(),
{
    if users.len() == 0 {
    } else if users[0].id == id {
        assert(0 <= 0 < users.len() && users[0] == find_user_by_id(users, id).unwrap());
    } else {
        let t = users.subrange(1, users.len() as int);
        lemma_find_user_by_id_props(t, id);
        match find_user_by_id(t, id) {
            Some(l) => {
                let i = choose|i: int| 0 <= i < t.len() && t[i] == l;
                assert(users[i + 1] == l);
            },
            None => {
                assert forall|i: int| 0 <= i < users.len() implies users[i].id != id by {
                    if i >= 1 {
                        assert(t[i - 1] == users[i]);
                    }
                }
            },
        }
    }
}

proof fn lemma_find_user_by_id_first(users: Seq<UserRecord>, id: i64, i: int)
    requires
        0 <= i < users.len(),
        users[i].id == id,
        forall|j: int| 0 <= j < i ==> users[j].id != id,
    ensures
        find_user_by_id(users, id) == Some(users[i]),
    decreases users.len(),
{
    if i > 0 {
        let t = users.subrange(1, users.len() as int);
        assert(t[i - 1] == users[i]);
        assert forall|j: int| 0 <= j < i - 1 implies t[j].id != id by {
            assert(t[j] == users[j + 1]);
        }
        lemma_find_user_by_id_first(t, id, i - 1);
    }
}

/// The in-memory credential store: user rows, session rows, and the
/// next fresh user id. The process owns exactly one.
pub struct SessionStore {
    users: Vec<UserRecord>,
    sessions: Vec<Session>,
    next_user_id: i64,
}

impl SessionStore {
    pub closed spec fn users_view(&self) -> Seq<UserRecord> {
        self.users@
    }

    pub closed spec fn sessions_view(&self) -> Seq<Session> {
        self.sessions@
    }

    pub closed spec fn next_id(&self) -> int {
        self.next_user_id as int
    }

    pub open spec fn wf(&self) -> bool {
        store_inv(self.users_view(), self.sessions_view(), self.next_id())
    }

    /// An empty store; user ids start at one.
    pub fn new() -> (r: SessionStore)
        ensures
            r.wf(),
            r.users_view().len() == 0,
            r.sessions_view().len() == 0,
            r.next_id() == 1,
    {
        SessionStore { users: Vec::new(), sessions: Vec::new(), next_user_id: 1 }
    }

    /// The id the next registration will use; callers check it is not
    /// yet saturated before registering.
    pub fn next_user_id(&self) -> (r: i64)
        ensures
            r as int == self.next_id(),
    {
        self.next_user_id
    }

    fn find_user_index(&self, email: &str) -> (r: Option<usize>)
        ensures
            r matches Some(i) ==> i < self.users_view().len() && find_user(
                self.users_view(),
                email@,
            ) == Some(self.users_view()[i as int]),
            r is None ==> find_user(self.users_view(), email@) is None,
    {
        let n = self.users.len();
        let mut i: usize = 0;
        while i < n
            invariant
                0 <= i <= n,
                n == self.users@.len(),
                forall|j: int| 0 <= j < i ==> self.users@[j].email@ != email@,
            decreases n - i,
        {
            if str_eq(self.users[i].email.as_str(), email) {
                proof {
                    lemma_find_user_first(self.users@, email@, i as int);
                }
                return Some(i);
            }
            i += 1;
        }
        proof {
            lemma_find_user_props(self.users@, email@);
        }
        None
    }

    /// Registers a user: rejects empty trimmed fields and duplicate
    /// emails, hashes the password (an internal error if hashing
    /// fails; a plaintext credential is never stored), and appends the
    /// user row under a fresh id.
    pub fn register(&mut self, input: &RegisterInput) -> (r: Result<(), StoreError>)
        requires
            old(self).wf(),
            old(self).next_id() < i64::MAX,
        ensures
            final(self).wf(),
            final(self).sessions_view() == old(self).sessions_view(),
            (r == Err::<(), StoreError>(StoreError::InvalidInput)) <==> (trim_spec(
                input.nome@,
            ).len() == 0 || trim_spec(input.email@).len() == 0 || trim_spec(input.senha@).len()
                == 0),
            (r == Err::<(), StoreError>(StoreError::DuplicateEmail)) <==> (trim_spec(
                input.nome@,
            ).len() != 0 && trim_spec(input.email@).len() != 0 && trim_spec(input.senha@).len()
                != 0 && find_user(old(self).users_view(), trim_spec(input.email@)) is Some),
            r is Err ==> ({
                ||| r == Err::<(), StoreError>(StoreError::InvalidInput)
                ||| r == Err::<(), StoreError>(StoreError::DuplicateEmail)
                ||| r == Err::<(), StoreError>(StoreError::InternalError)
            }),
            r is Err ==> final(self).users_view() == old(self).users_view()
                && final(self).next_id() == old(self).next_id(),
            r is Ok ==> ({
                let u = final(self).users_view().last();
                &&& final(self).users_view() == old(self).users_view().push(u)
                &&& u.id == old(self).next_id()
                &&& u.nome@ == trim_spec(input.nome@)
                &&& u.email@ == trim_spec(input.email@)
                &&& verifies(trim_spec(input.senha@), u.senha_hash@)
                &&& find_user(old(self).users_view(), trim_spec(input.email@)) is None
                &&& final(self).next_id() == old(self).next_id() + 1
            }),
    {
        let nome = trim_str(input.nome.as_str());
        let email = trim_str(input.email.as_str());
        let senha = trim_str(input.senha.as_str());
        if nome.is_empty() || email.is_empty() || senha.is_empty() {
            return Err(StoreError::InvalidInput);
        }
        if self.find_user_index(email).is_some() {
            return Err(StoreError::DuplicateEmail);
        }
        let senha_hash = match bcrypt_hash(senha, 12) {
            Some(h) => h,
            None => {
                return Err(StoreError::InternalError);
            },
        };
        let ghost users0 = self.users@;
        let record = UserRecord {
            id: self.next_user_id,
            nome: String::from_str(nome),
            email: String::from_str(email),
            senha_hash,
        };
        self.users.push(record);
        self.next_user_id = self.next_user_id + 1;
        proof {
            let users1 = self.users@;
            lemma_find_user_props(users0, users1.last().email@);
            assert forall|a: int, b: int| 0 <= a < b < users1.len() implies users1[a].email@
                != users1[b].email@ by {
                if b < users1.len() - 1 {
                    assert(users0[a].email@ != users0[b].email@);
                } else {
                    assert(users1[a] == users0[a]);
                }
            }
            assert forall|a: int, b: int| 0 <= a < b < users1.len() implies users1[a].id
                != users1[b].id by {
                if b < users1.len() - 1 {
                    assert(users0[a].id != users0[b].id);
                } else {
                    assert(users1[a] == users0[a]);
                }
            }
        }
        Ok(())
    }

    /// Logs a user in: looks the user up by trimmed email, verifies the
    /// password against the stored hash, sweeps expired sessions, and
    /// issues a fresh 24-hour session. Returns the session and the user.
    pub fn login(&mut self, input: &LoginInput, now: u64) -> (r: Result<
        (Session, Usuario),
        StoreError,
    >)
        requires
            old(self).wf(),
            now + SESSION_LIFETIME_SECS <= u64::MAX,
        ensures
            final(self).wf(),
            final(self).users_view() == old(self).users_view(),
            final(self).next_id() == old(self).next_id(),
            (r == Err::<(Session, Usuario), StoreError>(StoreError::NotFound)) <==> find_user(
                old(self).users_view(),
                trim_spec(input.email@),
            ) is None,
            r == Err::<(Session, Usuario), StoreError>(StoreError::InvalidCredentials) ==> (
            find_user(old(self).users_view(), trim_spec(input.email@)) matches Some(u) && !verifies(
                trim_spec(input.senha@),
                u.senha_hash@,
            )),
            r is Err ==> ({
                ||| r == Err::<(Session, Usuario), StoreError>(StoreError::NotFound)
                ||| r == Err::<(Session, Usuario), StoreError>(StoreError::InvalidCredentials)
                ||| r == Err::<(Session, Usuario), StoreError>(StoreError::InternalError)
            }),
            r is Err ==> final(self).sessions_view() == old(self).sessions_view()
                || final(self).sessions_view() == sweep_spec(old(self).sessions_view(), now),
            r matches Ok(p) ==> ({
                let u = find_user(old(self).users_view(), trim_spec(input.email@)).unwrap();
                &&& find_user(old(self).users_view(), trim_spec(input.email@)) is Some
                &&& verifies(trim_spec(input.senha@), u.senha_hash@)
                &&& p.1.id == u.id
                &&& p.1.nome@ == u.nome@
                &&& p.1.email@ == u.email@
                &&& p.0.user_id == u.id
                &&& p.0.created_at == now
                &&& p.0.expires_at == Some((now + SESSION_LIFETIME_SECS) as u64)
                &&& session_live(p.0, now)
                &&& final(self).sessions_view() == sweep_spec(
                    old(self).sessions_view(),
                    now,
                ).push(final(self).sessions_view().last())
                &&& session_matches(final(self).sessions_view().last(), p.0)
                &&& validate_spec(final(self).sessions_view(), p.0.id@, now) == Some(u.id)
            }),
    {
        let email = trim_str(input.email.as_str());
        let senha = trim_str(input.senha.as_str());
        let idx = match self.find_user_index(email) {
            Some(i) => i,
            None => {
                return Err(StoreError::NotFound);
            },
        };
        let ok = match bcrypt_check(senha, self.users[idx].senha_hash.as_str()) {
            Some(b) => b,
            None => {
                return Err(StoreError::InternalError);
            },
        };
        if !ok {
            return Err(StoreError::InvalidCredentials);
        }
        self.sweep(now);
        let token = fresh_token();
        let ghost swept = self.sessions@;
        let m = self.sessions.len();
        let mut j: usize = 0;
        while j < m
            invariant
                0 <= j <= m,
                m == self.sessions@.len(),
                self.sessions@ == swept,
                self.users@ == old(self).users@,
                self.next_user_id == old(self).next_user_id,
                self.wf(),
                swept == sweep_spec(old(self).sessions_view(), now),
                find_user(old(self).users_view(), trim_spec(input.email@)) is Some,
                forall|jj: int| 0 <= jj < j ==> swept[jj].id@ != token@,
            decreases m - j,
        {
            if str_eq(self.sessions[j].id.as_str(), token.as_str()) {
                return Err(StoreError::InternalError);
            }
            j += 1;
        }
        proof {
            lemma_find_session_props(swept, token@);
        }
        let user_id = self.users[idx].id;
        let expires_at = Some(now + SESSION_LIFETIME_SECS);
        let stored = Session { id: token.clone(), user_id, created_at: now, expires_at };
        self.sessions.push(stored);
        let sess = Session { id: token, user_id, created_at: now, expires_at };
        let usuario = Usuario {
            id: user_id,
            nome: self.users[idx].nome.clone(),
            email: self.users[idx].email.clone(),
        };
        proof {
            let s1 = self.sessions@;
            let v = s1.last();
            assert forall|a: int, b: int| 0 <= a < b < s1.len() implies s1[a].id@
                != s1[b].id@ by {
                if b < s1.len() - 1 {
                    assert(swept[a].id@ != swept[b].id@);
                } else {
                    assert(s1[a] == swept[a]);
                }
            }
            lemma_validate_after_login(swept, v, now);
        }
        Ok((sess, usuario))
    }

    /// Removes every session whose expiry has passed; the lazy sweep
    /// run at each login.
    fn sweep(&mut self, now: u64)
        requires
            old(self).wf(),
        ensures
            final(self).wf(),
            final(self).users_view() == old(self).users_view(),
            final(self).next_id() == old(self).next_id(),
            final(self).sessions_view() == sweep_spec(old(self).sessions_view(), now),
    {
        let ghost s0 = self.sessions@;
        let ghost mut k: int = 0;
        let mut i: usize = 0;
        proof {
            assert(s0.subrange(0, 0) =~= Seq::<Session>::empty());
            assert(s0.subrange(0, s0.len() as int) =~= s0);
        }
        while i < self.sessions.len()
            invariant
                0 <= k <= s0.len(),
                i as int == sweep_spec(s0.subrange(0, k), now).len(),
                self.sessions@ == sweep_spec(s0.subrange(0, k), now) + s0.subrange(
                    k,
                    s0.len() as int,
                ),
                self.users@ == old(self).users@,
                self.next_user_id == old(self).next_user_id,
                s0 == old(self).sessions@,
            decreases s0.len() - k,
        {
            proof {
                assert(self.sessions@[i as int] == s0.subrange(k, s0.len() as int)[0]);
                assert(s0.subrange(k, s0.len() as int)[0] == s0[k]);
            }
            let live = match self.sessions[i].expires_at {
                None => true,
                Some(e) => e > now,
            };
            proof {
                assert(live == session_live(s0[k], now));
                assert(s0.subrange(0, k + 1).drop_last() =~= s0.subrange(0, k));
                assert(s0.subrange(0, k + 1).last() == s0[k]);
            }
            if live {
                i += 1;
                proof {
                    assert(sweep_spec(s0.subrange(0, k + 1), now) =~= sweep_spec(
                        s0.subrange(0, k),
                        now,
                    ).push(s0[k]));
                    assert(self.sessions@ =~= sweep_spec(s0.subrange(0, k + 1), now)
                        + s0.subrange(k + 1, s0.len() as int));
                    k = k + 1;
                }
            } else {
                self.sessions.remove(i);
                proof {
                    assert(sweep_spec(s0.subrange(0, k + 1), now) =~= sweep_spec(
                        s0.subrange(0, k),
                        now,
                    ));
                    assert(self.sessions@ =~= sweep_spec(s0.subrange(0, k + 1), now)
                        + s0.subrange(k + 1, s0.len() as int));
                    k = k + 1;
                }
            }
        }
        proof {
            assert(k == s0.len());
            assert(s0.subrange(k, s0.len() as int) =~= Seq::<Session>::empty());
            assert(self.sessions@ =~= sweep_spec(s0, now));
            lemma_sweep_unique(s0, now);
        }
    }

    /// Answers the owning user id iff a non-expired session with the
    /// token exists; mutates nothing.
    pub fn validate(&self, token: &str, now: u64) -> (r: Option<i64>)
        ensures
            r == validate_spec(self.sessions_view(), token@, now),
    {
        let n = self.sessions.len();
        let mut i: usize = 0;
        while i < n
            invariant
                0 <= i <= n,
                n == self.sessions@.len(),
                forall|j: int| 0 <= j < i ==> self.sessions@[j].id@ != token@,
            decreases n - i,
        {
            if str_eq(self.sessions[i].id.as_str(), token) {
                proof {
                    lemma_find_session_first(self.sessions@, token@, i as int);
                }
                let live = match self.sessions[i].expires_at {
                    None => true,
                    Some(e) => e > now,
                };
                if live {
                    return Some(self.sessions[i].user_id);
                } else {
                    return None;
                }
            }
            i += 1;
        }
        proof {
            lemma_find_session_props(self.sessions@, token@);
        }
        None
    }

    /// Deletes the session with the token, if present; idempotent.
    pub fn logout(&mut self, token: &str)
        requires
            old(self).wf(),
        ensures
            final(self).wf(),
            final(self).users_view() == old(self).users_view(),
            final(self).next_id() == old(self).next_id(),
            find_session(final(self).sessions_view(), token@) is None,
            forall|q: Seq<char>|
                q != token@ ==> #[trigger] find_session(final(self).sessions_view(), q)
                    == find_session(old(self).sessions_view(), q),
    {
        let ghost s0 = self.sessions@;
        let n = self.sessions.len();
        let mut i: usize = 0;
        while i < n
            invariant
                0 <= i <= n,
                n == self.sessions@.len(),
                self.sessions@ == s0,
                s0 == old(self).sessions_view(),
                store_inv(old(self).users_view(), s0, old(self).next_id()),
                self.users@ == old(self).users@,
                self.next_user_id == old(self).next_user_id,
                forall|j: int| 0 <= j < i ==> s0[j].id@ != token@,
            decreases n - i,
        {
            if str_eq(self.sessions[i].id.as_str(), token) {
                self.sessions.remove(i);
                proof {
                    let s1 = self.sessions@;
                    assert forall|a: int, b: int| 0 <= a < b < s1.len() implies s1[a].id@
                        != s1[b].id@ by {
                        let a0 = if a < i as int {
                            a
                        } else {
                            a + 1
                        };
                        let b0 = if b < i as int {
                            b
                        } else {
                            b + 1
                        };
                        assert(s1[a] == s0[a0] && s1[b] == s0[b0]);
                    }
                    assert forall|q: Seq<char>| true implies #[trigger] find_session(s1, q) == (
                    if s0[i as int].id@ == q {
                        None::<Session>
                    } else {
                        find_session(s0, q)
                    }) by {
                        lemma_find_session_remove(s0, i as int, q);
                    }
                }
                return ;
            }
            i += 1;
        }
        proof {
            lemma_find_session_props(s0, token@);
        }
    }

    /// The session-to-user join behind "who am I": the user owning a
    /// live session with the token, if both exist.
    pub fn current_user(&self, token: &str, now: u64) -> (r: Option<Usuario>)
        ensures
            r is Some <==> (validate_spec(self.sessions_view(), token@, now) matches Some(uid)
                && find_user_by_id(self.users_view(), uid) is Some),
            r matches Some(u) ==> (validate_spec(self.sessions_view(), token@, now) matches Some(
                uid,
            ) && find_user_by_id(self.users_view(), uid) matches Some(rec) && u.id == rec.id
                && u.nome@ == rec.nome@ && u.email@ == rec.email@),
    {
        let uid = match self.validate(token, now) {
            Some(uid) => uid,
            None => {
                return None;
            },
        };
        let n = self.users.len();
        let mut i: usize = 0;
        while i < n
            invariant
                0 <= i <= n,
                n == self.users@.len(),
                validate_spec(self.sessions_view(), token@, now) == Some(uid),
                forall|j: int| 0 <= j < i ==> self.users@[j].id != uid,
            decreases n - i,
        {
            if self.users[i].id == uid {
                proof {
                    lemma_find_user_by_id_first(self.users@, uid, i as int);
                }
                return Some(
                    Usuario {
                        id: self.users[i].id,
                        nome: self.users[i].nome.clone(),
                        email: self.users[i].email.clone(),
                    },
                );
            }
            i += 1;
        }
        proof {
            lemma_find_user_by_id_props(self.users@, uid);
        }
        None
    }

    /// Every registered user, in insertion order, without credential
    /// material.
    pub fn list_users(&self) -> (r: Vec<Usuario>)
        ensures
            r@.len() == self.users_view().len(),
            forall|i: int|
                0 <= i < r@.len() ==> (#[trigger] r@[i]).id == self.users_view()[i].id && r@[i].nome@
                    == self.users_view()[i].nome@ && r@[i].email@ == self.users_view()[i].email@,
    {
        let mut out: Vec<Usuario> = Vec::new();
        let n = self.users.len();
        let mut i: usize = 0;
        while i < n
            invariant
                0 <= i <= n,
                n == self.users@.len(),
                out@.len() == i,
                forall|j: int|
                    0 <= j < i ==> (#[trigger] out@[j]).id == self.users@[j].id && out@[j].nome@
                        == self.users@[j].nome@ && out@[j].email@ == self.users@[j].email@,
            decreases n - i,
        {
            out.push(
                Usuario {
                    id: self.users[i].id,
                    nome: self.users[i].nome.clone(),
                    email: self.users[i].email.clone(),
                },
            );
            i += 1;
        }
        out
    }
}

} // verus!
