//! Admin accounts and cookie sessions.
//!
//! Passwords are kept only as bcrypt hashes: an opaque one-way function
//! with a verify operation, trusted to the bcrypt crate. A session
//! binds one opaque random token to exactly one user; logging in again
//! replaces the user's session, so the earlier token stops
//! authenticating.

use crate::access::{header_view, Lookup, SessionDecision};
use crate::keygen::{alphanumeric_string, generate_key, random_token};
use crate::store::{
    lemma_find_session_none, lemma_find_session_some, lemma_find_user_none, SessionRow, Store,
    UserRow,
};
use vstd::prelude::*;

verus! {

/// Whether bcrypt's check accepts `password` against `hash`. Decided by
/// the bcrypt algorithm; it depends on the two strings alone.
pub uninterp spec fn bcrypt_matches(password: Seq<char>, hash: Seq<char>) -> bool;

/// Relies on bcrypt's `hash`: a salted one-way hash of the password
/// that bcrypt's own `verify` accepts for this password, whichever salt
/// was drawn. It fails only inside bcrypt.
#[verifier::external_body]
fn bcrypt_hash(password: &str, cost: u32) -> (r: Result<String, ()>)
    ensures
        r matches Ok(h) ==> bcrypt_matches(password@, h@),
{
    match bcrypt::hash(password, cost) {
        Ok(h) => Ok(h),
        Err(_) => Err(()),
    }
}

/// Relies on bcrypt's `verify`: deterministic in the password and the
/// hash; it fails only on a hash bcrypt cannot parse.
#[verifier::external_body]
fn bcrypt_verify(password: &str, hash: &str) -> (r: Result<bool, ()>)
    ensures
        r matches Ok(b) ==> b == bcrypt_matches(password@, hash@),
{
    match bcrypt::verify(password, hash) {
        Ok(b) => Ok(b),
        Err(_) => Err(()),
    }
}

/// The request payload registering an admin user.
pub struct RegisterDetails {
    pub username: String,
    pub email: String,
    pub password: String,
}

/// The request payload for a login.
pub struct LoginDetails {
    pub username: String,
    pub password: String,
}

/// Why an account operation failed.
#[derive(Debug)]
pub enum AccountError {
    /// The username is already registered.
    UsernameTaken,
    /// The email is already registered.
    EmailTaken,
    /// No user has this username.
    UnknownUser,
    /// No user has this email.
    UnknownEmail,
    /// The password does not verify against the stored hash.
    WrongPassword,
    /// The hash or verify operation itself failed.
    Internal,
    /// A unique constraint or id counter refused the insert.
    Storage,
}

impl AccountError {
    /// The HTTP status an account failure surfaces as: a wrong password
    /// is refused as unauthorized, an unknown name or email as a bad
    /// request, and everything the storage or hash layer refused as an
    /// internal error.
    pub open spec fn status_spec(self) -> int {
        match self {
            AccountError::UsernameTaken => 500,
            AccountError::EmailTaken => 500,
            AccountError::UnknownUser => 400,
            AccountError::UnknownEmail => 400,
            AccountError::WrongPassword => 401,
            AccountError::Internal => 500,
            AccountError::Storage => 500,
        }
    }

    /// The HTTP status of this failure.
    pub fn status_code(&self) -> (r: u16)
        ensures
            r as int == self.status_spec(),
    {
        match self {
            AccountError::UsernameTaken => 500,
            AccountError::EmailTaken => 500,
            AccountError::UnknownUser => 400,
            AccountError::UnknownEmail => 400,
            AccountError::WrongPassword => 401,
            AccountError::Internal => 500,
            AccountError::Storage => 500,
        }
    }
}

/// The sessions left once every session of one user is dropped, in
/// order.
pub open spec fn sessions_without_user(s: Seq<SessionRow>, user_id: u64) -> Seq<SessionRow>
    decreases s.len(),
{
    if s.len() == 0 {
        Seq::empty()
    } else if s.first().user_id == user_id {
        sessions_without_user(s.drop_first(), user_id)
    } else {
        seq![s.first()] + sessions_without_user(s.drop_first(), user_id)
    }
}

/// Dropping a user's sessions keeps rows of the original sequence, none
/// of them that user's, and keeps distinct tokens and users distinct.
pub proof fn lemma_sessions_without_user(s: Seq<SessionRow>, user_id: u64)
    requires
        forall|i: int, j: int| 0 <= i < j < s.len() ==> s[i].token@ != s[j].token@,
        forall|i: int, j: int| 0 <= i < j < s.len() ==> s[i].user_id != s[j].user_id,
    ensures
        ({
            let res = sessions_without_user(s, user_id);
            &&& forall|k: int|
                0 <= k < res.len() ==> (#[trigger] res[k]).user_id != user_id && exists|j: int|
                    0 <= j < s.len() && s[j] == res[k]
            &&& forall|i: int, j: int| 0 <= i < j < res.len() ==> res[i].token@ != res[j].token@
            &&& forall|i: int, j: int| 0 <= i < j < res.len() ==> res[i].user_id != res[j].user_id
            &&& res.len() <= s.len()
        }),
    decreases s.len(),
{
    if s.len() > 0 {
        let rest = s.drop_first();
        assert forall|i: int, j: int| 0 <= i < j < rest.len() implies rest[i].token@
            != rest[j].token@ && rest[i].user_id != rest[j].user_id by {
            assert(rest[i] == s[i + 1] && rest[j] == s[j + 1]);
        }
        lemma_sessions_without_user(rest, user_id);
        let sub = sessions_without_user(rest, user_id);
        assert forall|k: int| 0 <= k < sub.len() implies exists|j: int|
            0 <= j < s.len() && s[j] == #[trigger] sub[k] by {
            let j = choose|j: int| 0 <= j < rest.len() && rest[j] == sub[k];
            assert(s[j + 1] == sub[k]);
        }
        if s.first().user_id != user_id {
            let res = seq![s.first()] + sub;
            assert(res[0] == s[0]);
            assert forall|k: int| 0 <= k < res.len() implies (#[trigger] res[k]).user_id != user_id
                && exists|j: int| 0 <= j < s.len() && s[j] == res[k] by {
                if k > 0 {
                    assert(res[k] == sub[k - 1]);
                }
            }
            assert forall|i: int, j: int| 0 <= i < j < res.len() implies res[i].token@
                != res[j].token@ && res[i].user_id != res[j].user_id by {
                if i == 0 {
                    assert(res[j] == sub[j - 1]);
                    let m = choose|m: int| 0 <= m < rest.len() && rest[m] == sub[j - 1];
                    assert(rest[m] == s[m + 1]);
                } else {
                    assert(res[i] == sub[i - 1] && res[j] == sub[j - 1]);
                }
            }
        }
    }
}

/// With no session of the user present, dropping them changes nothing.
proof fn lemma_sessions_without_user_identity(s: Seq<SessionRow>, user_id: u64)
    requires
        forall|j: int| 0 <= j < s.len() ==> (#[trigger] s[j]).user_id != user_id,
    ensures
        sessions_without_user(s, user_id) == s,
    decreases s.len(),
{
    if s.len() > 0 {
        let rest = s.drop_first();
        assert forall|j: int| 0 <= j < rest.len() implies (#[trigger] rest[j]).user_id
            != user_id by {
            assert(rest[j] == s[j + 1]);
        }
        lemma_sessions_without_user_identity(rest, user_id);
        assert(sessions_without_user(s, user_id) =~= s);
    }
}

/// With exactly one session of the user, at `ix`, dropping them is
/// removing that row.
proof fn lemma_sessions_without_user_remove(s: Seq<SessionRow>, user_id: u64, ix: int)
    requires
        0 <= ix < s.len(),
        s[ix].user_id == user_id,
        forall|j: int| 0 <= j < s.len() && j != ix ==> (#[trigger] s[j]).user_id != user_id,
    ensures
        sessions_without_user(s, user_id) == s.remove(ix),
    decreases s.len(),
{
    let rest = s.drop_first();
    if ix == 0 {
        assert forall|j: int| 0 <= j < rest.len() implies (#[trigger] rest[j]).user_id
            != user_id by {
            assert(rest[j] == s[j + 1]);
        }
        lemma_sessions_without_user_identity(rest, user_id);
        assert(sessions_without_user(s, user_id) =~= s.remove(0));
    } else {
        assert(rest[ix - 1] == s[ix]);
        assert forall|j: int| 0 <= j < rest.len() && j != ix - 1 implies (#[trigger] rest[j]).user_id
            != user_id by {
            assert(rest[j] == s[j + 1]);
        }
        lemma_sessions_without_user_remove(rest, user_id, ix - 1);
        assert(s[0].user_id != user_id);
        assert(sessions_without_user(s, user_id) =~= s.remove(ix));
    }
}

impl Store {
    /// Whether some user already has this email.
    pub open spec fn email_taken_spec(self, email: Seq<char>) -> bool {
        exists|j: int| 0 <= j < self.users@.len() && (#[trigger] self.users@[j]).email@ == email
    }

    /// Whether some user already has this email.
    fn email_taken(&self, email: &String) -> (r: bool)
        ensures
            r == self.email_taken_spec(email@),
    {
        let n: usize = self.users.len();
        let mut j: usize = 0;
        while j < n
            invariant
                n == self.users@.len(),
                j <= n,
                forall|i: int| 0 <= i < j ==> (#[trigger] self.users@[i]).email@ != email@,
            decreases n - j,
        {
            if self.users[j].email == *email {
                return true;
            }
            j = j + 1;
        }
        false
    }

    /// Store an admin user with an already-computed password hash. The
    /// write happens exactly when username and email are both new and
    /// the user-id counter has room.
    pub fn insert_user_with_hash(
        &mut self,
        username: String,
        email: String,
        password_hash: String,
    ) -> (r: Result<u64, AccountError>)
        requires
            old(self).wf(),
        ensures
            final(self).wf(),
            r is Err ==> *final(self) == *old(self),
            r matches Err(AccountError::UsernameTaken) <==> old(self).user_spec(username@)
                is Some,
            r matches Err(AccountError::EmailTaken) <==> old(self).user_spec(username@) is None
                && old(self).email_taken_spec(email@),
            r matches Err(AccountError::Storage) <==> old(self).user_spec(username@) is None
                && !old(self).email_taken_spec(email@) && old(self).next_user_id == u64::MAX,
            r is Ok <==> (old(self).user_spec(username@) is None && !old(self).email_taken_spec(
                email@,
            ) && old(self).next_user_id < u64::MAX),
            r matches Ok(id) ==> {
                &&& id == old(self).next_user_id
                &&& final(self).users@.len() == old(self).users@.len() + 1
                &&& forall|j: int|
                    0 <= j < old(self).users@.len() ==> final(self).users@[j] == old(self).users@[j]
                &&& final(self).users@.last().id == id
                &&& final(self).users@.last().username == username
                &&& final(self).users@.last().email == email
                &&& final(self).users@.last().password_hash == password_hash
            },
            final(self).services@ == old(self).services@,
            final(self).roles@ == old(self).roles@,
            final(self).role_permissions@ == old(self).role_permissions@,
            final(self).content_types@ == old(self).content_types@,
            final(self).fields@ == old(self).fields@,
            final(self).content_items@ == old(self).content_items@,
            final(self).sessions@ == old(self).sessions@,
    {
        if self.find_user(&username).is_some() {
            return Err(AccountError::UsernameTaken);
        }
        if self.email_taken(&email) {
            return Err(AccountError::EmailTaken);
        }
        if self.next_user_id == u64::MAX {
            return Err(AccountError::Storage);
        }
        proof {
            lemma_find_user_none(self.users@, username@);
        }
        let id = self.next_user_id;
        self.users.push(UserRow { id, username, email, password_hash });
        self.next_user_id = id + 1;
        Ok(id)
    }

    /// Register an admin user: the password is stored only as its
    /// bcrypt hash, and username and email must both be new.
    pub fn register(&mut self, details: RegisterDetails) -> (r: Result<u64, AccountError>)
        requires
            old(self).wf(),
        ensures
            final(self).wf(),
            r is Err ==> *final(self) == *old(self),
            r matches Err(AccountError::UsernameTaken) <==> old(self).user_spec(details.username@)
                is Some,
            r matches Err(AccountError::EmailTaken) <==> old(self).user_spec(details.username@)
                is None && old(self).email_taken_spec(details.email@),
            old(self).user_spec(details.username@) is None && !old(self).email_taken_spec(
                details.email@,
            ) ==> (r is Ok || r matches Err(AccountError::Internal) || r matches Err(
                AccountError::Storage,
            )),
            r matches Ok(id) ==> {
                &&& id == old(self).next_user_id
                &&& final(self).users@.len() == old(self).users@.len() + 1
                &&& forall|j: int|
                    0 <= j < old(self).users@.len() ==> final(self).users@[j] == old(self).users@[j]
                &&& final(self).users@.last().id == id
                &&& final(self).users@.last().username == details.username
                &&& final(self).users@.last().email == details.email
                &&& bcrypt_matches(details.password@, final(self).users@.last().password_hash@)
            },
            final(self).services@ == old(self).services@,
            final(self).roles@ == old(self).roles@,
            final(self).role_permissions@ == old(self).role_permissions@,
            final(self).content_types@ == old(self).content_types@,
            final(self).fields@ == old(self).fields@,
            final(self).content_items@ == old(self).content_items@,
            final(self).sessions@ == old(self).sessions@,
    {
        if self.find_user(&details.username).is_some() {
            return Err(AccountError::UsernameTaken);
        }
        if self.email_taken(&details.email) {
            return Err(AccountError::EmailTaken);
        }
        let hash = match bcrypt_hash(details.password.as_str(), 10) {
            Ok(h) => h,
            Err(_) => {
                return Err(AccountError::Internal);
            },
        };
        self.insert_user_with_hash(details.username, details.email, hash)
    }

    /// Log an admin in: verify the password against the stored hash,
    /// then bind a fresh random token to the user, replacing any
    /// session the user already had — the old token stops
    /// authenticating.
    pub fn login(&mut self, details: &LoginDetails) -> (r: Result<String, AccountError>)
        requires
            old(self).wf(),
        ensures
            final(self).wf(),
            r is Err ==> *final(self) == *old(self),
            r matches Err(AccountError::UnknownUser) <==> old(self).user_spec(details.username@)
                is None,
            match old(self).user_spec(details.username@) {
                Some(u) => {
                    &&& (r matches Err(AccountError::WrongPassword) ==> !bcrypt_matches(
                        details.password@,
                        u.password_hash@,
                    ))
                    &&& (!bcrypt_matches(details.password@, u.password_hash@) ==> (r matches Err(
                        AccountError::WrongPassword,
                    ) || r matches Err(AccountError::Internal)))
                    &&& (bcrypt_matches(details.password@, u.password_hash@) ==> (r is Ok
                        || r matches Err(AccountError::Internal) || r matches Err(
                        AccountError::Storage,
                    )))
                    &&& (r matches Ok(tok) ==> {
                        &&& bcrypt_matches(details.password@, u.password_hash@)
                        &&& tok@.len() > 0
                        &&& old(self).session_spec(tok@) is None
                        &&& final(self).sessions@ == sessions_without_user(
                            old(self).sessions@,
                            u.id,
                        ).push((SessionRow { token: tok, user_id: u.id }))
                    })
                },
                None => true,
            },
            final(self).services@ == old(self).services@,
            final(self).roles@ == old(self).roles@,
            final(self).role_permissions@ == old(self).role_permissions@,
            final(self).content_types@ == old(self).content_types@,
            final(self).fields@ == old(self).fields@,
            final(self).content_items@ == old(self).content_items@,
            final(self).users@ == old(self).users@,
    {
        let (uid, hash_ok) = match self.find_user(&details.username) {
            None => {
                return Err(AccountError::UnknownUser);
            },
            Some(user) => {
                let v = bcrypt_verify(details.password.as_str(), user.password_hash.as_str());
                (user.id, v)
            },
        };
        match hash_ok {
            Err(_) => {
                return Err(AccountError::Internal);
            },
            Ok(false) => {
                return Err(AccountError::WrongPassword);
            },
            Ok(true) => {},
        }
        let token = random_token();
        match self.open_session(uid, token.clone()) {
            Ok(()) => Ok(token),
            Err(e) => Err(e),
        }
    }

    /// Bind `token` to the user, replacing any session the user already
    /// had. The write happens exactly when the token is not in use.
    pub fn open_session(&mut self, user_id: u64, token: String) -> (r: Result<(), AccountError>)
        requires
            old(self).wf(),
        ensures
            final(self).wf(),
            r is Err ==> *final(self) == *old(self),
            r matches Err(AccountError::Storage) <==> old(self).session_spec(token@) is Some,
            r is Ok <==> old(self).session_spec(token@) is None,
            r is Ok ==> final(self).sessions@ == sessions_without_user(
                old(self).sessions@,
                user_id,
            ).push((SessionRow { token, user_id })),
            final(self).services@ == old(self).services@,
            final(self).roles@ == old(self).roles@,
            final(self).role_permissions@ == old(self).role_permissions@,
            final(self).content_types@ == old(self).content_types@,
            final(self).fields@ == old(self).fields@,
            final(self).content_items@ == old(self).content_items@,
            final(self).users@ == old(self).users@,
    {
        if self.find_session(&token).is_some() {
            return Err(AccountError::Storage);
        }
        proof {
            lemma_find_session_none(self.sessions@, token@);
            lemma_sessions_without_user(self.sessions@, user_id);
        }
        let ghost pre = self.sessions@;
        let n: usize = self.sessions.len();
        let mut ix: usize = 0;
        let mut found: bool = false;
        while ix < n && !found
            invariant
                *self == *old(self),
                old(self).wf(),
                n == self.sessions@.len(),
                ix <= n,
                !found ==> forall|j: int|
                    0 <= j < ix ==> (#[trigger] self.sessions@[j]).user_id != user_id,
                found ==> ix < n && self.sessions@[ix as int].user_id == user_id,
            decreases n - ix + (if found { 0int } else { 1int }),
        {
            if self.sessions[ix].user_id == user_id {
                found = true;
            } else {
                ix = ix + 1;
            }
        }
        if found {
            proof {
                assert forall|j: int|
                    0 <= j < pre.len() && j != ix as int implies (#[trigger] pre[j]).user_id
                    != user_id by {
                    if j > ix as int {
                        assert(pre[ix as int].user_id == user_id);
                    }
                }
                lemma_sessions_without_user_remove(pre, user_id, ix as int);
            }
            self.sessions.remove(ix);
        } else {
            proof {
                lemma_sessions_without_user_identity(pre, user_id);
            }
        }
        self.sessions.push(SessionRow { token: token.clone(), user_id });
        proof {
            let kept = sessions_without_user(pre, user_id);
            assert(self.sessions@ == kept.push((SessionRow { token: token, user_id })));
            assert forall|i: int, j: int|
                0 <= i < j < self.sessions@.len() implies self.sessions@[i].token@
                != self.sessions@[j].token@ && self.sessions@[i].user_id
                != self.sessions@[j].user_id by {
                if j == self.sessions@.len() - 1 {
                    assert(self.sessions@[i] == kept[i]);
                    let m = choose|m: int| 0 <= m < pre.len() && pre[m] == kept[i];
                } else {
                    assert(self.sessions@[i] == kept[i] && self.sessions@[j] == kept[j]);
                }
            }
        }
        Ok(())
    }

    /// Drop the session holding `token`, if any; reports whether one
    /// was removed. Without a cookie there is nothing to do.
    pub fn logout(&mut self, token: Option<&String>) -> (removed: bool)
        requires
            old(self).wf(),
        ensures
            final(self).wf(),
            match header_view(token) {
                None => !removed && *final(self) == *old(self),
                Some(t) => {
                    &&& removed <==> old(self).session_spec(t) is Some
                    &&& !removed ==> *final(self) == *old(self)
                    &&& removed ==> exists|ix: int|
                        0 <= ix < old(self).sessions@.len() && old(self).sessions@[ix].token@ == t
                            && final(self).sessions@ == old(self).sessions@.remove(ix)
                    &&& final(self).session_spec(t) is None
                },
            },
            final(self).services@ == old(self).services@,
            final(self).roles@ == old(self).roles@,
            final(self).role_permissions@ == old(self).role_permissions@,
            final(self).content_types@ == old(self).content_types@,
            final(self).fields@ == old(self).fields@,
            final(self).content_items@ == old(self).content_items@,
            final(self).users@ == old(self).users@,
    {
        let t = match token {
            None => {
                return false;
            },
            Some(t) => t,
        };
        let n: usize = self.sessions.len();
        let mut ix: usize = 0;
        while ix < n
            invariant
                *self == *old(self),
                old(self).wf(),
                header_view(token) == Some(t@),
                n == self.sessions@.len(),
                ix <= n,
                forall|j: int| 0 <= j < ix ==> (#[trigger] self.sessions@[j]).token@ != t@,
            decreases n - ix,
        {
            if self.sessions[ix].token == *t {
                proof {
                    lemma_find_session_hit(self.sessions@, t@, ix as int);
                }
                let ghost pre = self.sessions@;
                self.sessions.remove(ix);
                proof {
                    assert forall|j: int|
                        0 <= j < self.sessions@.len() implies self.sessions@[j].token@ != t@ by {
                        if j < ix as int {
                            assert(self.sessions@[j] == pre[j]);
                        } else {
                            assert(self.sessions@[j] == pre[j + 1]);
                            assert(pre[ix as int].token@ == t@);
                        }
                    }
                    lemma_find_session_none(self.sessions@, t@);
                    assert(exists|k: int|
                        0 <= k < old(self).sessions@.len() && old(self).sessions@[k].token@ == t@
                            && self.sessions@ == old(self).sessions@.remove(k)) by {
                        assert(old(self).sessions@[ix as int].token@ == t@ && self.sessions@ == old(
                            self,
                        ).sessions@.remove(ix as int));
                    }
                }
                return true;
            }
            ix = ix + 1;
        }
        proof {
            lemma_find_session_none(self.sessions@, t@);
        }
        false
    }

    /// The session lookup outcome for a cookie token.
    pub open spec fn session_lookup_spec(self, token: Seq<char>) -> Lookup<u64> {
        match self.session_spec(token) {
            Some(row) => Lookup::Found(row.user_id),
            None => Lookup::Absent,
        }
    }

    /// The session gate on admin routes: a request authenticates
    /// exactly when its cookie token names a live session; the session's
    /// user flows to the handler.
    pub fn auth_check(&self, token: Option<&String>) -> (d: SessionDecision)
        ensures
            d == crate::access::session_decision_spec(
                header_view(token),
                match header_view(token) {
                    Some(t) => self.session_lookup_spec(t),
                    None => Lookup::Absent,
                },
            ),
    {
        let lookup = match token {
            None => Lookup::Absent,
            Some(t) => match self.find_session(t) {
                Some(row) => Lookup::Found(row.user_id),
                None => Lookup::Absent,
            },
        };
        crate::access::decide_session(token, &lookup)
    }

    /// Reset a forgotten password: mint a fresh 16-character password
    /// for the user with this email, store only its hash, and hand the
    /// password back for delivery to the user.
    pub fn forgot_password(&mut self, email: &String) -> (r: Result<String, AccountError>)
        requires
            old(self).wf(),
        ensures
            final(self).wf(),
            r is Err ==> *final(self) == *old(self),
            r matches Err(AccountError::UnknownEmail) <==> !old(self).email_taken_spec(email@),
            old(self).email_taken_spec(email@) ==> (r is Ok || r matches Err(
                AccountError::Internal,
            )),
            r matches Ok(pw) ==> {
                &&& pw@.len() == 16 && alphanumeric_string(pw@)
                &&& final(self).users@.len() == old(self).users@.len()
                &&& forall|j: int|
                    0 <= j < old(self).users@.len() && (#[trigger] old(self).users@[j]).email@
                        != email@ ==> final(self).users@[j] == old(self).users@[j]
                &&& forall|j: int|
                    0 <= j < old(self).users@.len() && (#[trigger] old(self).users@[j]).email@
                        == email@ ==> {
                        &&& final(self).users@[j].id == old(self).users@[j].id
                        &&& final(self).users@[j].username == old(self).users@[j].username
                        &&& final(self).users@[j].email == old(self).users@[j].email
                        &&& bcrypt_matches(pw@, final(self).users@[j].password_hash@)
                    }
            },
            final(self).services@ == old(self).services@,
            final(self).roles@ == old(self).roles@,
            final(self).role_permissions@ == old(self).role_permissions@,
            final(self).content_types@ == old(self).content_types@,
            final(self).fields@ == old(self).fields@,
            final(self).content_items@ == old(self).content_items@,
            final(self).sessions@ == old(self).sessions@,
    {
        if !self.email_taken(email) {
            return Err(AccountError::UnknownEmail);
        }
        let new_password = generate_key(16);
        let hash = match bcrypt_hash(new_password.as_str(), 10) {
            Ok(h) => h,
            Err(_) => {
                return Err(AccountError::Internal);
            },
        };
        match self.reset_password_with_hash(email, hash) {
            Ok(()) => Ok(new_password),
            Err(e) => Err(e),
        }
    }

    /// Replace the stored password hash of the user with this email.
    /// The write happens exactly when some user has the email; nothing
    /// else about any user changes.
    pub fn reset_password_with_hash(&mut self, email: &String, password_hash: String) -> (r:
        Result<(), AccountError>)
        requires
            old(self).wf(),
        ensures
            final(self).wf(),
            r is Err ==> *final(self) == *old(self),
            r matches Err(AccountError::UnknownEmail) <==> !old(self).email_taken_spec(email@),
            r is Ok <==> old(self).email_taken_spec(email@),
            r is Ok ==> {
                &&& final(self).users@.len() == old(self).users@.len()
                &&& forall|j: int|
                    0 <= j < old(self).users@.len() && (#[trigger] old(self).users@[j]).email@
                        != email@ ==> final(self).users@[j] == old(self).users@[j]
                &&& forall|j: int|
                    0 <= j < old(self).users@.len() && (#[trigger] old(self).users@[j]).email@
                        == email@ ==> {
                        &&& final(self).users@[j].id == old(self).users@[j].id
                        &&& final(self).users@[j].username == old(self).users@[j].username
                        &&& final(self).users@[j].email == old(self).users@[j].email
                        &&& final(self).users@[j].password_hash == password_hash
                    }
            },
            final(self).services@ == old(self).services@,
            final(self).roles@ == old(self).roles@,
            final(self).role_permissions@ == old(self).role_permissions@,
            final(self).content_types@ == old(self).content_types@,
            final(self).fields@ == old(self).fields@,
            final(self).content_items@ == old(self).content_items@,
            final(self).sessions@ == old(self).sessions@,
    {
        let n: usize = self.users.len();
        let mut ix: usize = 0;
        while ix < n
            invariant
                *self == *old(self),
                old(self).wf(),
                n == self.users@.len(),
                ix <= n,
                forall|j: int| 0 <= j < ix ==> (#[trigger] self.users@[j]).email@ != email@,
            decreases n - ix,
        {
            if self.users[ix].email == *email {
                let ghost pre = self.users@;
                let updated = UserRow {
                    id: self.users[ix].id,
                    username: self.users[ix].username.clone(),
                    email: self.users[ix].email.clone(),
                    password_hash,
                };
                self.users.set(ix, updated);
                proof {
                    assert forall|j: int|
                        0 <= j < pre.len() && (#[trigger] pre[j]).email@ == email@ implies j
                        == ix as int by {
                        if j != ix as int {
                            assert(pre[ix as int].email@ == email@);
                        }
                    }
                }
                return Ok(());
            }
            ix = ix + 1;
        }
        proof {
            assert(!self.email_taken_spec(email@));
        }
        Err(AccountError::UnknownEmail)
    }
}

/// A session scan that hits at `ix`, with no earlier hit, finds exactly
/// that row.
proof fn lemma_find_session_hit(s: Seq<SessionRow>, token: Seq<char>, ix: int)
    requires
        0 <= ix < s.len(),
        s[ix].token@ == token,
        forall|j: int| 0 <= j < ix ==> (#[trigger] s[j]).token@ != token,
    ensures
        crate::store::find_session_spec(s, token) == Some(s[ix]),
    decreases s.len(),
{
    if ix > 0 {
        assert forall|j: int| 0 <= j < ix - 1 implies (#[trigger] s.drop_first()[j]).token@
            != token by {
            assert(s.drop_first()[j] == s[j + 1]);
        }
        assert(s.drop_first()[ix - 1] == s[ix]);
        lemma_find_session_hit(s.drop_first(), token, ix - 1);
    }
}

/// A second login from elsewhere invalidates the first session: once a
/// user's sessions are replaced by one holding a new token, the old
/// token no longer authenticates.
pub proof fn lemma_second_login_invalidates(
    s0: Store,
    s1: Store,
    user_id: u64,
    old_token: Seq<char>,
    new_row: SessionRow,
)
    requires
        s0.wf(),
        s0.session_spec(old_token) matches Some(sess) && sess.user_id == user_id,
        new_row.token@ != old_token,
        s1.sessions@ == sessions_without_user(s0.sessions@, user_id).push(new_row),
    ensures
        s1.session_spec(old_token) is None,
{
    let sess = s0.session_spec(old_token)->Some_0;
    lemma_find_session_some(s0.sessions@, old_token, sess);
    let si = choose|i: int| 0 <= i < s0.sessions@.len() && s0.sessions@[i] == sess;
    lemma_sessions_without_user(s0.sessions@, user_id);
    let kept = sessions_without_user(s0.sessions@, user_id);
    assert forall|j: int| 0 <= j < s1.sessions@.len() implies s1.sessions@[j].token@
        != old_token by {
        if j < kept.len() {
            assert(s1.sessions@[j] == kept[j]);
            let m = choose|m: int| 0 <= m < s0.sessions@.len() && s0.sessions@[m] == kept[j];
            if s0.sessions@[m].token@ == old_token {
                assert(m == si);
            }
        }
    }
    lemma_find_session_none(s1.sessions@, old_token);
}

} // verus!
