//! The credential store: an explicit model of the one authoritative
//! relational store for users and sessions.
//!
//! `users` models a table whose `id` and `username` columns are unique;
//! `sessions` models a table whose `session_id` (the token) and `user_id`
//! columns are both unique, so a token identifies exactly one user and a user
//! holds at most one live session. Every operation is atomic at the row
//! level; `upsert_session` is a single conditional write keyed by user id.
//!
//! The store lives in memory with its process: it models the row semantics
//! of the one authoritative relational store, not its durability. A
//! deployment that needs persistence, or session state shared across
//! instances, must put a durable store behind these same contracts.

use vstd::prelude::*;
use crate::errors::AuthError;

verus! {

/// A durable identity record. `id` and `username` are unique across the
/// store; `email` is the reset-delivery address; the password is held only
/// as a one-way hash and never compared in plaintext.
pub struct User {
    pub id: u64,
    pub username: String,
    pub email: String,
    pub password_hash: String,
}

impl User {
    /// A field-for-field copy (the derived `Clone` would say nothing of the
    /// relation between copy and original).
    pub fn duplicate(&self) -> (r: User)
        ensures
            r.id == self.id,
            r.username@ == self.username@,
            r.email@ == self.email@,
            r.password_hash@ == self.password_hash@,
    {
        User {
            id: self.id,
            username: self.username.clone(),
            email: self.email.clone(),
            password_hash: self.password_hash.clone(),
        }
    }
}

/// Proof of an authenticated client: an unguessable token owned by exactly
/// one user.
pub struct Session {
    pub token: u128,
    pub user_id: u64,
}

/// How many users of `users` carry the address `email`.
pub open spec fn count_with_email(users: Seq<User>, email: Seq<char>) -> nat
    decreases users.len(),
{
    if users.len() == 0 {
        0
    } else {
        count_with_email(users.drop_last(), email) + if users.last().email@ == email {
            1nat
        } else {
            0nat
        }
    }
}

/// One unfolding step of `count_with_email` over a growing prefix.
proof fn lemma_count_take_step(users: Seq<User>, email: Seq<char>, i: int)
    requires
        0 <= i < users.len(),
    ensures
        count_with_email(users.take(i + 1), email) == count_with_email(users.take(i), email) + if users[i].email@ == email {
            1nat
        } else {
            0nat
        },
{
    assert(users.take(i + 1).drop_last() =~= users.take(i));
    assert(users.take(i + 1).last() == users[i]);
}

/// `post` is `pre` with its password hash replaced by `new_hash` when the
/// email matches, and untouched otherwise; identity fields never change.
pub open spec fn user_rotated(pre: User, post: User, email: Seq<char>, new_hash: Seq<char>) -> bool {
    &&& post.id == pre.id
    &&& post.username@ == pre.username@
    &&& post.email@ == pre.email@
    &&& post.password_hash@ == if pre.email@ == email {
        new_hash
    } else {
        pre.password_hash@
    }
}

/// The authoritative store for users and sessions.
pub struct AuthStore {
    pub users: Vec<User>,
    pub sessions: Vec<Session>,
    /// The id the next created user receives; every stored id is below it.
    pub next_user_id: u64,
}

impl AuthStore {
    /// The `users` table's column constraints: `id` and `username` unique,
    /// and every id below the allocator's watermark.
    pub open spec fn users_wf(self) -> bool {
        &&& forall|i: int, j: int|
            0 <= i < self.users@.len() && 0 <= j < self.users@.len() && i != j
                ==> #[trigger] self.users@[i].id != #[trigger] self.users@[j].id
        &&& forall|i: int, j: int|
            0 <= i < self.users@.len() && 0 <= j < self.users@.len() && i != j
                ==> #[trigger] self.users@[i].username@ != #[trigger] self.users@[j].username@
        &&& forall|i: int|
            0 <= i < self.users@.len() ==> #[trigger] self.users@[i].id < self.next_user_id
    }

    /// The `sessions` table's column constraints: token and owning user both
    /// unique, so a user has at most one live session.
    pub open spec fn sessions_wf(self) -> bool {
        &&& forall|i: int, j: int|
            0 <= i < self.sessions@.len() && 0 <= j < self.sessions@.len() && i != j
                ==> #[trigger] self.sessions@[i].token != #[trigger] self.sessions@[j].token
        &&& forall|i: int, j: int|
            0 <= i < self.sessions@.len() && 0 <= j < self.sessions@.len() && i != j
                ==> #[trigger] self.sessions@[i].user_id != #[trigger] self.sessions@[j].user_id
    }

    pub open spec fn wf(self) -> bool {
        self.users_wf() && self.sessions_wf()
    }

    /// Some stored user carries this username.
    pub open spec fn has_username(self, name: Seq<char>) -> bool {
        exists|i: int| 0 <= i < self.users@.len() && #[trigger] self.users@[i].username@ == name
    }

    /// The index of the user carrying this username; well defined whenever
    /// `users_wf` holds and the name is present.
    pub open spec fn user_index(self, name: Seq<char>) -> int {
        choose|i: int| 0 <= i < self.users@.len() && #[trigger] self.users@[i].username@ == name
    }

    /// The session table binds `token` to `uid`.
    pub open spec fn session_maps(self, token: u128, uid: u64) -> bool {
        exists|i: int|
            0 <= i < self.sessions@.len() && #[trigger] self.sessions@[i].token == token
                && self.sessions@[i].user_id == uid
    }

    /// Some user owns `token`.
    pub open spec fn has_token(self, token: u128) -> bool {
        exists|uid: u64| self.session_maps(token, uid)
    }

    /// `token` is already bound to a user other than `uid`.
    pub open spec fn token_taken_by_other(self, token: u128, uid: u64) -> bool {
        exists|u: u64| u != uid && self.session_maps(token, u)
    }

    /// What binding `token` to `uid` leaves in the session table: the pair
    /// itself, and every other user's sessions unchanged — any session `uid`
    /// already held is gone.
    pub open spec fn upsert_effect(pre: AuthStore, post: AuthStore, uid: u64, token: u128) -> bool {
        forall|t: u128, u: u64|
            post.session_maps(t, u) <==> ((t == token && u == uid) || (pre.session_maps(t, u)
                && u != uid))
    }

    /// What deleting `token` leaves in the session table: every binding but
    /// the deleted token's, unchanged.
    pub open spec fn delete_effect(pre: AuthStore, post: AuthStore, token: u128) -> bool {
        forall|t: u128, u: u64|
            post.session_maps(t, u) <==> (pre.session_maps(t, u) && t != token)
    }

    /// An empty store; ids start at 1, as a relational sequence would.
    pub fn new() -> (s: AuthStore)
        ensures
            s.wf(),
            s.users@.len() == 0,
            s.sessions@.len() == 0,
            s.next_user_id == 1,
    {
        AuthStore { users: Vec::new(), sessions: Vec::new(), next_user_id: 1 }
    }

    /// Whether a user with this username exists.
    pub fn contains_username(&self, username: &String) -> (r: bool)
        ensures
            r == self.has_username(username@),
    {
        let mut i: usize = 0;
        while i < self.users.len()
            invariant
                0 <= i <= self.users@.len(),
                forall|j: int| 0 <= j < i ==> #[trigger] self.users@[j].username@ != username@,
            decreases self.users@.len() - i,
        {
            if self.users[i].username == *username {
                return true;
            }
            i += 1;
        }
        false
    }

    /// Looks a user up by username: a copy of the matching row, or `None`
    /// exactly when no row matches.
    pub fn find_user_by_username(&self, username: &String) -> (r: Option<User>)
        ensures
            match r {
                Some(u) => exists|i: int|
                    0 <= i < self.users@.len() && #[trigger] self.users@[i].username@ == username@
                        && self.users@[i].id == u.id && self.users@[i].username@ == u.username@
                        && self.users@[i].email@ == u.email@
                        && self.users@[i].password_hash@ == u.password_hash@,
                None => !self.has_username(username@),
            },
    {
        let mut i: usize = 0;
        while i < self.users.len()
            invariant
                0 <= i <= self.users@.len(),
                forall|j: int| 0 <= j < i ==> #[trigger] self.users@[j].username@ != username@,
            decreases self.users@.len() - i,
        {
            if self.users[i].username == *username {
                return Some(self.users[i].duplicate());
            }
            i += 1;
        }
        None
    }

    /// Creates a user. Succeeds exactly when the username is free and the id
    /// space is not exhausted; then the new row stands at the end of the
    /// table with the freshly allocated id, and nothing else changes.
    pub fn create_user(&mut self, username: &String, email: &String, password_hash: &String) -> (r:
        Result<u64, AuthError>)
        requires
            old(self).wf(),
        ensures
            final(self).wf(),
            r == if old(self).has_username(username@) {
                Err::<u64, AuthError>(AuthError::DuplicateRegistration)
            } else if old(self).next_user_id == u64::MAX {
                Err::<u64, AuthError>(AuthError::StoreUnavailable)
            } else {
                Ok::<u64, AuthError>(old(self).next_user_id)
            },
            r is Err ==> *final(self) == *old(self),
            r matches Ok(id) ==> {
                &&& final(self).users@.len() == old(self).users@.len() + 1
                &&& forall|i: int|
                    0 <= i < old(self).users@.len() ==> final(self).users@[i] == old(
                        self,
                    ).users@[i]
                &&& final(self).users@.last().id == id
                &&& final(self).users@.last().username@ == username@
                &&& final(self).users@.last().email@ == email@
                &&& final(self).users@.last().password_hash@ == password_hash@
                &&& final(self).sessions@ == old(self).sessions@
                &&& final(self).next_user_id == old(self).next_user_id + 1
            },
    {
        if self.contains_username(username) {
            return Err(AuthError::DuplicateRegistration);
        }
        if self.next_user_id == u64::MAX {
            return Err(AuthError::StoreUnavailable);
        }
        let id = self.next_user_id;
        self.next_user_id = id + 1;
        self.users.push(
            User {
                id,
                username: username.clone(),
                email: email.clone(),
                password_hash: password_hash.clone(),
            },
        );
        Ok(id)
    }

    /// Whether `token` is bound to a user other than `user_id`.
    fn token_owner_conflict(&self, token: u128, user_id: u64) -> (r: bool)
        ensures
            r == self.token_taken_by_other(token, user_id),
    {
        let mut i: usize = 0;
        while i < self.sessions.len()
            invariant
                0 <= i <= self.sessions@.len(),
                forall|j: int|
                    0 <= j < i ==> !(#[trigger] self.sessions@[j].token == token
                        && self.sessions@[j].user_id != user_id),
            decreases self.sessions@.len() - i,
        {
            if self.sessions[i].token == token && self.sessions[i].user_id != user_id {
                assert(self.session_maps(token, self.sessions@[i as int].user_id));
                return true;
            }
            i += 1;
        }
        assert(!self.token_taken_by_other(token, user_id)) by {
            if self.token_taken_by_other(token, user_id) {
                let u = choose|u: u64| u != user_id && self.session_maps(token, u);
                let j = choose|j: int|
                    0 <= j < self.sessions@.len() && #[trigger] self.sessions@[j].token == token
                        && self.sessions@[j].user_id == u;
                assert(false);
            }
        }
        false
    }

    /// The index of the session row owned by `user_id`, if there is one.
    fn session_row_of_user(&self, user_id: u64) -> (r: Option<usize>)
        ensures
            match r {
                Some(k) => 0 <= k < self.sessions@.len() && self.sessions@[k as int].user_id
                    == user_id,
                None => forall|j: int|
                    0 <= j < self.sessions@.len() ==> #[trigger] self.sessions@[j].user_id
                        != user_id,
            },
    {
        let mut i: usize = 0;
        while i < self.sessions.len()
            invariant
                0 <= i <= self.sessions@.len(),
                forall|j: int| 0 <= j < i ==> #[trigger] self.sessions@[j].user_id != user_id,
            decreases self.sessions@.len() - i,
        {
            if self.sessions[i].user_id == user_id {
                return Some(i);
            }
            i += 1;
        }
        None
    }

    /// The index of the session row carrying `token`, if there is one.
    fn session_row_of_token(&self, token: u128) -> (r: Option<usize>)
        ensures
            match r {
                Some(k) => 0 <= k < self.sessions@.len() && self.sessions@[k as int].token
                    == token,
                None => forall|j: int|
                    0 <= j < self.sessions@.len() ==> #[trigger] self.sessions@[j].token != token,
            },
    {
        let mut i: usize = 0;
        while i < self.sessions.len()
            invariant
                0 <= i <= self.sessions@.len(),
                forall|j: int| 0 <= j < i ==> #[trigger] self.sessions@[j].token != token,
            decreases self.sessions@.len() - i,
        {
            if self.sessions[i].token == token {
                return Some(i);
            }
            i += 1;
        }
        None
    }

    /// Binds `token` to `user_id` in one atomic conditional write keyed by
    /// the user: any session the user already held is replaced, every other
    /// user's session is untouched. Refused only when the token is already
    /// bound to a different user (the unique token column).
    pub fn upsert_session(&mut self, user_id: u64, token: u128) -> (r: Result<(), AuthError>)
        requires
            old(self).wf(),
        ensures
            final(self).wf(),
            final(self).users@ == old(self).users@,
            final(self).next_user_id == old(self).next_user_id,
            r is Ok <==> !old(self).token_taken_by_other(token, user_id),
            r is Err ==> *final(self) == *old(self) && r == Err::<(), AuthError>(
                AuthError::StoreUnavailable,
            ),
            r is Ok ==> AuthStore::upsert_effect(*old(self), *final(self), user_id, token),
    {
        if self.token_owner_conflict(token, user_id) {
            return Err(AuthError::StoreUnavailable);
        }
        let row = self.session_row_of_user(user_id);
        match row {
            Some(k) => {
                self.sessions[k] = Session { token, user_id };
                proof {
                    let pre = *old(self);
                    let oldsess = pre.sessions@;
                    assert(self.sessions@ == oldsess.update(k as int, Session { token, user_id }));
                    assert forall|t: u128, u: u64| #[trigger] self.session_maps(t, u) <==> ((t
                        == token && u == user_id) || (pre.session_maps(t, u) && u != user_id)) by {
                        if t == token && u == user_id {
                            assert(self.sessions@[k as int].token == token);
                            assert(self.session_maps(t, u));
                        }
                        if pre.session_maps(t, u) && u != user_id {
                            let i = choose|i: int|
                                0 <= i < oldsess.len() && #[trigger] oldsess[i].token == t
                                    && oldsess[i].user_id == u;
                            assert(i != k);
                            assert(self.sessions@[i].token == t);
                            assert(self.session_maps(t, u));
                        }
                        if self.session_maps(t, u) {
                            let i = choose|i: int|
                                0 <= i < self.sessions@.len()
                                    && #[trigger] self.sessions@[i].token == t
                                    && self.sessions@[i].user_id == u;
                            if i == k as int {
                                assert(self.sessions@[k as int] == Session { token, user_id });
                            } else {
                                assert(oldsess[i].token == t && oldsess[i].user_id == u);
                                assert(oldsess[i].user_id != oldsess[k as int].user_id);
                                assert(pre.session_maps(t, u) && u != user_id);
                            }
                        }
                    }
                    assert(AuthStore::upsert_effect(pre, *self, user_id, token));
                    assert forall|i: int, j: int|
                        0 <= i < self.sessions@.len() && 0 <= j < self.sessions@.len() && i != j
                            implies #[trigger] self.sessions@[i].token
                            != #[trigger] self.sessions@[j].token by {
                        if i == k as int || j == k as int {
                            let m = if i == k as int { j } else { i };
                            assert(oldsess[m].user_id != oldsess[k as int].user_id);
                            assert(!(oldsess[m].token == token && oldsess[m].user_id != user_id))
                                by {
                                if oldsess[m].token == token && oldsess[m].user_id != user_id {
                                    assert(pre.session_maps(token, oldsess[m].user_id));
                                    assert(pre.token_taken_by_other(token, user_id));
                                }
                            }
                        }
                    }
                }
                Ok(())
            },
            None => {
                self.sessions.push(Session { token, user_id });
                proof {
                    let pre = *old(self);
                    let oldsess = pre.sessions@;
                    let n = oldsess.len() as int;
                    assert(self.sessions@ == oldsess.push(Session { token, user_id }));
                    assert forall|t: u128, u: u64| #[trigger] self.session_maps(t, u) <==> ((t
                        == token && u == user_id) || (pre.session_maps(t, u) && u != user_id)) by {
                        if t == token && u == user_id {
                            assert(self.sessions@[n].token == token);
                            assert(self.session_maps(t, u));
                        }
                        if pre.session_maps(t, u) && u != user_id {
                            let i = choose|i: int|
                                0 <= i < oldsess.len() && #[trigger] oldsess[i].token == t
                                    && oldsess[i].user_id == u;
                            assert(self.sessions@[i].token == t);
                            assert(self.session_maps(t, u));
                        }
                        if self.session_maps(t, u) {
                            let i = choose|i: int|
                                0 <= i < self.sessions@.len()
                                    && #[trigger] self.sessions@[i].token == t
                                    && self.sessions@[i].user_id == u;
                            if i == n {
                                assert(self.sessions@[n] == Session { token, user_id });
                            } else {
                                assert(oldsess[i].user_id != user_id);
                                assert(pre.session_maps(t, u) && u != user_id);
                            }
                        }
                    }
                    assert(AuthStore::upsert_effect(pre, *self, user_id, token));
                    assert forall|i: int, j: int|
                        0 <= i < self.sessions@.len() && 0 <= j < self.sessions@.len() && i != j
                            implies #[trigger] self.sessions@[i].token
                            != #[trigger] self.sessions@[j].token by {
                        if i == n || j == n {
                            let m = if i == n { j } else { i };
                            assert(oldsess[m].user_id != user_id);
                            assert(!(oldsess[m].token == token && oldsess[m].user_id != user_id))
                                by {
                                if oldsess[m].token == token && oldsess[m].user_id != user_id {
                                    assert(pre.session_maps(token, oldsess[m].user_id));
                                    assert(pre.token_taken_by_other(token, user_id));
                                }
                            }
                        }
                    }
                }
                Ok(())
            },
        }
    }

    /// Resolves a presented token to its owning user, read-only: `Some`
    /// exactly when some session row carries the token.
    pub fn find_session_by_token(&self, token: u128) -> (r: Option<u64>)
        ensures
            match r {
                Some(uid) => self.session_maps(token, uid),
                None => !self.has_token(token),
            },
    {
        let row = self.session_row_of_token(token);
        match row {
            Some(k) => {
                let uid = self.sessions[k].user_id;
                assert(self.session_maps(token, uid));
                Some(uid)
            },
            None => {
                assert(!self.has_token(token)) by {
                    if self.has_token(token) {
                        let u = choose|u: u64| self.session_maps(token, u);
                        let j = choose|j: int|
                            0 <= j < self.sessions@.len() && #[trigger] self.sessions@[j].token
                                == token && self.sessions@[j].user_id == u;
                        assert(false);
                    }
                }
                None
            },
        }
    }

    /// Deletes the session carrying `token` and nothing else; idempotent, so
    /// an absent token leaves the store as it was.
    pub fn delete_session(&mut self, token: u128)
        requires
            old(self).wf(),
        ensures
            final(self).wf(),
            final(self).users@ == old(self).users@,
            final(self).next_user_id == old(self).next_user_id,
            AuthStore::delete_effect(*old(self), *final(self), token),
    {
        let row = self.session_row_of_token(token);
        match row {
            Some(k) => {
                self.sessions.remove(k);
                proof {
                    let pre = *old(self);
                    let oldsess = pre.sessions@;
                    let ki = k as int;
                    assert(self.sessions@ == oldsess.remove(ki));
                    assert forall|j: int| 0 <= j < self.sessions@.len() implies self.sessions@[j]
                        == (if j < ki {
                        oldsess[j]
                    } else {
                        oldsess[j + 1]
                    }) by {
                        assert(oldsess.remove(ki)[j] == if j < ki {
                            oldsess[j]
                        } else {
                            oldsess[j + 1]
                        });
                    }
                    assert forall|t: u128, u: u64|
                        self.session_maps(t, u) <==> (pre.session_maps(t, u) && t != token) by {
                        if pre.session_maps(t, u) && t != token {
                            let i = choose|i: int|
                                0 <= i < oldsess.len() && #[trigger] oldsess[i].token == t
                                    && oldsess[i].user_id == u;
                            assert(i != ki);
                            if i < ki {
                                assert(self.sessions@[i].token == t);
                            } else {
                                assert(self.sessions@[i - 1].token == t);
                            }
                            assert(self.session_maps(t, u));
                        }
                        if self.session_maps(t, u) {
                            let i = choose|i: int|
                                0 <= i < self.sessions@.len()
                                    && #[trigger] self.sessions@[i].token == t
                                    && self.sessions@[i].user_id == u;
                            if i < ki {
                                assert(oldsess[i].token == t && oldsess[i].user_id == u);
                                assert(oldsess[i].token != oldsess[ki].token);
                            } else {
                                assert(oldsess[i + 1].token == t && oldsess[i + 1].user_id == u);
                                assert(oldsess[i + 1].token != oldsess[ki].token);
                            }
                            assert(pre.session_maps(t, u) && t != token);
                        }
                    }
                    assert(AuthStore::delete_effect(pre, *self, token));
                }
            },
            None => {
                proof {
                    let pre = *old(self);
                    assert forall|t: u128, u: u64|
                        self.session_maps(t, u) <==> (pre.session_maps(t, u) && t != token) by {
                        if pre.session_maps(t, u) && t == token {
                            let i = choose|i: int|
                                0 <= i < pre.sessions@.len() && #[trigger] pre.sessions@[i].token
                                    == t && pre.sessions@[i].user_id == u;
                            assert(false);
                        }
                    }
                    assert(AuthStore::delete_effect(pre, *self, token));
                }
            },
        }
    }

    /// Rotates the stored hash of every user carrying `email` to `new_hash`
    /// — the reset flow's persistence step — and reports how many rows were
    /// affected. An unknown email affects zero rows and is not an error.
    pub fn update_password_hash(&mut self, email: &String, new_hash: &String) -> (r: usize)
        requires
            old(self).wf(),
        ensures
            final(self).wf(),
            final(self).sessions@ == old(self).sessions@,
            final(self).next_user_id == old(self).next_user_id,
            final(self).users@.len() == old(self).users@.len(),
            forall|i: int|
                0 <= i < old(self).users@.len() ==> user_rotated(
                    old(self).users@[i],
                    #[trigger] final(self).users@[i],
                    email@,
                    new_hash@,
                ),
            r as nat == count_with_email(old(self).users@, email@),
    {
        let ghost pre = *old(self);
        let mut c: usize = 0;
        let mut i: usize = 0;
        while i < self.users.len()
            invariant
                0 <= i <= self.users@.len(),
                self.users@.len() == pre.users@.len(),
                self.sessions@ == pre.sessions@,
                self.next_user_id == pre.next_user_id,
                forall|j: int| i <= j < pre.users@.len() ==> self.users@[j] == pre.users@[j],
                forall|j: int|
                    0 <= j < i ==> user_rotated(
                        pre.users@[j],
                        #[trigger] self.users@[j],
                        email@,
                        new_hash@,
                    ),
                c <= i,
                c as nat == count_with_email(pre.users@.take(i as int), email@),
            decreases self.users@.len() - i,
        {
            proof {
                lemma_count_take_step(pre.users@, email@, i as int);
            }
            if self.users[i].email == *email {
                self.users[i].password_hash = new_hash.clone();
                c = c + 1;
            }
            i += 1;
        }
        proof {
            assert(pre.users@.take(pre.users@.len() as int) =~= pre.users@);
            assert forall|a: int, b: int|
                0 <= a < self.users@.len() && 0 <= b < self.users@.len() && a != b
                    implies #[trigger] self.users@[a].id != #[trigger] self.users@[b].id by {
                assert(user_rotated(pre.users@[a], self.users@[a], email@, new_hash@));
                assert(user_rotated(pre.users@[b], self.users@[b], email@, new_hash@));
            }
            assert forall|a: int, b: int|
                0 <= a < self.users@.len() && 0 <= b < self.users@.len() && a != b
                    implies #[trigger] self.users@[a].username@
                    != #[trigger] self.users@[b].username@ by {
                assert(user_rotated(pre.users@[a], self.users@[a], email@, new_hash@));
                assert(user_rotated(pre.users@[b], self.users@[b], email@, new_hash@));
            }
            assert forall|a: int|
                0 <= a < self.users@.len() implies #[trigger] self.users@[a].id
                < self.next_user_id by {
                assert(user_rotated(pre.users@[a], self.users@[a], email@, new_hash@));
            }
        }
        c
    }
}

} // verus!
