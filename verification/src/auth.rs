//! The authentication flows: registration, login, logout, session
//! validation, and the credential-reset flow, together with the laws that
//! relate them.
//!
//! Each flow is a function from the store and the request's plain values to
//! the next store state and a response; transport (cookies, routes, outbound
//! mail) stays outside and hands plain values in and out.

use vstd::prelude::*;
use crate::errors::AuthError;
use crate::hashing::hash_password;
use crate::hashing::password_matches;
use crate::hashing::verify_password;
use crate::random::generate_temp_password;
use crate::random::is_alphanumeric_char;
use crate::random::TEMP_PASSWORD_LEN;
use crate::store::count_with_email;
use crate::store::user_rotated;
use crate::store::AuthStore;

verus! {

/// A registration request.
pub struct RegisterDetails {
    pub username: String,
    pub email: String,
    pub password: String,
}

/// A login request.
pub struct LoginDetails {
    pub username: String,
    pub password: String,
}

/// What a completed reset hands back for delivery: the plaintext temporary
/// password and how many rows were rotated.
pub struct PasswordReset {
    pub temp_password: String,
    pub rows_affected: usize,
}

/// The pair names a stored user whose hash accepts the password.
pub open spec fn credentials_ok(s: AuthStore, name: Seq<char>, pass: Seq<char>) -> bool {
    exists|i: int|
        0 <= i < s.users@.len() && #[trigger] s.users@[i].username@ == name && password_matches(
            pass,
            s.users@[i].password_hash@,
        )
}

/// The id a valid login under `name` resolves to.
pub open spec fn login_user_id(s: AuthStore, name: Seq<char>) -> u64 {
    s.users@[s.user_index(name)].id
}

/// What a completed registration leaves behind: one new user at the end of
/// the table, carrying the given identity and a hash that accepts `pass`;
/// everything else untouched.
pub open spec fn register_effect(
    pre: AuthStore,
    post: AuthStore,
    id: u64,
    name: Seq<char>,
    email: Seq<char>,
    pass: Seq<char>,
) -> bool {
    &&& !pre.has_username(name)
    &&& post.users@.len() == pre.users@.len() + 1
    &&& forall|i: int| 0 <= i < pre.users@.len() ==> #[trigger] post.users@[i] == pre.users@[i]
    &&& post.users@.last().id == id
    &&& post.users@.last().username@ == name
    &&& post.users@.last().email@ == email
    &&& password_matches(pass, post.users@.last().password_hash@)
    &&& post.sessions@ == pre.sessions@
}

/// What a completed login leaves behind: the fresh token bound to the user,
/// any session that user held before gone, every other user's sessions
/// untouched — and the token was not another user's.
pub open spec fn login_effect(pre: AuthStore, post: AuthStore, uid: u64, token: u128) -> bool {
    &&& post.users@ == pre.users@
    &&& post.next_user_id == pre.next_user_id
    &&& !pre.token_taken_by_other(token, uid)
    &&& AuthStore::upsert_effect(pre, post, uid, token)
}

/// Every user under `email` now stores the hash `h`, every other user is
/// untouched, and identity fields never change.
pub open spec fn rotated_all(pre: AuthStore, post: AuthStore, email: Seq<char>, h: Seq<char>) -> bool {
    forall|i: int|
        0 <= i < pre.users@.len() ==> user_rotated(pre.users@[i], #[trigger] post.users@[i], email, h)
}

/// What a completed credential reset leaves behind: sessions and identity
/// fields untouched, and one fresh hash, accepting the temporary password,
/// stored for every user registered under the address.
pub open spec fn reset_effect(
    pre: AuthStore,
    post: AuthStore,
    email: Seq<char>,
    temp: Seq<char>,
) -> bool {
    &&& post.users@.len() == pre.users@.len()
    &&& post.sessions@ == pre.sessions@
    &&& post.next_user_id == pre.next_user_id
    &&& exists|h: Seq<char>| #[trigger] password_matches(temp, h) && rotated_all(pre, post, email, h)
}

/// Registers a new account: hashes the password and stores the new user.
/// Refused with `DuplicateRegistration` exactly when the username is taken;
/// `StoreUnavailable` is only the hashing engine or the id space failing.
pub fn register(store: &mut AuthStore, details: &RegisterDetails) -> (r: Result<u64, AuthError>)
    requires
        old(store).wf(),
    ensures
        final(store).wf(),
        r == Err::<u64, AuthError>(AuthError::DuplicateRegistration) <==> old(store).has_username(
            details.username@,
        ),
        r matches Ok(id) ==> id == old(store).next_user_id && register_effect(
            *old(store),
            *final(store),
            id,
            details.username@,
            details.email@,
            details.password@,
        ),
        r is Err ==> *final(store) == *old(store) && (r == Err::<u64, AuthError>(
            AuthError::DuplicateRegistration,
        ) || r == Err::<u64, AuthError>(AuthError::StoreUnavailable)),
{
    if store.contains_username(&details.username) {
        return Err(AuthError::DuplicateRegistration);
    }
    let hashed = match hash_password(&details.password) {
        None => {
            return Err(AuthError::StoreUnavailable);
        },
        Some(h) => h,
    };
    match store.create_user(&details.username, &details.email, &hashed) {
        Ok(id) => Ok(id),
        Err(e) => Err(e),
    }
}

/// The deterministic core of login: credentials are checked against the
/// store and, when they hold, `token` replaces whatever session the user
/// held. Success exactly when the credentials name a user whose hash
/// accepts the password and the token is not another user's;
/// `InvalidCredentials` exactly when the credentials fail, never saying
/// which part; `StoreUnavailable` only for a token collision.
pub fn login_with_token(store: &mut AuthStore, details: &LoginDetails, token: u128) -> (r: Result<
    u128,
    AuthError,
>)
    requires
        old(store).wf(),
    ensures
        final(store).wf(),
        r is Ok <==> credentials_ok(*old(store), details.username@, details.password@) && !old(
            store,
        ).token_taken_by_other(token, login_user_id(*old(store), details.username@)),
        r matches Ok(tok) ==> tok == token && login_effect(
            *old(store),
            *final(store),
            login_user_id(*old(store), details.username@),
            token,
        ),
        r == Err::<u128, AuthError>(AuthError::InvalidCredentials) <==> !credentials_ok(
            *old(store),
            details.username@,
            details.password@,
        ),
        r is Err ==> *final(store) == *old(store) && (r == Err::<u128, AuthError>(
            AuthError::InvalidCredentials,
        ) || r == Err::<u128, AuthError>(AuthError::StoreUnavailable)),
{
    let ghost pre = *old(store);
    let user = match store.find_user_by_username(&details.username) {
        None => {
            proof {
                if credentials_ok(pre, details.username@, details.password@) {
                    let i = choose|i: int|
                        0 <= i < pre.users@.len() && #[trigger] pre.users@[i].username@
                            == details.username@ && password_matches(
                            details.password@,
                            pre.users@[i].password_hash@,
                        );
                    assert(pre.has_username(details.username@));
                }
            }
            return Err(AuthError::InvalidCredentials);
        },
        Some(u) => u,
    };
    let ghost widx: int = choose|i: int|
        0 <= i < pre.users@.len() && #[trigger] pre.users@[i].username@ == details.username@
            && pre.users@[i].id == user.id && pre.users@[i].username@ == user.username@
            && pre.users@[i].email@ == user.email@ && pre.users@[i].password_hash@
            == user.password_hash@;
    if !verify_password(&details.password, &user.password_hash) {
        proof {
            if credentials_ok(pre, details.username@, details.password@) {
                let j = choose|j: int|
                    0 <= j < pre.users@.len() && #[trigger] pre.users@[j].username@
                        == details.username@ && password_matches(
                        details.password@,
                        pre.users@[j].password_hash@,
                    );
                assert(j == widx);
                assert(false);
            }
        }
        return Err(AuthError::InvalidCredentials);
    }
    proof {
        assert(credentials_ok(pre, details.username@, details.password@));
        let j = pre.user_index(details.username@);
        assert(0 <= j < pre.users@.len() && pre.users@[j].username@ == details.username@);
        assert(j == widx);
        assert(login_user_id(pre, details.username@) == user.id);
    }
    match store.upsert_session(user.id, token) {
        Ok(_) => Ok(token),
        Err(e) => Err(e),
    }
}

/// Logs a user in: draws a fresh random session token and hands it, with
/// the request, to `login_with_token`. Whatever token was drawn: bad
/// credentials are `InvalidCredentials` and nothing changes; on success the
/// returned token has replaced the user's previous session. And where no
/// draw can collide — no session in the store belongs to anyone but the
/// requesting user — valid credentials are owed success.
pub fn login(store: &mut AuthStore, details: &LoginDetails) -> (r: Result<u128, AuthError>)
    requires
        old(store).wf(),
    ensures
        final(store).wf(),
        r == Err::<u128, AuthError>(AuthError::InvalidCredentials) <==> !credentials_ok(
            *old(store),
            details.username@,
            details.password@,
        ),
        r matches Ok(tok) ==> login_effect(
            *old(store),
            *final(store),
            login_user_id(*old(store), details.username@),
            tok,
        ),
        r is Err ==> *final(store) == *old(store) && (r == Err::<u128, AuthError>(
            AuthError::InvalidCredentials,
        ) || r == Err::<u128, AuthError>(AuthError::StoreUnavailable)),
        credentials_ok(*old(store), details.username@, details.password@) && (forall|
            t: u128,
            u: u64,
        |
            #[trigger] old(store).session_maps(t, u) ==> u == login_user_id(
                *old(store),
                details.username@,
            )) ==> r is Ok,
{
    let token: u128 = rand::random::<u128>();
    proof {
        let pre = *old(store);
        let uid = login_user_id(pre, details.username@);
        if pre.token_taken_by_other(token, uid) {
            let u = choose|u: u64| u != uid && pre.session_maps(token, u);
            assert(pre.session_maps(token, u));
        }
    }
    login_with_token(store, details, token)
}

/// Ends the caller's session: deletes exactly the session named by the
/// presented cookie token — delete-by-token, so a newer session of the same
/// user, issued by a racing login, is never invalidated. Idempotent: an
/// absent or unknown token leaves the store as it was.
pub fn logout(store: &mut AuthStore, cookie: Option<u128>)
    requires
        old(store).wf(),
    ensures
        final(store).wf(),
        final(store).users@ == old(store).users@,
        final(store).next_user_id == old(store).next_user_id,
        match cookie {
            None => *final(store) == *old(store),
            Some(t) => AuthStore::delete_effect(*old(store), *final(store), t),
        },
{
    match cookie {
        None => {},
        Some(t) => store.delete_session(t),
    }
}

/// The session validator guarding every protected route: read-only, it
/// accepts exactly a presented token the store maps to a user and resolves
/// it to that user's id; a missing, revoked or forged token is
/// `SessionNotFound` (forbidden), terminal for the request.
pub fn validate_session(store: &AuthStore, cookie: Option<u128>) -> (r: Result<u64, AuthError>)
    ensures
        match cookie {
            None => r == Err::<u64, AuthError>(AuthError::SessionNotFound),
            Some(t) => {
                &&& (r matches Ok(uid) ==> store.session_maps(t, uid))
                &&& (r is Err ==> r == Err::<u64, AuthError>(AuthError::SessionNotFound)
                    && !store.has_token(t))
                &&& (store.has_token(t) ==> r is Ok)
            },
        },
{
    match cookie {
        None => Err(AuthError::SessionNotFound),
        Some(t) => match store.find_session_by_token(t) {
            Some(uid) => Ok(uid),
            None => Err(AuthError::SessionNotFound),
        },
    }
}

/// The credential-reset flow, short of delivery: draws a fixed-length
/// random alphanumeric temporary password, hashes it, and rotates the hash
/// of every user under the address — silently affecting zero rows for an
/// unknown address. The plaintext comes back for the caller to deliver;
/// sessions are untouched. `StoreUnavailable` only when the hashing engine
/// failed, and then nothing changed.
pub fn forgot_password(store: &mut AuthStore, email: &String) -> (r: Result<
    PasswordReset,
    AuthError,
>)
    requires
        old(store).wf(),
    ensures
        final(store).wf(),
        r matches Ok(reset) ==> {
            &&& reset_effect(*old(store), *final(store), email@, reset.temp_password@)
            &&& reset.temp_password@.len() == TEMP_PASSWORD_LEN
            &&& forall|i: int|
                0 <= i < reset.temp_password@.len() ==> is_alphanumeric_char(
                    #[trigger] reset.temp_password@[i],
                )
            &&& reset.rows_affected as nat == count_with_email(old(store).users@, email@)
        },
        r is Err ==> *final(store) == *old(store) && r == Err::<PasswordReset, AuthError>(
            AuthError::StoreUnavailable,
        ),
{
    let temp = generate_temp_password();
    let hashed = match hash_password(&temp) {
        None => {
            return Err(AuthError::StoreUnavailable);
        },
        Some(h) => h,
    };
    let rows = store.update_password_hash(email, &hashed);
    proof {
        assert(rotated_all(*old(store), *store, email@, hashed@));
    }
    Ok(PasswordReset { temp_password: temp, rows_affected: rows })
}

/// Turns the outcome of the notification step into the flow's answer: a
/// failed delivery is its own error, distinct from store trouble, so
/// operators can reconcile a rotated password whose notification never
/// went out.
pub fn report_delivery(delivered: bool) -> (r: Result<(), AuthError>)
    ensures
        r is Ok <==> delivered,
        !delivered ==> r == Err::<(), AuthError>(AuthError::DeliveryFailed),
{
    if delivered {
        Ok(())
    } else {
        Err(AuthError::DeliveryFailed)
    }
}

/// Registering makes the credentials valid: the user the registration
/// created carries a hash that accepts the registered password, so a
/// following login with the same pair finds them.
pub proof fn lemma_register_enables_login(
    pre: AuthStore,
    post: AuthStore,
    id: u64,
    name: Seq<char>,
    email: Seq<char>,
    pass: Seq<char>,
)
    requires
        register_effect(pre, post, id, name, email, pass),
    ensures
        credentials_ok(post, name, pass),
{
    let n = post.users@.len() - 1;
    assert(post.users@[n] == post.users@.last());
    assert(post.users@[n].username@ == name);
    assert(credentials_ok(post, name, pass));
}

/// A successful login leaves a session the validator accepts: the fresh
/// token resolves to the logged-in user.
pub proof fn lemma_login_session_accepted(pre: AuthStore, post: AuthStore, uid: u64, token: u128)
    requires
        login_effect(pre, post, uid, token),
    ensures
        post.session_maps(token, uid),
        post.has_token(token),
{
    assert(post.session_maps(token, uid));
}

/// Two sequential logins by the same user: the first token is rejected by
/// the validator — it belongs to nobody any more — and the second is
/// accepted.
pub proof fn lemma_relogin_revokes_first(
    s0: AuthStore,
    s1: AuthStore,
    s2: AuthStore,
    uid: u64,
    t1: u128,
    t2: u128,
)
    requires
        login_effect(s0, s1, uid, t1),
        login_effect(s1, s2, uid, t2),
        t1 != t2,
    ensures
        s2.session_maps(t2, uid),
        !s2.has_token(t1),
{
    assert(s2.session_maps(t2, uid));
    assert(!s2.has_token(t1)) by {
        if s2.has_token(t1) {
            let u = choose|u: u64| s2.session_maps(t1, u);
            assert(s1.session_maps(t1, u) && u != uid);
            assert(s0.session_maps(t1, u));
            assert(s0.token_taken_by_other(t1, uid));
            assert(false);
        }
    }
}

/// Logout removes exactly the presented token's session: the token is gone
/// for every claimed owner, and any other session — in particular a newer
/// one belonging to the same user — survives.
pub proof fn lemma_logout_deletes_only_own(
    pre: AuthStore,
    post: AuthStore,
    presented: u128,
    t: u128,
    u: u64,
)
    requires
        AuthStore::delete_effect(pre, post, presented),
        pre.session_maps(t, u),
        t != presented,
    ensures
        post.session_maps(t, u),
        !post.has_token(presented),
{
    assert(post.session_maps(t, u));
    assert(!post.has_token(presented)) by {
        if post.has_token(presented) {
            let w = choose|w: u64| post.session_maps(presented, w);
            assert(pre.session_maps(presented, w) && presented != presented);
        }
    }
}

/// After a credential reset, the temporary password is accepted for every
/// user registered under the address — whether or not its delivery
/// succeeded plays no part in it.
pub proof fn lemma_reset_enables_login(
    pre: AuthStore,
    post: AuthStore,
    email: Seq<char>,
    temp: Seq<char>,
    i: int,
)
    requires
        reset_effect(pre, post, email, temp),
        0 <= i < pre.users@.len(),
        pre.users@[i].email@ == email,
    ensures
        credentials_ok(post, pre.users@[i].username@, temp),
{
    let h = choose|h: Seq<char>| #[trigger]
        password_matches(temp, h) && rotated_all(pre, post, email, h);
    assert(user_rotated(pre.users@[i], post.users@[i], email, h));
    assert(post.users@[i].username@ == pre.users@[i].username@);
    assert(password_matches(temp, post.users@[i].password_hash@));
    assert(credentials_ok(post, pre.users@[i].username@, temp));
}

} // verus!
