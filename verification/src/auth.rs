//! The orchestrator: sequences the two stores per request and translates
//! store outcomes into a uniform response shape.

use crate::sessions::Sessions;
use crate::users::Users;
use vstd::prelude::*;

verus! {

/// The uniform outcome of every operation.
#[derive(Clone, Copy, Debug, PartialEq, Eq, Structural)]
pub enum StatusCode {
    Success,
    Failure,
}

/// The response to a sign-up: only a status, never an identity or a token
/// (sign-up does not auto-authenticate).
pub struct SignUpResponse {
    pub status_code: StatusCode,
}

/// The response to a sign-in: on success the identity and a fresh session
/// token, on failure both fields empty.
pub struct SignInResponse {
    pub status_code: StatusCode,
    pub user_uuid: String,
    pub session_token: String,
}

/// The response to a sign-out: always a success status.
pub struct SignOutResponse {
    pub status_code: StatusCode,
}

/// A sign-in authenticates exactly when the username is registered and the
/// supplied password equals the stored one. An unknown username and a
/// wrong password are indistinguishable through this predicate's negation,
/// as through the service's responses.
pub open spec fn credentials_match(
    creds: Map<Seq<char>, (Seq<char>, Seq<char>)>,
    username: Seq<char>,
    password: Seq<char>,
) -> bool {
    creds.contains_key(username) && creds[username].1 == password
}

/// A sign-up is accepted exactly when the username is not yet registered.
pub open spec fn sign_up_accepted(
    creds: Map<Seq<char>, (Seq<char>, Seq<char>)>,
    username: Seq<char>,
) -> bool {
    !creds.contains_key(username)
}

/// The effect of one serialized sign-up attempt on the credential map:
/// when accepted it gains the new entry, otherwise it is unchanged. This
/// is the transition that `AuthService::sign_up` ensures, with `entry` the
/// (identity, password) pair stored on acceptance.
pub open spec fn sign_up_step(
    creds: Map<Seq<char>, (Seq<char>, Seq<char>)>,
    username: Seq<char>,
    entry: (Seq<char>, Seq<char>),
) -> Map<Seq<char>, (Seq<char>, Seq<char>)> {
    if sign_up_accepted(creds, username) {
        creds.insert(username, entry)
    } else {
        creds
    }
}

/// How many of a series of serialized sign-up attempts for one username
/// are accepted, each attempt acting on the map the previous one left.
pub open spec fn sign_up_success_count(
    creds: Map<Seq<char>, (Seq<char>, Seq<char>)>,
    username: Seq<char>,
    entries: Seq<(Seq<char>, Seq<char>)>,
) -> nat
    decreases entries.len(),
{
    if entries.len() == 0 {
        0
    } else {
        (if sign_up_accepted(creds, username) {
            1nat
        } else {
            0nat
        }) + sign_up_success_count(
            sign_up_step(creds, username, entries[0]),
            username,
            entries.drop_first(),
        )
    }
}

/// Once a username is registered, no later serialized sign-up attempt for
/// it is accepted, whatever each attempt would store.
pub proof fn lemma_taken_username_never_accepted(
    creds: Map<Seq<char>, (Seq<char>, Seq<char>)>,
    username: Seq<char>,
    entries: Seq<(Seq<char>, Seq<char>)>,
)
    requires
        creds.contains_key(username),
    ensures
        sign_up_success_count(creds, username, entries) == 0,
    decreases entries.len(),
{
    if entries.len() > 0 {
        assert(sign_up_step(creds, username, entries[0]) == creds);
        lemma_taken_username_never_accepted(creds, username, entries.drop_first());
    }
}

/// Sign-up attempts for one username, however many and in whatever store
/// order the host serializes them, accept exactly one when the username is
/// free and none when it is already taken: the second of two sign-ups for
/// one name always fails, and of N racing sign-ups exactly one succeeds.
pub proof fn lemma_sign_up_exactly_once(
    creds: Map<Seq<char>, (Seq<char>, Seq<char>)>,
    username: Seq<char>,
    entries: Seq<(Seq<char>, Seq<char>)>,
)
    requires
        entries.len() > 0,
    ensures
        sign_up_success_count(creds, username, entries) == (if sign_up_accepted(
            creds,
            username,
        ) {
            1nat
        } else {
            0nat
        }),
{
    if sign_up_accepted(creds, username) {
        let next = sign_up_step(creds, username, entries[0]);
        assert(next.contains_key(username));
        lemma_taken_username_never_accepted(next, username, entries.drop_first());
    } else {
        lemma_taken_username_never_accepted(creds, username, entries);
    }
}

/// Sign-out is idempotent: revoking a token a second time leaves the same
/// session map as revoking it once, and after the first revocation the
/// token identifies no live session.
pub proof fn lemma_sign_out_idempotent(sessions: Map<Seq<char>, Seq<char>>, token: Seq<char>)
    ensures
        !sessions.remove(token).contains_key(token),
        sessions.remove(token).remove(token) == sessions.remove(token),
{
    assert(sessions.remove(token).remove(token) =~= sessions.remove(token));
}

/// The authentication orchestrator. It holds the two stores it was
/// constructed with, is itself stateless between requests, and sequences
/// at most one operation on each store per request.
pub struct AuthService<U: Users, S: Sessions> {
    users_service: U,
    sessions_service: S,
}

impl<U: Users, S: Sessions> AuthService<U, S> {
    /// The credential store's abstract content: username to
    /// (identity, password).
    pub closed spec fn creds(&self) -> Map<Seq<char>, (Seq<char>, Seq<char>)> {
        self.users_service.creds()
    }

    /// The session store's abstract content: token to identity.
    pub closed spec fn sessions(&self) -> Map<Seq<char>, Seq<char>> {
        self.sessions_service.sessions()
    }

    /// Builds the orchestrator over the two stores it will sequence.
    pub fn new(users_service: U, sessions_service: S) -> (s: Self)
        ensures
            s.creds() == users_service.creds(),
            s.sessions() == sessions_service.sessions(),
    {
        AuthService { users_service, sessions_service }
    }

    /// Registers a username: `Success` exactly when the username was free,
    /// and then the credential map gains the entry under a fresh, non-empty
    /// identity; on `Failure` the credentials are unchanged. Sign-up never
    /// touches the session store and returns no identity or token.
    pub fn sign_up(&mut self, username: String, password: String) -> (r: SignUpResponse)
        ensures
            final(self).sessions() == old(self).sessions(),
            r.status_code == StatusCode::Success <==> sign_up_accepted(
                old(self).creds(),
                username@,
            ),
            r.status_code == StatusCode::Failure ==> final(self).creds() == old(self).creds(),
            r.status_code == StatusCode::Success ==> exists|identity: Seq<char>|
                identity.len() > 0 && final(self).creds() == sign_up_step(
                    old(self).creds(),
                    username@,
                    (identity, password@),
                ),
    {
        let result = self.users_service.create_user(username, password);
        match result {
            Ok(_) => SignUpResponse { status_code: StatusCode::Success },
            Err(_) => SignUpResponse { status_code: StatusCode::Failure },
        }
    }

    /// Authenticates a (username, password) pair: `Success` exactly when
    /// the pair matches a registered credential, and then the response
    /// carries the non-empty identity and a fresh non-empty token under
    /// which the session map now holds that identity. On `Failure` both
    /// fields are empty and the session store was never touched — a failed
    /// authentication creates no session. The credentials are unchanged
    /// either way.
    pub fn sign_in(&mut self, username: String, password: String) -> (r: SignInResponse)
        ensures
            final(self).creds() == old(self).creds(),
            r.status_code == StatusCode::Success <==> credentials_match(
                old(self).creds(),
                username@,
                password@,
            ),
            r.status_code == StatusCode::Failure ==> r.user_uuid@ == Seq::<char>::empty()
                && r.session_token@ == Seq::<char>::empty() && final(self).sessions() == old(
                self,
            ).sessions(),
            r.status_code == StatusCode::Success ==> r.user_uuid@ == old(
                self,
            ).creds()[username@].0 && r.user_uuid@.len() > 0 && r.session_token@.len() > 0
                && final(self).sessions() == old(self).sessions().insert(
                r.session_token@,
                r.user_uuid@,
            ),
    {
        let result = self.users_service.get_user_uuid(username, password);
        match result {
            Some(user_uuid) => {
                let session_token = self.sessions_service.create_session(&user_uuid);
                SignInResponse { status_code: StatusCode::Success, user_uuid, session_token }
            },
            None => SignInResponse {
                status_code: StatusCode::Failure,
                user_uuid: String::new(),
                session_token: String::new(),
            },
        }
    }

    /// Revokes a session: always `Success`, whether the token was live,
    /// unknown or empty. The session map afterwards holds every session
    /// but the token's; the credentials are unchanged.
    pub fn sign_out(&mut self, session_token: String) -> (r: SignOutResponse)
        ensures
            r.status_code == StatusCode::Success,
            final(self).creds() == old(self).creds(),
            final(self).sessions() == old(self).sessions().remove(session_token@),
    {
        self.sessions_service.delete_session(&session_token);
        SignOutResponse { status_code: StatusCode::Success }
    }
}

} // verus!
