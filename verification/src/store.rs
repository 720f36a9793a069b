//! What the server remembers: the commitment of each registered user, the
//! challenge that is pending for a user, and the identifier under which a
//! pending challenge is answered.

use crate::bignat::BigNat;
use crate::zkp::{is_token, ZKP};
use vstd::hash_map::StringHashMap;
use vstd::prelude::*;

verus! {

/// The number of characters of an identifier that the server makes up.
pub const TOKEN_LENGTH: usize = 12;

/// Why a request was refused.
#[derive(Clone, Copy, Debug, PartialEq, Eq, Structural)]
pub enum AuthError {
    /// No user is registered under the name.
    UserNotFound,
    /// No pending challenge is answered under the identifier.
    AuthIdNotFound,
    /// The user is registered but has no pending challenge.
    ChallengeNotFound,
    /// The response does not satisfy both equations of the check.
    AuthenticationFailed,
    /// A number lies outside `[0, q)`.
    InvalidInput,
}

/// A challenge that waits for its response.
#[derive(Debug)]
pub struct ChallengeState {
    /// The identifier under which the response is sent.
    pub auth_id: String,
    /// The first message of the proof, `alpha^k mod p`.
    pub r1: BigNat,
    /// The first message of the proof, `beta^k mod p`.
    pub r2: BigNat,
    /// The challenge that the server chose.
    pub c: BigNat,
}

/// What the server holds of one registered user.
#[derive(Debug)]
pub struct UserInfo {
    /// The name under which the user registered.
    pub user_name: String,
    /// The commitment `alpha^x mod p`.
    pub y1: BigNat,
    /// The commitment `beta^x mod p`.
    pub y2: BigNat,
    /// The pending challenge, if there is one.
    pub challenge: Option<ChallengeState>,
}

/// A pending challenge as mathematics.
pub struct ChallengeView {
    pub auth_id: Seq<char>,
    pub r1: nat,
    pub r2: nat,
    pub c: nat,
}

/// A registered user as mathematics.
pub struct UserView {
    pub user_name: Seq<char>,
    pub y1: nat,
    pub y2: nat,
    pub challenge: Option<ChallengeView>,
}

/// The whole store as mathematics: the users by name, and the user of each
/// identifier.
pub struct StoreView {
    pub users: Map<Seq<char>, UserView>,
    pub auth_ids: Map<Seq<char>, Seq<char>>,
}

impl View for ChallengeState {
    type V = ChallengeView;

    open spec fn view(&self) -> ChallengeView {
        ChallengeView { auth_id: self.auth_id@, r1: self.r1@, r2: self.r2@, c: self.c@ }
    }
}

impl View for UserInfo {
    type V = UserView;

    open spec fn view(&self) -> UserView {
        UserView {
            user_name: self.user_name@,
            y1: self.y1@,
            y2: self.y2@,
            challenge: match self.challenge {
                Some(ch) => Some(ch@),
                None => None,
            },
        }
    }
}

impl Clone for ChallengeState {
    fn clone(&self) -> (copy: Self)
        ensures
            copy@ == self@,
    {
        ChallengeState {
            auth_id: self.auth_id.clone(),
            r1: self.r1.clone(),
            r2: self.r2.clone(),
            c: self.c.clone(),
        }
    }
}

impl StoreView {
    /// The store in which nobody is registered.
    pub open spec fn empty() -> StoreView {
        StoreView { users: Map::empty(), auth_ids: Map::empty() }
    }

    /// The invariant of the store: each user is filed under its own name,
    /// and each identifier leads to a user whose pending challenge carries
    /// that identifier.
    pub open spec fn wf(self) -> bool {
        &&& forall|u: Seq<char>| #[trigger]
            self.users.contains_key(u) ==> self.users[u].user_name == u
        &&& forall|a: Seq<char>| #[trigger]
            self.auth_ids.contains_key(a) ==> self.pending_under(self.auth_ids[a], a)
    }

    /// Whether `user` is registered and has a pending challenge with the
    /// identifier `auth_id`.
    pub open spec fn pending_under(self, user: Seq<char>, auth_id: Seq<char>) -> bool {
        &&& self.users.contains_key(user)
        &&& self.users[user].challenge matches Some(ch)
        &&& ch.auth_id == auth_id
    }

    /// Whether the pending challenge of `user` is answered under its own
    /// identifier. It is not where the user has no pending challenge, and
    /// where the identifier was given to another user since.
    pub open spec fn linked(self, user: Seq<char>) -> bool {
        &&& self.users.contains_key(user)
        &&& self.users[user].challenge matches Some(ch)
        &&& self.auth_ids.contains_key(ch.auth_id)
        &&& self.auth_ids[ch.auth_id] == user
    }

    /// The identifiers without the one that leads to the pending challenge
    /// of `user`. Identifiers that lead to other users all stay.
    pub open spec fn unlinked(self, user: Seq<char>) -> Map<Seq<char>, Seq<char>> {
        if self.linked(user) {
            self.auth_ids.remove(self.users[user].challenge->0.auth_id)
        } else {
            self.auth_ids
        }
    }

    /// The store without the pending challenge of `user`, and without the
    /// identifier that leads to it. Nothing changes where the user is not
    /// registered or has no pending challenge.
    pub open spec fn without_challenge(self, user: Seq<char>) -> StoreView {
        if self.users.contains_key(user) && self.users[user].challenge is Some {
            StoreView {
                users: self.users.insert(
                    user,
                    UserView { challenge: None, ..self.users[user] },
                ),
                auth_ids: self.unlinked(user),
            }
        } else {
            self
        }
    }

    /// The store after `user` registered the commitment `(y1, y2)`. Of a
    /// user who was registered before, only the commitment changes: a
    /// pending challenge stays pending. The identifiers and all other
    /// users are as they were.
    pub open spec fn register(self, user: Seq<char>, y1: nat, y2: nat) -> StoreView {
        StoreView {
            users: self.users.insert(
                user,
                if self.users.contains_key(user) {
                    UserView { y1, y2, ..self.users[user] }
                } else {
                    UserView { user_name: user, y1, y2, challenge: None }
                },
            ),
            auth_ids: self.auth_ids,
        }
    }

    /// The store after a challenge was issued to the registered `user`
    /// under `auth_id`. The challenge that was pending for the user is
    /// replaced, and the identifier that led to it is gone. The new
    /// identifier leads to `user` from now on, also where it led to
    /// another user before. All other users and all other identifiers are
    /// as they were.
    pub open spec fn issue(
        self,
        user: Seq<char>,
        r1: nat,
        r2: nat,
        c: nat,
        auth_id: Seq<char>,
    ) -> StoreView {
        StoreView {
            users: self.users.insert(
                user,
                UserView {
                    challenge: Some(ChallengeView { auth_id, r1, r2, c }),
                    ..self.users[user]
                },
            ),
            auth_ids: self.unlinked(user).insert(auth_id, user),
        }
    }
}

/// Under the invariant, the only identifier that can lead to a user is that
/// of the user's pending challenge.
pub proof fn lemma_unlinked(store: StoreView, user: Seq<char>)
    requires
        store.wf(),
    ensures
        forall|a: Seq<char>| #[trigger]
            store.unlinked(user).contains_key(a) ==> store.auth_ids.contains_key(a)
                && store.auth_ids[a] != user && store.unlinked(user)[a] == store.auth_ids[a],
        forall|a: Seq<char>|
            store.auth_ids.contains_key(a) && store.auth_ids[a] != user
                ==> #[trigger] store.unlinked(user).contains_key(a),
{
    assert forall|a: Seq<char>| #[trigger] store.unlinked(user).contains_key(a) implies
        store.auth_ids.contains_key(a) && store.auth_ids[a] != user && store.unlinked(user)[a]
        == store.auth_ids[a] by {
        assert(store.auth_ids.contains_key(a));
        assert(store.pending_under(store.auth_ids[a], a));
    }
}

/// Removing a pending challenge keeps the invariant.
pub proof fn lemma_without_challenge_wf(store: StoreView, user: Seq<char>)
    requires
        store.wf(),
    ensures
        store.without_challenge(user).wf(),
{
    lemma_unlinked(store, user);
    let after = store.without_challenge(user);
    assert forall|a: Seq<char>| #[trigger]
        after.auth_ids.contains_key(a) implies after.pending_under(after.auth_ids[a], a) by {
        assert(store.auth_ids.contains_key(a));
        assert(store.pending_under(store.auth_ids[a], a));
    }
}

/// Registering keeps the invariant.
pub proof fn lemma_register_wf(store: StoreView, user: Seq<char>, y1: nat, y2: nat)
    requires
        store.wf(),
    ensures
        store.register(user, y1, y2).wf(),
{
    let after = store.register(user, y1, y2);
    assert forall|a: Seq<char>| #[trigger]
        after.auth_ids.contains_key(a) implies after.pending_under(after.auth_ids[a], a) by {
        assert(store.pending_under(store.auth_ids[a], a));
    }
}

/// Issuing a challenge to a registered user keeps the invariant.
pub proof fn lemma_issue_wf(
    store: StoreView,
    user: Seq<char>,
    r1: nat,
    r2: nat,
    c: nat,
    auth_id: Seq<char>,
)
    requires
        store.wf(),
        store.users.contains_key(user),
    ensures
        store.issue(user, r1, r2, c, auth_id).wf(),
{
    lemma_unlinked(store, user);
    let after = store.issue(user, r1, r2, c, auth_id);
    assert forall|a: Seq<char>| #[trigger]
        after.auth_ids.contains_key(a) implies after.pending_under(after.auth_ids[a], a) by {
        if a != auth_id {
            assert(store.unlinked(user).contains_key(a));
            assert(store.pending_under(store.auth_ids[a], a));
        }
    }
}

/// The store itself: the users by name and the user of each identifier.
pub struct SessionStore {
    users: StringHashMap<UserInfo>,
    auth_ids: StringHashMap<String>,
}

impl View for SessionStore {
    type V = StoreView;

    closed spec fn view(&self) -> StoreView {
        StoreView {
            users: self.users@.map_values(|info: UserInfo| info@),
            auth_ids: self.auth_ids@.map_values(|user: String| user@),
        }
    }
}

impl SessionStore {
    /// A store in which nobody is registered.
    pub fn new() -> (store: SessionStore)
        ensures
            store@ == StoreView::empty(),
            store@.wf(),
    {
        let store = SessionStore { users: StringHashMap::new(), auth_ids: StringHashMap::new() };
        assert(store@.users =~= Map::empty());
        assert(store@.auth_ids =~= Map::empty());
        store
    }

    /// What is held of `user_name`, if the name is registered.
    pub fn find_user(&self, user_name: &str) -> (found: Option<&UserInfo>)
        ensures
            match found {
                Some(info) => self@.users.contains_key(user_name@) && info@
                    == self@.users[user_name@],
                None => !self@.users.contains_key(user_name@),
            },
    {
        self.users.get(user_name)
    }

    /// Removes the identifier that leads to the pending challenge of
    /// `user_name`, if there is one.
    fn unlink(&mut self, user_name: &str)
        ensures
            final(self)@.users == old(self)@.users,
            final(self)@.auth_ids == old(self)@.unlinked(user_name@),
    {
        let own = match self.users.get(user_name) {
            Some(info) => match &info.challenge {
                Some(ch) => match self.auth_ids.get(ch.auth_id.as_str()) {
                    Some(holder) => if *holder == user_name.to_owned() {
                        Some(ch.auth_id.clone())
                    } else {
                        None
                    },
                    None => None,
                },
                None => None,
            },
            None => None,
        };
        match own {
            Some(auth_id) => {
                self.auth_ids.remove(auth_id.as_str());
                assert(self@.auth_ids =~= old(self)@.unlinked(user_name@));
            },
            None => {},
        }
    }

    /// Registers `user_name` with the commitment `(y1, y2)`. Of a user who
    /// was registered before, only the commitment changes.
    pub fn put_registration(&mut self, user_name: &str, y1: BigNat, y2: BigNat)
        requires
            old(self)@.wf(),
        ensures
            final(self)@ == old(self)@.register(user_name@, y1@, y2@),
            final(self)@.auth_ids == old(self)@.auth_ids,
            final(self)@.wf(),
    {
        let info = match self.users.get(user_name) {
            Some(before) => UserInfo {
                user_name: before.user_name.clone(),
                y1,
                y2,
                challenge: match &before.challenge {
                    Some(ch) => Some(ch.clone()),
                    None => None,
                },
            },
            None => UserInfo { user_name: user_name.to_owned(), y1, y2, challenge: None },
        };
        self.users.insert(user_name.to_owned(), info);
        proof {
            assert(self@.users =~= old(self)@.register(user_name@, y1@, y2@).users);
            assert(self@.auth_ids =~= old(self)@.auth_ids);
            lemma_register_wf(old(self)@, user_name@, y1@, y2@);
        }
    }

    /// Files a challenge for `user_name` under the given identifier. Fails
    /// with `UserNotFound`, and changes nothing, where the name is not
    /// registered.
    pub fn put_challenge_with(
        &mut self,
        user_name: &str,
        r1: BigNat,
        r2: BigNat,
        c: BigNat,
        auth_id: String,
    ) -> (outcome: Result<(), AuthError>)
        requires
            old(self)@.wf(),
        ensures
            final(self)@.wf(),
            match outcome {
                Ok(_) => old(self)@.users.contains_key(user_name@) && final(self)@ == old(
                    self,
                )@.issue(user_name@, r1@, r2@, c@, auth_id@),
                Err(e) => e == AuthError::UserNotFound && !old(self)@.users.contains_key(
                    user_name@,
                ) && final(self)@ == old(self)@,
            },
    {
        let updated = match self.users.get(user_name) {
            Some(info) => UserInfo {
                user_name: info.user_name.clone(),
                y1: info.y1.clone(),
                y2: info.y2.clone(),
                challenge: Some(ChallengeState { auth_id: auth_id.clone(), r1, r2, c }),
            },
            None => {
                return Err(AuthError::UserNotFound);
            },
        };
        self.unlink(user_name);
        self.users.insert(user_name.to_owned(), updated);
        self.auth_ids.insert(auth_id, user_name.to_owned());
        proof {
            let after = old(self)@.issue(user_name@, r1@, r2@, c@, auth_id@);
            assert(self@.users =~= after.users);
            assert(self@.auth_ids =~= after.auth_ids);
            lemma_issue_wf(old(self)@, user_name@, r1@, r2@, c@, auth_id@);
        }
        Ok(())
    }

    /// Files a challenge for `user_name` under a random identifier of
    /// `TOKEN_LENGTH` characters and returns the identifier. Fails with
    /// `UserNotFound`, and changes nothing, where the name is not
    /// registered.
    pub fn put_challenge(&mut self, user_name: &str, r1: BigNat, r2: BigNat, c: BigNat) -> (outcome:
        Result<String, AuthError>)
        requires
            old(self)@.wf(),
        ensures
            final(self)@.wf(),
            match outcome {
                Ok(auth_id) => old(self)@.users.contains_key(user_name@) && is_token(
                    auth_id@,
                    TOKEN_LENGTH as nat,
                ) && final(self)@ == old(self)@.issue(
                    user_name@,
                    r1@,
                    r2@,
                    c@,
                    auth_id@,
                ),
                Err(e) => e == AuthError::UserNotFound && !old(self)@.users.contains_key(
                    user_name@,
                ) && final(self)@ == old(self)@,
            },
    {
        let auth_id = ZKP::generate_random_string(TOKEN_LENGTH);
        match self.put_challenge_with(user_name, r1, r2, c, auth_id.clone()) {
            Ok(_) => Ok(auth_id),
            Err(e) => Err(e),
        }
    }

    /// The user whose pending challenge is answered under `auth_id`. Fails
    /// with `AuthIdNotFound` where there is none.
    pub fn resolve_auth_id(&self, auth_id: &str) -> (outcome: Result<String, AuthError>)
        ensures
            match outcome {
                Ok(user) => self@.auth_ids.contains_key(auth_id@) && user@
                    == self@.auth_ids[auth_id@],
                Err(e) => e == AuthError::AuthIdNotFound && !self@.auth_ids.contains_key(
                    auth_id@,
                ),
            },
    {
        match self.auth_ids.get(auth_id) {
            Some(user) => Ok(user.clone()),
            None => Err(AuthError::AuthIdNotFound),
        }
    }

    /// Takes the pending challenge of `user_name` out of the store, with
    /// the identifier that leads to it. Fails with `UserNotFound` where
    /// the name is not registered and with `ChallengeNotFound` where no
    /// challenge is pending; the store is then unchanged.
    pub fn get_and_consume_challenge(&mut self, user_name: &str) -> (outcome: Result<
        ChallengeState,
        AuthError,
    >)
        requires
            old(self)@.wf(),
        ensures
            final(self)@.wf(),
            match outcome {
                Ok(ch) => old(self)@.users.contains_key(user_name@) && old(
                    self,
                )@.users[user_name@].challenge == Some(ch@) && final(self)@ == old(
                    self,
                )@.without_challenge(user_name@),
                Err(e) => final(self)@ == old(self)@ && if old(self)@.users.contains_key(
                    user_name@,
                ) {
                    e == AuthError::ChallengeNotFound && old(self)@.users[user_name@].challenge
                        is None
                } else {
                    e == AuthError::UserNotFound
                },
            },
    {
        let taken = match self.users.get(user_name) {
            Some(info) => match &info.challenge {
                Some(ch) => Ok(
                    (
                        ch.clone(),
                        UserInfo {
                            user_name: info.user_name.clone(),
                            y1: info.y1.clone(),
                            y2: info.y2.clone(),
                            challenge: None,
                        },
                    ),
                ),
                None => Err(AuthError::ChallengeNotFound),
            },
            None => Err(AuthError::UserNotFound),
        };
        match taken {
            Ok((ch, rest)) => {
                self.unlink(user_name);
                self.users.insert(user_name.to_owned(), rest);
                proof {
                    let after = old(self)@.without_challenge(user_name@);
                    assert(self@.users =~= after.users);
                    assert(self@.auth_ids =~= after.auth_ids);
                    lemma_without_challenge_wf(old(self)@, user_name@);
                }
                Ok(ch)
            },
            Err(e) => Err(e),
        }
    }
}

} // verus!
