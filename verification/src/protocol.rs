//! The server's side of the exchange: register, challenge, verify.

use crate::bignat::BigNat;
use crate::encoding::{be_bytes, be_value, lemma_encode_decode};
use crate::store::{AuthError, SessionStore, StoreView, TOKEN_LENGTH};
use crate::zkp::{is_token, GroupParameters, ZKP};
use vstd::prelude::*;

verus! {

impl StoreView {
    /// How the response `s`, sent under `auth_id`, is judged in the group
    /// `group`. The identifier is looked up first, then the user and the
    /// pending challenge; only then is `s` held against `[0, q)` and put
    /// into the check.
    pub open spec fn verdict(self, group: GroupParameters, auth_id: Seq<char>, s: nat) -> Result<
        (),
        AuthError,
    > {
        if !self.auth_ids.contains_key(auth_id) {
            Err(AuthError::AuthIdNotFound)
        } else if !self.users.contains_key(self.auth_ids[auth_id]) {
            Err(AuthError::UserNotFound)
        } else {
            let info = self.users[self.auth_ids[auth_id]];
            match info.challenge {
                None => Err(AuthError::ChallengeNotFound),
                Some(ch) => if s >= group.q {
                    Err(AuthError::InvalidInput)
                } else if !group.accepts(ch.r1, ch.r2, info.y1, info.y2, ch.c, s) {
                    Err(AuthError::AuthenticationFailed)
                } else {
                    Ok(())
                },
            }
        }
    }

    /// The store after the response `s` was sent under `auth_id`: an
    /// accepted response uses up the challenge and its identifier, a
    /// refused one changes nothing.
    pub open spec fn after_answer(self, group: GroupParameters, auth_id: Seq<char>, s: nat)
        -> StoreView {
        if self.verdict(group, auth_id, s) is Ok {
            self.without_challenge(self.auth_ids[auth_id])
        } else {
            self
        }
    }
}

/// The server: a group and the store of its users.
pub struct AuthImpl {
    zkp: ZKP,
    store: SessionStore,
}

impl View for AuthImpl {
    type V = StoreView;

    closed spec fn view(&self) -> StoreView {
        self.store@
    }
}

impl AuthImpl {
    /// The group that the server works in.
    pub closed spec fn group(&self) -> GroupParameters {
        self.zkp@
    }

    /// A server for the given group, with nobody registered.
    pub fn new(zkp: ZKP) -> (server: AuthImpl)
        ensures
            server.group() == zkp@,
            server@ == StoreView::empty(),
            server@.wf(),
    {
        AuthImpl { zkp, store: SessionStore::new() }
    }

    /// The store of the server.
    pub fn store(&self) -> (store: &SessionStore)
        ensures
            store@ == self@,
    {
        &self.store
    }

    /// The group of the server.
    pub fn zkp(&self) -> (zkp: &ZKP)
        ensures
            zkp@ == self.group(),
    {
        &self.zkp
    }

    /// Registers `user` with the commitment that `y1` and `y2` hold in
    /// big-endian bytes. Of a user who was registered before, only the
    /// commitment changes: a pending challenge stays pending. The
    /// identifiers and all other users are as they were.
    pub fn register(&mut self, user: &str, y1: &[u8], y2: &[u8])
        requires
            old(self)@.wf(),
        ensures
            final(self)@ == old(self)@.register(user@, be_value(y1@), be_value(y2@)),
            final(self)@.auth_ids == old(self)@.auth_ids,
            forall|other: Seq<char>|
                other != user@ && #[trigger] old(self)@.users.contains_key(other)
                    ==> final(self)@.users.contains_key(other)
                    && final(self)@.users[other] == old(self)@.users[other],
            final(self)@.wf(),
            final(self).group() == old(self).group(),
    {
        let y1 = BigNat::from_bytes_be(y1);
        let y2 = BigNat::from_bytes_be(y2);
        self.store.put_registration(user, y1, y2);
    }

    /// Issues the challenge `c` to `user` under the identifier `auth_id`,
    /// for the first message that `r1` and `r2` hold in big-endian bytes,
    /// and returns the identifier with the challenge in big-endian bytes.
    /// The challenge replaces the one that was pending for the user; no
    /// other user's record changes.
    /// Fails with `UserNotFound` where the name is not registered, else
    /// with `InvalidInput` where `c` is not below `q`; the store is then
    /// unchanged.
    pub fn create_authentication_challenge_with(
        &mut self,
        user: &str,
        r1: &[u8],
        r2: &[u8],
        c: BigNat,
        auth_id: String,
    ) -> (outcome: Result<(String, Vec<u8>), AuthError>)
        requires
            old(self)@.wf(),
        ensures
            final(self)@.wf(),
            final(self).group() == old(self).group(),
            match outcome {
                Ok((id, challenge)) => {
                    &&& old(self)@.users.contains_key(user@)
                    &&& c@ < old(self).group().q
                    &&& id == auth_id
                    &&& challenge@ == be_bytes(c@)
                    &&& final(self)@ == old(self)@.issue(
                        user@,
                        be_value(r1@),
                        be_value(r2@),
                        c@,
                        auth_id@,
                    )
                    &&& forall|other: Seq<char>|
                        other != user@ && #[trigger] old(self)@.users.contains_key(other)
                            ==> final(self)@.users.contains_key(other)
                            && final(self)@.users[other] == old(self)@.users[other]
                },
                Err(e) => {
                    &&& final(self)@ == old(self)@
                    &&& if old(self)@.users.contains_key(user@) {
                        e == AuthError::InvalidInput && c@ >= old(self).group().q
                    } else {
                        e == AuthError::UserNotFound
                    }
                },
            },
    {
        if self.store.find_user(user).is_none() {
            return Err(AuthError::UserNotFound);
        }
        if !c.less_than(self.zkp.q()) {
            return Err(AuthError::InvalidInput);
        }
        let challenge = c.to_bytes_be();
        let r1 = BigNat::from_bytes_be(r1);
        let r2 = BigNat::from_bytes_be(r2);
        match self.store.put_challenge_with(user, r1, r2, c, auth_id.clone()) {
            Ok(_) => Ok((auth_id, challenge)),
            Err(e) => Err(e),
        }
    }

    /// Issues a random challenge below `q` to `user` under a random
    /// identifier of `TOKEN_LENGTH` characters, for the first message that
    /// `r1` and `r2` hold in big-endian bytes. Returns the identifier and
    /// the challenge in big-endian bytes. Succeeds exactly where the name
    /// is registered; otherwise it fails with `UserNotFound` and the store
    /// is unchanged.
    pub fn create_authentication_challenge(&mut self, user: &str, r1: &[u8], r2: &[u8]) -> (outcome:
        Result<(String, Vec<u8>), AuthError>)
        requires
            old(self)@.wf(),
        ensures
            final(self)@.wf(),
            final(self).group() == old(self).group(),
            !old(self)@.users.contains_key(user@) ==> (outcome matches Err(e) && e
                == AuthError::UserNotFound),
            match outcome {
                Ok((auth_id, challenge)) => {
                    &&& old(self)@.users.contains_key(user@)
                    &&& is_token(auth_id@, TOKEN_LENGTH as nat)
                    &&& be_value(challenge@) < old(self).group().q
                    &&& challenge@ == be_bytes(be_value(challenge@))
                    &&& final(self)@ == old(self)@.issue(
                        user@,
                        be_value(r1@),
                        be_value(r2@),
                        be_value(challenge@),
                        auth_id@,
                    )
                    &&& forall|other: Seq<char>|
                        other != user@ && #[trigger] old(self)@.users.contains_key(other)
                            ==> final(self)@.users.contains_key(other)
                            && final(self)@.users[other] == old(self)@.users[other]
                },
                Err(e) => {
                    &&& e == AuthError::UserNotFound
                    &&& !old(self)@.users.contains_key(user@)
                    &&& final(self)@ == old(self)@
                },
            },
    {
        let c = ZKP::generate_random_number_below(self.zkp.q());
        let auth_id = ZKP::generate_random_string(TOKEN_LENGTH);
        proof {
            lemma_encode_decode(c@);
        }
        self.create_authentication_challenge_with(user, r1, r2, c, auth_id)
    }

    /// Judges the response that `s` holds in big-endian bytes, sent under
    /// `auth_id`, and returns `session_id` where it is accepted. The
    /// outcome is that of `verdict`; an accepted response uses up the
    /// challenge, a refused one leaves the store unchanged.
    pub fn verify_authentication_with(&mut self, auth_id: &str, s: &[u8], session_id: String) -> (outcome:
        Result<String, AuthError>)
        requires
            old(self)@.wf(),
        ensures
            final(self)@.wf(),
            final(self).group() == old(self).group(),
            final(self)@ == old(self)@.after_answer(
                old(self).group(),
                auth_id@,
                be_value(s@),
            ),
            match old(self)@.verdict(old(self).group(), auth_id@, be_value(s@)) {
                Ok(_) => outcome == Ok::<String, AuthError>(session_id),
                Err(e) => outcome == Err::<String, AuthError>(e),
            },
    {
        let user = match self.store.resolve_auth_id(auth_id) {
            Ok(user) => user,
            Err(e) => {
                return Err(e);
            },
        };
        let info = match self.store.find_user(user.as_str()) {
            Some(info) => info,
            None => {
                return Err(AuthError::UserNotFound);
            },
        };
        let challenge = match &info.challenge {
            Some(challenge) => challenge,
            None => {
                return Err(AuthError::ChallengeNotFound);
            },
        };
        let s = BigNat::from_bytes_be(s);
        if !s.less_than(self.zkp.q()) {
            return Err(AuthError::InvalidInput);
        }
        if !self.zkp.verify(&challenge.r1, &challenge.r2, &info.y1, &info.y2, &challenge.c, &s) {
            return Err(AuthError::AuthenticationFailed);
        }
        let _ = self.store.get_and_consume_challenge(user.as_str());
        Ok(session_id)
    }

    /// Judges the response that `s` holds in big-endian bytes, sent under
    /// `auth_id`. Where it is accepted, a random session identifier of
    /// `TOKEN_LENGTH` characters is returned and the challenge is used up;
    /// where it is refused, the error is that of `verdict` and the store
    /// is unchanged.
    pub fn verify_authentication(&mut self, auth_id: &str, s: &[u8]) -> (outcome: Result<
        String,
        AuthError,
    >)
        requires
            old(self)@.wf(),
        ensures
            final(self)@.wf(),
            final(self).group() == old(self).group(),
            final(self)@ == old(self)@.after_answer(
                old(self).group(),
                auth_id@,
                be_value(s@),
            ),
            !old(self)@.auth_ids.contains_key(auth_id@) ==> (outcome matches Err(e) && e
                == AuthError::AuthIdNotFound),
            outcome is Err ==> final(self)@ == old(self)@,
            match outcome {
                Ok(session_id) => {
                    &&& old(self)@.verdict(old(self).group(), auth_id@, be_value(s@)) is Ok
                    &&& is_token(session_id@, TOKEN_LENGTH as nat)
                },
                Err(e) => old(self)@.verdict(old(self).group(), auth_id@, be_value(s@)) == Err::<
                    (),
                    AuthError,
                >(e),
            },
    {
        let session_id = ZKP::generate_random_string(TOKEN_LENGTH);
        self.verify_authentication_with(auth_id, s, session_id)
    }
}

} // verus!
