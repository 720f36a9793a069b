use num_bigint::{BigInt, BigUint};
use zkp_auth::bignat::BigNat;
use zkp_auth::constants::STANDARD_Q;
use zkp_auth::protocol::AuthImpl;
use zkp_auth::store::{AuthError, TOKEN_LENGTH};
use zkp_auth::zkp::ZKP;

fn big(v: u64) -> BigNat {
    BigNat::from_bytes_be(&v.to_be_bytes())
}

fn toy_zkp() -> ZKP {
    ZKP::new(big(4), big(9), big(23), big(11)).expect("the group is valid")
}

fn standard_zkp() -> ZKP {
    let (alpha, beta, p, q) = ZKP::get_constants();
    ZKP::new(alpha, beta, p, q).expect("the standard group is valid")
}

/// A toy server with `user` registered for the secret 6, whose commitment
/// is (2, 3).
fn toy_server_with(user: &str) -> AuthImpl {
    let mut server = AuthImpl::new(toy_zkp());
    server.register(user, &[2], &[3]);
    server
}

#[test]
fn full_happy_path() {
    let zkp = standard_zkp();
    let mut server = AuthImpl::new(standard_zkp());
    let x = big(7);
    let k = big(3);
    let (y1, y2) = zkp.compute_pair(&x);
    server.register("alice", &y1.to_bytes_be(), &y2.to_bytes_be());
    let (r1, r2) = zkp.compute_pair(&k);
    let (auth_id, c) = server
        .create_authentication_challenge("alice", &r1.to_bytes_be(), &r2.to_bytes_be())
        .expect("alice is registered");
    let c = BigNat::from_bytes_be(&c);
    assert!(c.less_than(zkp.q()));
    let s = zkp.solve(&k, &c, &x);
    // s = (3 - c * 7) mod q
    let q = BigInt::from(BigUint::from_bytes_be(&STANDARD_Q));
    let c_int = BigInt::from(BigUint::from_bytes_be(&c.to_bytes_be()));
    let mut expected = (BigInt::from(3) - c_int * BigInt::from(7)) % &q;
    if expected < BigInt::from(0) {
        expected += &q;
    }
    assert_eq!(s.to_bytes_be(), expected.to_biguint().unwrap().to_bytes_be());
    let session_id = server.verify_authentication(&auth_id, &s.to_bytes_be()).unwrap();
    assert!(!session_id.is_empty());
    assert_eq!(session_id.chars().count(), TOKEN_LENGTH);
    assert!(session_id.chars().all(|ch| ch.is_ascii_alphanumeric()));
}

#[test]
fn tampered_proof() {
    let zkp = standard_zkp();
    let mut server = AuthImpl::new(standard_zkp());
    let x = big(7);
    let k = big(3);
    let (y1, y2) = zkp.compute_pair(&x);
    server.register("alice", &y1.to_bytes_be(), &y2.to_bytes_be());
    let (r1, r2) = zkp.compute_pair(&k);
    let (auth_id, c) = server
        .create_authentication_challenge("alice", &r1.to_bytes_be(), &r2.to_bytes_be())
        .expect("alice is registered");
    let c = BigNat::from_bytes_be(&c);
    let s = zkp.solve(&k, &c, &x);
    let tampered = BigUint::from_bytes_be(&s.to_bytes_be()) + BigUint::from(1u32);
    // s + 1 is q only where s is q - 1; then the honest check has nothing to refuse
    if tampered < BigUint::from_bytes_be(&STANDARD_Q) {
        let outcome = server.verify_authentication(&auth_id, &tampered.to_bytes_be());
        assert_eq!(outcome.unwrap_err(), AuthError::AuthenticationFailed);
    }
}

#[test]
fn tampered_proof_with_a_fixed_challenge() {
    let zkp = standard_zkp();
    let mut server = AuthImpl::new(standard_zkp());
    let x = big(7);
    let k = big(3);
    let (y1, y2) = zkp.compute_pair(&x);
    server.register("alice", &y1.to_bytes_be(), &y2.to_bytes_be());
    let (r1, r2) = zkp.compute_pair(&k);
    let c = big(1000);
    let (auth_id, sent) = server
        .create_authentication_challenge_with(
            "alice",
            &r1.to_bytes_be(),
            &r2.to_bytes_be(),
            c.clone(),
            "fixed-id".to_string(),
        )
        .unwrap();
    assert_eq!(auth_id, "fixed-id");
    assert_eq!(sent, c.to_bytes_be());
    // s = (3 - 7000) mod q = q - 6997
    let s = zkp.solve(&k, &c, &x);
    let expected = BigUint::from_bytes_be(&STANDARD_Q) - BigUint::from(6997u32);
    assert_eq!(s.to_bytes_be(), expected.to_bytes_be());
    let tampered = expected + BigUint::from(1u32);
    let outcome = server.verify_authentication(&auth_id, &tampered.to_bytes_be());
    assert_eq!(outcome.unwrap_err(), AuthError::AuthenticationFailed);
    // the refusal left the challenge pending: the honest response still passes
    let session = server.verify_authentication(&auth_id, &s.to_bytes_be()).unwrap();
    assert_eq!(session.chars().count(), TOKEN_LENGTH);
}

#[test]
fn toy_exchange_with_given_numbers() {
    let mut server = toy_server_with("alice");
    let (auth_id, c) = server
        .create_authentication_challenge_with("alice", &[8], &[4], big(4), "abc".to_string())
        .unwrap();
    assert_eq!(auth_id, "abc");
    assert_eq!(c, vec![4u8]);
    let outcome = server.verify_authentication_with("abc", &[5], "session".to_string());
    assert_eq!(outcome.unwrap(), "session");
}

#[test]
fn zero_challenge_is_sent_as_one_zero_byte() {
    let mut server = toy_server_with("alice");
    let (_, c) = server
        .create_authentication_challenge_with("alice", &[8], &[4], big(0), "abc".to_string())
        .unwrap();
    assert_eq!(c, vec![0u8]);
    // with c = 0 the response is k itself
    let outcome = server.verify_authentication_with("abc", &[7], "session".to_string());
    assert_eq!(outcome.unwrap(), "session");
}

#[test]
fn numbers_with_leading_zero_bytes_are_read_alike() {
    let mut server = AuthImpl::new(toy_zkp());
    server.register("alice", &[0, 0, 2], &[0, 3]);
    server
        .create_authentication_challenge_with(
            "alice",
            &[0, 8],
            &[0, 0, 0, 4],
            big(4),
            "abc".to_string(),
        )
        .unwrap();
    let outcome = server.verify_authentication_with("abc", &[0, 0, 5], "session".to_string());
    assert_eq!(outcome.unwrap(), "session");
}

#[test]
fn challenge_for_an_unregistered_user() {
    let mut server = toy_server_with("alice");
    let outcome = server.create_authentication_challenge("bob", &[8], &[4]);
    assert_eq!(outcome.unwrap_err(), AuthError::UserNotFound);
    let outcome = server.create_authentication_challenge_with(
        "bob",
        &[8],
        &[4],
        big(4),
        "abc".to_string(),
    );
    assert_eq!(outcome.unwrap_err(), AuthError::UserNotFound);
    assert_eq!(server.store().resolve_auth_id("abc").unwrap_err(), AuthError::AuthIdNotFound);
    assert!(server.store().find_user("bob").is_none());
}

#[test]
fn challenge_for_an_unregistered_user_on_an_empty_server() {
    let mut server = AuthImpl::new(toy_zkp());
    let outcome = server.create_authentication_challenge("alice", &[8], &[4]);
    assert_eq!(outcome.unwrap_err(), AuthError::UserNotFound);
}

#[test]
fn challenge_out_of_range_is_refused() {
    let mut server = toy_server_with("alice");
    let outcome = server.create_authentication_challenge_with(
        "alice",
        &[8],
        &[4],
        big(11),
        "abc".to_string(),
    );
    assert_eq!(outcome.unwrap_err(), AuthError::InvalidInput);
    let outcome = server.create_authentication_challenge_with(
        "alice",
        &[8],
        &[4],
        big(400),
        "abc".to_string(),
    );
    assert_eq!(outcome.unwrap_err(), AuthError::InvalidInput);
    assert!(server.store().find_user("alice").unwrap().challenge.is_none());
    assert_eq!(server.store().resolve_auth_id("abc").unwrap_err(), AuthError::AuthIdNotFound);
}

#[test]
fn unregistered_user_comes_before_challenge_out_of_range() {
    let mut server = toy_server_with("alice");
    let outcome = server.create_authentication_challenge_with(
        "bob",
        &[8],
        &[4],
        big(11),
        "abc".to_string(),
    );
    assert_eq!(outcome.unwrap_err(), AuthError::UserNotFound);
}

#[test]
fn random_challenge_is_below_the_order() {
    let mut server = toy_server_with("alice");
    for _ in 0..50 {
        let (auth_id, c) = server.create_authentication_challenge("alice", &[8], &[4]).unwrap();
        assert_eq!(auth_id.chars().count(), TOKEN_LENGTH);
        assert!(auth_id.chars().all(|ch| ch.is_ascii_alphanumeric()));
        let c = BigNat::from_bytes_be(&c);
        assert!(c.less_than(&big(11)));
        assert_eq!(server.store().resolve_auth_id(&auth_id).unwrap(), "alice");
    }
}

#[test]
fn answer_under_an_unknown_identifier() {
    let mut server = toy_server_with("alice");
    let outcome = server.verify_authentication("never-issued", &[5]);
    assert_eq!(outcome.unwrap_err(), AuthError::AuthIdNotFound);
    server
        .create_authentication_challenge_with("alice", &[8], &[4], big(4), "abc".to_string())
        .unwrap();
    let outcome = server.verify_authentication("abd", &[5]);
    assert_eq!(outcome.unwrap_err(), AuthError::AuthIdNotFound);
    // an unknown identifier is reported before the response is looked at
    let outcome = server.verify_authentication("abd", &[200]);
    assert_eq!(outcome.unwrap_err(), AuthError::AuthIdNotFound);
    // and the pending challenge is untouched
    assert_eq!(server.verify_authentication_with("abc", &[5], "s".to_string()).unwrap(), "s");
}

#[test]
fn response_out_of_range_is_refused() {
    let mut server = toy_server_with("alice");
    server
        .create_authentication_challenge_with("alice", &[8], &[4], big(4), "abc".to_string())
        .unwrap();
    // 16 is 5 modulo 11 and would pass if it were reduced
    let outcome = server.verify_authentication("abc", &[16]);
    assert_eq!(outcome.unwrap_err(), AuthError::InvalidInput);
    let outcome = server.verify_authentication("abc", &[11]);
    assert_eq!(outcome.unwrap_err(), AuthError::InvalidInput);
    // the challenge is still pending
    assert_eq!(server.verify_authentication_with("abc", &[5], "s".to_string()).unwrap(), "s");
}

#[test]
fn wrong_response_is_refused_and_changes_nothing() {
    let mut server = toy_server_with("alice");
    server
        .create_authentication_challenge_with("alice", &[8], &[4], big(4), "abc".to_string())
        .unwrap();
    for wrong in [0u8, 1, 2, 3, 4, 6, 7, 8, 9, 10] {
        let outcome = server.verify_authentication("abc", &[wrong]);
        assert_eq!(outcome.unwrap_err(), AuthError::AuthenticationFailed);
    }
    assert_eq!(server.store().resolve_auth_id("abc").unwrap(), "alice");
    assert!(server.store().find_user("alice").unwrap().challenge.is_some());
    assert_eq!(server.verify_authentication_with("abc", &[5], "s".to_string()).unwrap(), "s");
}

#[test]
fn accepted_response_uses_the_challenge_up() {
    let mut server = toy_server_with("alice");
    server
        .create_authentication_challenge_with("alice", &[8], &[4], big(4), "abc".to_string())
        .unwrap();
    assert!(server.verify_authentication("abc", &[5]).is_ok());
    assert!(server.store().find_user("alice").unwrap().challenge.is_none());
    let again = server.verify_authentication("abc", &[5]);
    assert_eq!(again.unwrap_err(), AuthError::AuthIdNotFound);
}

#[test]
fn user_authenticates_again_after_success() {
    let mut server = toy_server_with("alice");
    for round in 0..3u8 {
        let id = format!("round-{}", round);
        server
            .create_authentication_challenge_with("alice", &[8], &[4], big(4), id.clone())
            .unwrap();
        assert!(server.verify_authentication(&id, &[5]).is_ok());
    }
}

#[test]
fn registering_again_replaces_the_commitment() {
    let mut server = AuthImpl::new(toy_zkp());
    // first the commitment to 5, then the commitment to 6
    let zkp = toy_zkp();
    let (old1, old2) = zkp.compute_pair(&big(5));
    server.register("alice", &old1.to_bytes_be(), &old2.to_bytes_be());
    server.register("alice", &[2], &[3]);
    server
        .create_authentication_challenge_with("alice", &[8], &[4], big(4), "abc".to_string())
        .unwrap();
    // the response for the old secret: (7 - 4 * 5) mod 11 = 9
    let stale = zkp.solve(&big(7), &big(4), &big(5));
    assert!(stale.equals(&big(9)));
    let outcome = server.verify_authentication("abc", &stale.to_bytes_be());
    assert_eq!(outcome.unwrap_err(), AuthError::AuthenticationFailed);
    // the response for the new secret passes
    assert!(server.verify_authentication("abc", &[5]).is_ok());
}

#[test]
fn registering_again_keeps_the_pending_challenge() {
    let mut server = toy_server_with("alice");
    server
        .create_authentication_challenge_with("alice", &[8], &[4], big(4), "abc".to_string())
        .unwrap();
    server.register("alice", &[2], &[3]);
    assert_eq!(server.store().resolve_auth_id("abc").unwrap(), "alice");
    assert!(server.verify_authentication("abc", &[5]).is_ok());
}

#[test]
fn pending_challenge_is_checked_against_the_new_commitment() {
    let zkp = toy_zkp();
    let mut server = AuthImpl::new(toy_zkp());
    let (old1, old2) = zkp.compute_pair(&big(5));
    server.register("alice", &old1.to_bytes_be(), &old2.to_bytes_be());
    server
        .create_authentication_challenge_with("alice", &[8], &[4], big(4), "abc".to_string())
        .unwrap();
    // now the commitment to 6
    server.register("alice", &[2], &[3]);
    // the response for the old secret, (7 - 4 * 5) mod 11 = 9, no longer passes
    let outcome = server.verify_authentication("abc", &[9]);
    assert_eq!(outcome.unwrap_err(), AuthError::AuthenticationFailed);
    // the response for the new secret, (7 - 4 * 6) mod 11 = 5, does
    assert!(server.verify_authentication("abc", &[5]).is_ok());
}

#[test]
fn registering_leaves_other_users_alone() {
    let mut server = toy_server_with("alice");
    server.register("bob", &[2], &[3]);
    server
        .create_authentication_challenge_with("bob", &[8], &[4], big(4), "bob-id".to_string())
        .unwrap();
    server.register("alice", &[9], &[9]);
    server.register("carol", &[2], &[3]);
    assert_eq!(server.store().resolve_auth_id("bob-id").unwrap(), "bob");
    assert!(server.verify_authentication("bob-id", &[5]).is_ok());
}

#[test]
fn colliding_identifier_leaves_the_other_user_alone() {
    let mut server = toy_server_with("alice");
    // bob commits to the secret 9
    let zkp = toy_zkp();
    let (b1, b2) = zkp.compute_pair(&big(9));
    server.register("bob", &b1.to_bytes_be(), &b2.to_bytes_be());
    server
        .create_authentication_challenge_with("alice", &[8], &[4], big(4), "shared".to_string())
        .unwrap();
    server
        .create_authentication_challenge_with("bob", &[8], &[4], big(2), "shared".to_string())
        .unwrap();
    // the record of alice is untouched
    let alice = server.store().find_user("alice").unwrap();
    assert!(alice.y1.equals(&big(2)));
    assert!(alice.y2.equals(&big(3)));
    let displaced = alice.challenge.as_ref().unwrap();
    assert_eq!(displaced.auth_id, "shared");
    assert!(displaced.c.equals(&big(4)));
    // the identifier leads to bob: the response of alice, 5, is held against
    // the challenge of bob and refused
    assert_eq!(server.store().resolve_auth_id("shared").unwrap(), "bob");
    let outcome = server.verify_authentication("shared", &[5]);
    assert_eq!(outcome.unwrap_err(), AuthError::AuthenticationFailed);
    // the response of bob, (7 - 2 * 9) mod 11 = 0, passes
    assert!(zkp.solve(&big(7), &big(2), &big(9)).is_zero());
    assert!(server.verify_authentication("shared", &[0]).is_ok());
    // alice asks for a new challenge and logs in
    server
        .create_authentication_challenge_with("alice", &[8], &[4], big(4), "again".to_string())
        .unwrap();
    assert!(server.verify_authentication("again", &[5]).is_ok());
}

#[test]
fn latest_challenge_wins() {
    let mut server = toy_server_with("alice");
    // first message from k = 7, challenge 4: the response would be 5
    server
        .create_authentication_challenge_with("alice", &[8], &[4], big(4), "first".to_string())
        .unwrap();
    // first message from k = 3 (4^3 = 18, 9^3 = 16 mod 23), challenge 2:
    // the response is (3 - 2 * 6) mod 11 = 2
    server
        .create_authentication_challenge_with(
            "alice",
            &[18],
            &[16],
            big(2),
            "second".to_string(),
        )
        .unwrap();
    let outcome = server.verify_authentication("first", &[5]);
    assert_eq!(outcome.unwrap_err(), AuthError::AuthIdNotFound);
    // the response to the first challenge does not answer the second
    let outcome = server.verify_authentication("second", &[5]);
    assert_eq!(outcome.unwrap_err(), AuthError::AuthenticationFailed);
    assert!(server.verify_authentication("second", &[2]).is_ok());
}

#[test]
fn latest_challenge_wins_with_random_identifiers() {
    let mut server = toy_server_with("alice");
    let (first, _) = server.create_authentication_challenge("alice", &[8], &[4]).unwrap();
    let (second, c) = server.create_authentication_challenge("alice", &[8], &[4]).unwrap();
    assert_ne!(first, second);
    let zkp = toy_zkp();
    let s = zkp.solve(&big(7), &BigNat::from_bytes_be(&c), &big(6));
    let outcome = server.verify_authentication(&first, &s.to_bytes_be());
    assert_eq!(outcome.unwrap_err(), AuthError::AuthIdNotFound);
    assert!(server.verify_authentication(&second, &s.to_bytes_be()).is_ok());
}

#[test]
fn two_users_in_turn() {
    let zkp = toy_zkp();
    let mut server = AuthImpl::new(toy_zkp());
    let (a1, a2) = zkp.compute_pair(&big(6));
    let (b1, b2) = zkp.compute_pair(&big(9));
    server.register("alice", &a1.to_bytes_be(), &a2.to_bytes_be());
    server.register("bob", &b1.to_bytes_be(), &b2.to_bytes_be());
    let (r1, r2) = zkp.compute_pair(&big(7));
    let (alice_id, alice_c) = server
        .create_authentication_challenge("alice", &r1.to_bytes_be(), &r2.to_bytes_be())
        .unwrap();
    let (bob_id, bob_c) = server
        .create_authentication_challenge("bob", &r1.to_bytes_be(), &r2.to_bytes_be())
        .unwrap();
    let alice_s = zkp.solve(&big(7), &BigNat::from_bytes_be(&alice_c), &big(6));
    let bob_s = zkp.solve(&big(7), &BigNat::from_bytes_be(&bob_c), &big(9));
    assert!(server.verify_authentication(&bob_id, &bob_s.to_bytes_be()).is_ok());
    assert!(server.verify_authentication(&alice_id, &alice_s.to_bytes_be()).is_ok());
}

#[test]
fn server_keeps_its_group() {
    let server = AuthImpl::new(toy_zkp());
    assert!(server.zkp().q().equals(&big(11)));
    assert!(server.zkp().p().equals(&big(23)));
}
