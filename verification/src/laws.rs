//! What holds of the proof and of the server's store, for every input.

use crate::store::{
    lemma_issue_wf, lemma_unlinked, lemma_without_challenge_wf, AuthError, ChallengeView,
    StoreView,
};
use crate::zkp::{power_mod, GroupParameters};
use vstd::arithmetic::div_mod::{lemma_fundamental_div_mod, lemma_mul_mod_noop_right};
use vstd::arithmetic::power::{
    lemma1_pow, lemma_pow_adds, lemma_pow_mod_noop, lemma_pow_multiplies, pow,
};
use vstd::prelude::*;

verus! {

/// Where `a ^ q` is one modulo `p`, a multiple of `q` in the exponent does
/// not change the power modulo `p`.
proof fn lemma_power_cycle(a: int, q: nat, p: int, n: nat, turns: nat)
    requires
        p > 1,
        pow(a, q) % p == 1,
    ensures
        pow(a, n + q * turns) % p == pow(a, n) % p,
{
    let rest = pow(a, n);
    let cycle = pow(a, q * turns);
    lemma_pow_adds(a, n, q * turns);
    lemma_pow_multiplies(a, q, turns);
    lemma_pow_mod_noop(pow(a, q), turns, p);
    lemma1_pow(turns);
    assert(pow(pow(a, q) % p, turns) == 1);
    assert(1int % p == 1) by {
        vstd::arithmetic::div_mod::lemma_small_mod(1, p as nat);
    }
    assert(pow(pow(a, q), turns) == cycle);
    assert(cycle % p == 1);
    lemma_mul_mod_noop_right(rest, cycle, p);
    assert(rest * 1 == rest);
}

/// One of the two equations of the check, for an honest prover: with
/// `y = a^x mod p` and `s = (k - c*x) mod q`, `a^s * y^c` is `a^k`
/// modulo `p`.
proof fn lemma_equation_holds(a: nat, p: nat, q: nat, x: nat, k: nat, c: nat)
    requires
        p > 1,
        q > 0,
        power_mod(a, q, p) == 1,
    ensures
        power_mod(a, k, p) == (pow(a as int, ((k - c * x) % (q as int)) as nat) * pow(
            power_mod(a, x, p) as int,
            c,
        )) % (p as int),
{
    let ai = a as int;
    let pi = p as int;
    let qi = q as int;
    let d = k - c * x;
    let s = (d % qi) as nat;
    let turns = d / qi;
    let y = power_mod(a, x, p);
    lemma_fundamental_div_mod(d, qi);
    assert(d % qi >= 0 && pow(ai, x) % pi >= 0) by {
        vstd::arithmetic::div_mod::lemma_mod_bound(d, qi);
        vstd::arithmetic::div_mod::lemma_mod_bound(pow(ai, x), pi);
    }
    // y^c is a^(x*c) modulo p
    lemma_pow_mod_noop(pow(ai, x), c, pi);
    lemma_pow_multiplies(ai, x, c);
    assert(pow(y as int, c) % pi == pow(ai, x * c) % pi);
    // so a^s * y^c is a^(s + x*c) modulo p
    lemma_mul_mod_noop_right(pow(ai, s), pow(y as int, c), pi);
    lemma_mul_mod_noop_right(pow(ai, s), pow(ai, x * c), pi);
    lemma_pow_adds(ai, s, x * c);
    assert((pow(ai, s) * pow(y as int, c)) % pi == pow(ai, s + x * c) % pi);
    // and s + x*c differs from k by a multiple of q
    assert(x * c == c * x) by (nonlinear_arith);
    if turns >= 0 {
        assert(k == (s + x * c) + q * (turns as nat)) by (nonlinear_arith)
            requires
                d == qi * turns + s,
                d == k - c * x,
                x * c == c * x,
                turns >= 0,
                qi == q,
        ;
        lemma_power_cycle(ai, q, pi, s + x * c, turns as nat);
    } else {
        assert(s + x * c == k + q * ((-turns) as nat)) by (nonlinear_arith)
            requires
                d == qi * turns + s,
                d == k - c * x,
                x * c == c * x,
                turns < 0,
                qi == q,
        ;
        lemma_power_cycle(ai, q, pi, k, (-turns) as nat);
    }
}

/// An honest prover is accepted. For every valid group, every secret `x`,
/// every exponent `k` of the first message and every challenge `c`: the
/// check accepts the response `(k - c*x) mod q` against the commitment to
/// `x` and the first message made from `k`.
pub proof fn lemma_honest_response_accepted(group: GroupParameters, x: nat, k: nat, c: nat)
    requires
        group.valid(),
    ensures
        group.accepts(
            group.pair(k).0,
            group.pair(k).1,
            group.pair(x).0,
            group.pair(x).1,
            c,
            group.response(k, c, x),
        ),
{
    lemma_equation_holds(group.alpha, group.p, group.q, x, k, c);
    lemma_equation_holds(group.beta, group.p, group.q, x, k, c);
}

/// Where two exponents that differ by `shift` both satisfy an equation of
/// the check against the first message `a^k`, the power `a^shift` is one
/// modulo `p`.
proof fn lemma_shift_is_cycle(a: nat, p: nat, q: nat, k: nat, low: nat, shift: nat, y: int)
    requires
        p > 1,
        q > 0,
        power_mod(a, q, p) == 1,
        (pow(a as int, low) * y) % (p as int) == pow(a as int, k) % (p as int),
        (pow(a as int, low + shift) * y) % (p as int) == pow(a as int, k) % (p as int),
    ensures
        power_mod(a, shift, p) == 1,
{
    let ai = a as int;
    let pi = p as int;
    let first = pow(ai, k);
    let rest = ((q - 1) * k) as nat;
    let undo = pow(ai, rest);
    let low_side = pow(ai, low) * y;
    let high_side = pow(ai, low + shift) * y;
    let step = pow(ai, shift);
    // `undo` is an inverse of the first message modulo p
    assert((q - 1) * k >= 0 && k + (q - 1) * k == 0 + q * k) by (nonlinear_arith)
        requires
            q > 0,
    ;
    lemma_pow_adds(ai, k, rest);
    lemma_power_cycle(ai, q, pi, 0, k);
    assert(pow(ai, 0) == 1) by {
        vstd::arithmetic::power::lemma_pow0(ai);
    }
    assert(1int % pi == 1) by {
        vstd::arithmetic::div_mod::lemma_small_mod(1, p);
    }
    assert((first * undo) % pi == 1);
    // so it is one of either side
    vstd::arithmetic::div_mod::lemma_mul_mod_noop_left(low_side, undo, pi);
    vstd::arithmetic::div_mod::lemma_mul_mod_noop_left(high_side, undo, pi);
    vstd::arithmetic::div_mod::lemma_mul_mod_noop_left(first, undo, pi);
    assert((low_side * undo) % pi == 1);
    assert((high_side * undo) % pi == 1);
    // the high side is the low side times a^shift
    lemma_pow_adds(ai, low, shift);
    assert(high_side * undo == step * (low_side * undo)) by (nonlinear_arith)
        requires
            high_side == pow(ai, low + shift) * y,
            low_side == pow(ai, low) * y,
            pow(ai, low + shift) == pow(ai, low) * step,
    ;
    lemma_mul_mod_noop_right(step, low_side * undo, pi);
    assert(step * 1 == step);
    assert(step % pi == 1);
}

/// A response that is off by one is refused. For every valid group, every
/// secret `x`, every exponent `k` and every challenge `c`: the check
/// refuses the honest response plus one.
pub proof fn lemma_off_by_one_refused(group: GroupParameters, x: nat, k: nat, c: nat)
    requires
        group.valid(),
    ensures
        !group.accepts(
            group.pair(k).0,
            group.pair(k).1,
            group.pair(x).0,
            group.pair(x).1,
            c,
            group.response(k, c, x) + 1,
        ),
{
    let s = group.response(k, c, x);
    let y = pow(group.pair(x).0 as int, c);
    lemma_equation_holds(group.alpha, group.p, group.q, x, k, c);
    if group.accepts(
        group.pair(k).0,
        group.pair(k).1,
        group.pair(x).0,
        group.pair(x).1,
        c,
        s + 1,
    ) {
        lemma_shift_is_cycle(group.alpha, group.p, group.q, k, s, 1, y);
        vstd::arithmetic::power::lemma_pow1(group.alpha as int);
        vstd::arithmetic::div_mod::lemma_small_mod(group.alpha, group.p);
        assert(false);
    }
}

/// The honest response is the only one. In a valid group whose first
/// generator has order exactly `q`, a response below `q` that the check
/// accepts for an honest commitment and first message is `(k - c*x) mod q`.
pub proof fn lemma_response_unique(group: GroupParameters, x: nat, k: nat, c: nat, s: nat)
    requires
        group.valid(),
        forall|j: nat| 0 < j < group.q ==> #[trigger] power_mod(group.alpha, j, group.p) != 1,
        s < group.q,
        group.accepts(
            group.pair(k).0,
            group.pair(k).1,
            group.pair(x).0,
            group.pair(x).1,
            c,
            s,
        ),
    ensures
        s == group.response(k, c, x),
{
    let honest = group.response(k, c, x);
    let y = pow(group.pair(x).0 as int, c);
    lemma_equation_holds(group.alpha, group.p, group.q, x, k, c);
    assert(honest < group.q) by {
        vstd::arithmetic::div_mod::lemma_mod_bound(k - c * x, group.q as int);
    }
    if s < honest {
        let shift = (honest - s) as nat;
        assert(s + shift == honest);
        lemma_shift_is_cycle(group.alpha, group.p, group.q, k, s, shift, y);
        assert(false);
    } else if honest < s {
        let shift = (s - honest) as nat;
        assert(honest + shift == s);
        lemma_shift_is_cycle(group.alpha, group.p, group.q, k, honest, shift, y);
        assert(false);
    }
}

/// A response is accepted exactly where both equations hold: one that
/// fails either equation is refused, whatever else is true of it.
pub proof fn lemma_wrong_response_refused(
    group: GroupParameters,
    r1: nat,
    r2: nat,
    y1: nat,
    y2: nat,
    c: nat,
    s: nat,
)
    requires
        r1 != (pow(group.alpha as int, s) * pow(y1 as int, c)) % (group.p as int) || r2 != (pow(
            group.beta as int,
            s,
        ) * pow(y2 as int, c)) % (group.p as int),
    ensures
        !group.accepts(r1, r2, y1, y2, c, s),
{
}

/// Registering touches one record only. The identifiers are as they were,
/// so is every other user, and the names on file are the old ones and the
/// one registered. Of a user who was registered before, the name and the
/// pending challenge stay and the commitment is the new one.
pub proof fn lemma_register_effect(store: StoreView, user: Seq<char>, y1: nat, y2: nat)
    ensures
        ({
            let after = store.register(user, y1, y2);
            &&& after.auth_ids == store.auth_ids
            &&& after.users.dom() == store.users.dom().insert(user)
            &&& forall|other: Seq<char>|
                other != user && #[trigger] store.users.contains_key(other)
                    ==> after.users[other] == store.users[other]
            &&& after.users[user].y1 == y1
            &&& after.users[user].y2 == y2
            &&& store.users.contains_key(user) ==> {
                &&& after.users[user].challenge == store.users[user].challenge
                &&& after.users[user].user_name == store.users[user].user_name
            }
            &&& !store.users.contains_key(user) ==> after.users[user].challenge is None
        }),
{
    let after = store.register(user, y1, y2);
    assert(after.users.dom() =~= store.users.dom().insert(user));
}

/// Registering again replaces the registration. Two registrations of one
/// user leave the store as the second alone would, and the commitment on
/// file is that of the second.
pub proof fn lemma_registration_replaced(
    store: StoreView,
    user: Seq<char>,
    first: (nat, nat),
    second: (nat, nat),
)
    ensures
        store.register(user, first.0, first.1).register(user, second.0, second.1)
            == store.register(user, second.0, second.1),
        store.register(user, first.0, first.1).register(user, second.0, second.1).users[user].y1
            == second.0,
        store.register(user, first.0, first.1).register(user, second.0, second.1).users[user].y2
            == second.1,
{
    let once = store.register(user, first.0, first.1);
    let twice = once.register(user, second.0, second.1);
    let direct = store.register(user, second.0, second.1);
    assert(twice.users =~= direct.users);
}

/// After a second registration, a response is checked against the second
/// commitment: for a challenge issued after it, the response is accepted
/// exactly where it lies below `q` and satisfies the two equations with
/// that commitment.
pub proof fn lemma_latest_commitment_used(
    store: StoreView,
    group: GroupParameters,
    user: Seq<char>,
    first: (nat, nat),
    second: (nat, nat),
    challenge: ChallengeView,
    s: nat,
)
    ensures
        store.register(user, first.0, first.1).register(user, second.0, second.1).issue(
            user,
            challenge.r1,
            challenge.r2,
            challenge.c,
            challenge.auth_id,
        ).verdict(group, challenge.auth_id, s) is Ok <==> s < group.q && group.accepts(
            challenge.r1,
            challenge.r2,
            second.0,
            second.1,
            challenge.c,
            s,
        ),
{
}

/// The same holds of a challenge that was pending when the user registered
/// again: the response to it is checked against the new commitment.
pub proof fn lemma_pending_challenge_meets_new_commitment(
    store: StoreView,
    group: GroupParameters,
    user: Seq<char>,
    auth_id: Seq<char>,
    y1: nat,
    y2: nat,
    s: nat,
)
    requires
        store.wf(),
        store.auth_ids.contains_key(auth_id),
        store.auth_ids[auth_id] == user,
    ensures
        store.register(user, y1, y2).verdict(group, auth_id, s) is Ok <==> s < group.q
            && group.accepts(
            store.users[user].challenge->0.r1,
            store.users[user].challenge->0.r2,
            y1,
            y2,
            store.users[user].challenge->0.c,
            s,
        ),
{
    assert(store.pending_under(user, auth_id));
}

/// Issuing a challenge touches the record of its user only, and of that
/// record only the pending challenge. Every other user is as before, the
/// names on file and the user's commitment are as before, the new
/// identifier leads to the user, and every other identifier that did not
/// lead to the user is as before.
pub proof fn lemma_issue_effect(store: StoreView, user: Seq<char>, challenge: ChallengeView)
    requires
        store.wf(),
        store.users.contains_key(user),
    ensures
        ({
            let after = store.issue(
                user,
                challenge.r1,
                challenge.r2,
                challenge.c,
                challenge.auth_id,
            );
            &&& after.wf()
            &&& after.users.dom() == store.users.dom()
            &&& forall|other: Seq<char>|
                other != user && #[trigger] store.users.contains_key(other)
                    ==> after.users[other] == store.users[other]
            &&& after.users[user].user_name == store.users[user].user_name
            &&& after.users[user].y1 == store.users[user].y1
            &&& after.users[user].y2 == store.users[user].y2
            &&& after.users[user].challenge == Some(challenge)
            &&& after.auth_ids.contains_key(challenge.auth_id)
            &&& after.auth_ids[challenge.auth_id] == user
            &&& forall|a: Seq<char>|
                a != challenge.auth_id && #[trigger] store.auth_ids.contains_key(a)
                    && store.auth_ids[a] != user ==> after.auth_ids.contains_key(a)
                    && after.auth_ids[a] == store.auth_ids[a]
            &&& forall|a: Seq<char>|
                a != challenge.auth_id && #[trigger] after.auth_ids.contains_key(a)
                    ==> store.auth_ids.contains_key(a) && store.auth_ids[a] != user
        }),
{
    let after = store.issue(user, challenge.r1, challenge.r2, challenge.c, challenge.auth_id);
    lemma_issue_wf(store, user, challenge.r1, challenge.r2, challenge.c, challenge.auth_id);
    lemma_unlinked(store, user);
    assert(after.users.dom() =~= store.users.dom());
    assert forall|a: Seq<char>|
        a != challenge.auth_id && #[trigger] store.auth_ids.contains_key(a) && store.auth_ids[a]
            != user implies after.auth_ids.contains_key(a) && after.auth_ids[a]
        == store.auth_ids[a] by {
        assert(store.unlinked(user).contains_key(a));
    }
    assert forall|a: Seq<char>|
        a != challenge.auth_id && #[trigger] after.auth_ids.contains_key(a)
        implies store.auth_ids.contains_key(a) && store.auth_ids[a] != user by {
        assert(store.unlinked(user).contains_key(a));
    }
}

/// Only the latest challenge counts. Where a registered user is issued two
/// challenges under different identifiers, the first identifier is no
/// longer known, the user's pending challenge is the second, and a
/// response under the second identifier is checked against the second
/// challenge.
pub proof fn lemma_latest_challenge_wins(
    store: StoreView,
    group: GroupParameters,
    user: Seq<char>,
    first: ChallengeView,
    second: ChallengeView,
    s: nat,
)
    requires
        store.wf(),
        store.users.contains_key(user),
        first.auth_id != second.auth_id,
    ensures
        ({
            let after = store.issue(user, first.r1, first.r2, first.c, first.auth_id).issue(
                user,
                second.r1,
                second.r2,
                second.c,
                second.auth_id,
            );
            &&& after.wf()
            &&& after.verdict(group, first.auth_id, s) == Err::<(), AuthError>(
                AuthError::AuthIdNotFound,
            )
            &&& after.users[user].challenge == Some(second)
            &&& after.users[user].y1 == store.users[user].y1
            &&& after.users[user].y2 == store.users[user].y2
            &&& after.verdict(group, second.auth_id, s) is Ok <==> s < group.q && group.accepts(
                second.r1,
                second.r2,
                store.users[user].y1,
                store.users[user].y2,
                second.c,
                s,
            )
        }),
{
    let once = store.issue(user, first.r1, first.r2, first.c, first.auth_id);
    lemma_issue_effect(store, user, first);
    lemma_issue_effect(once, user, second);
    assert(once.linked(user));
}

/// An identifier that was never issued is not known: whatever the
/// response, the verdict under an identifier that the store does not hold
/// is `AuthIdNotFound`, and the store stays as it is.
pub proof fn lemma_unknown_auth_id(
    store: StoreView,
    group: GroupParameters,
    auth_id: Seq<char>,
    s: nat,
)
    requires
        !store.auth_ids.contains_key(auth_id),
    ensures
        store.verdict(group, auth_id, s) == Err::<(), AuthError>(AuthError::AuthIdNotFound),
        store.after_answer(group, auth_id, s) == store,
{
}

/// A refused response changes nothing, and an accepted one uses up the
/// challenge: afterwards its identifier is no longer known and the user
/// has no pending challenge, while the user's commitment, every other user
/// and every other identifier are as before.
pub proof fn lemma_answer_effect(
    store: StoreView,
    group: GroupParameters,
    auth_id: Seq<char>,
    s: nat,
)
    requires
        store.wf(),
    ensures
        store.after_answer(group, auth_id, s).wf(),
        store.verdict(group, auth_id, s) is Err ==> store.after_answer(group, auth_id, s)
            == store,
        store.verdict(group, auth_id, s) is Ok ==> {
            let after = store.after_answer(group, auth_id, s);
            let user = store.auth_ids[auth_id];
            &&& after.auth_ids == store.auth_ids.remove(auth_id)
            &&& after.users == store.users.insert(
                user,
                crate::store::UserView { challenge: None, ..store.users[user] },
            )
            &&& after.verdict(group, auth_id, s) == Err::<(), AuthError>(
                AuthError::AuthIdNotFound,
            )
        },
{
    if store.verdict(group, auth_id, s) is Ok {
        let user = store.auth_ids[auth_id];
        lemma_without_challenge_wf(store, user);
        assert(store.pending_under(user, auth_id));
        assert(store.linked(user));
    }
}

} // verus!
