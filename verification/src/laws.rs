//! The guarantees the directory gives its callers, stated once over the
//! abstract model (`Map<Seq<char>, UserView>`) that every operation's
//! contract in `crate::services::hashmap_user_store` is phrased in.

use vstd::prelude::*;
use crate::domain::UserView;
use crate::services::hashmap_user_store::{
    spec_add_result,
    spec_add_state,
    spec_get,
    spec_validate,
    UserStoreError,
};

verus! {

/// After an `add_user` that succeeded, `get_user` on that email returns
/// exactly the inserted record, and a second `add_user` with the same email
/// fails with `UserAlreadyExists` while leaving the state unchanged.
pub proof fn lemma_add_then_get(m: Map<Seq<char>, UserView>, u: UserView)
    requires
        spec_add_result(m, u) is Ok,
    ensures
        spec_get(spec_add_state(m, u), u.email) == Ok::<UserView, UserStoreError>(u),
        forall|v: UserView|
            v.email == u.email ==> spec_add_result(spec_add_state(m, u), v) == Err::<
                (),
                UserStoreError,
            >(UserStoreError::UserAlreadyExists),
        forall|v: UserView|
            v.email == u.email ==> spec_add_state(spec_add_state(m, u), v) == spec_add_state(m, u),
{
}

/// On a key that was never added, both reads fail with `UserNotFound`,
/// whatever credential is offered.
pub proof fn lemma_absent_key_not_found(m: Map<Seq<char>, UserView>, k: Seq<char>)
    requires
        !m.contains_key(k),
    ensures
        spec_get(m, k) == Err::<UserView, UserStoreError>(UserStoreError::UserNotFound),
        forall|p: Seq<char>|
            spec_validate(m, k, p) == Err::<(), UserStoreError>(UserStoreError::UserNotFound),
{
}

/// For a stored record with credential `c`, validation succeeds exactly on
/// `c` itself; every other candidate is refused as `InvalidCredentials`.
pub proof fn lemma_validate_exact_match(m: Map<Seq<char>, UserView>, k: Seq<char>, c: Seq<char>)
    requires
        m.contains_key(k),
        m[k].password == c,
    ensures
        forall|p: Seq<char>| spec_validate(m, k, p) is Ok <==> p == c,
        forall|p: Seq<char>|
            p != c ==> spec_validate(m, k, p) == Err::<(), UserStoreError>(
                UserStoreError::InvalidCredentials,
            ),
{
}

/// Reads are deterministic: with the state unchanged, repeated `get_user`
/// and `validate_user` calls are bound to identical results, because each
/// result is a function of the state and the arguments alone.
pub proof fn lemma_reads_idempotent(
    m: Map<Seq<char>, UserView>,
    k: Seq<char>,
    p: Seq<char>,
    g1: Result<UserView, UserStoreError>,
    g2: Result<UserView, UserStoreError>,
    v1: Result<(), UserStoreError>,
    v2: Result<(), UserStoreError>,
)
    requires
        g1 == spec_get(m, k),
        g2 == spec_get(m, k),
        v1 == spec_validate(m, k, p),
        v2 == spec_validate(m, k, p),
    ensures
        g1 == g2,
        v1 == v2,
{
}

/// The state reached by a sequence of `add_user` calls, applied in order.
pub open spec fn run_adds(m: Map<Seq<char>, UserView>, us: Seq<UserView>) -> Map<
    Seq<char>,
    UserView,
>
    decreases us.len(),
{
    if us.len() == 0 {
        m
    } else {
        run_adds(spec_add_state(m, us[0]), us.drop_first())
    }
}

/// How many of a sequence of `add_user` calls, applied in order, succeed.
pub open spec fn count_successful_adds(m: Map<Seq<char>, UserView>, us: Seq<UserView>) -> nat
    decreases us.len(),
{
    if us.len() == 0 {
        0
    } else {
        (if spec_add_result(m, us[0]) is Ok {
            1nat
        } else {
            0nat
        }) + count_successful_adds(spec_add_state(m, us[0]), us.drop_first())
    }
}

/// Once a key is taken, every further `add_user` under it fails and the
/// state never moves.
pub proof fn lemma_adds_on_taken_key_all_fail(
    m: Map<Seq<char>, UserView>,
    us: Seq<UserView>,
    k: Seq<char>,
)
    requires
        m.contains_key(k),
        forall|i: int| 0 <= i < us.len() ==> us[i].email == k,
    ensures
        count_successful_adds(m, us) == 0,
        run_adds(m, us) == m,
    decreases us.len(),
{
    if us.len() > 0 {
        assert(us[0].email == k);
        assert(forall|i: int|
            0 <= i < us.drop_first().len() ==> us.drop_first()[i].email == k);
        lemma_adds_on_taken_key_all_fail(m, us.drop_first(), k);
    }
}

/// Concurrent signups resolve to a single winner: in whatever order a batch
/// of `add_user` calls for one free key is linearized, the first succeeds,
/// all the others fail, and the final state holds exactly the winner's
/// record under that key.
pub proof fn lemma_concurrent_adds_single_winner(
    m: Map<Seq<char>, UserView>,
    us: Seq<UserView>,
    k: Seq<char>,
)
    requires
        !m.contains_key(k),
        us.len() > 0,
        forall|i: int| 0 <= i < us.len() ==> us[i].email == k,
    ensures
        spec_add_result(m, us[0]) is Ok,
        count_successful_adds(m, us) == 1,
        run_adds(m, us) == m.insert(k, us[0]),
        run_adds(m, us)[k] == us[0],
{
    assert(us[0].email == k);
    let m1 = spec_add_state(m, us[0]);
    assert(m1 == m.insert(k, us[0]));
    assert(forall|i: int|
        0 <= i < us.drop_first().len() ==> us.drop_first()[i].email == k);
    lemma_adds_on_taken_key_all_fail(m1, us.drop_first(), k);
}

/// `UnexpectedError` is unreachable through the public contract: no state
/// and no input makes any operation report it.
pub proof fn lemma_unexpected_never_returned(
    m: Map<Seq<char>, UserView>,
    u: UserView,
    k: Seq<char>,
    p: Seq<char>,
)
    ensures
        spec_add_result(m, u) != Err::<(), UserStoreError>(UserStoreError::UnexpectedError),
        spec_get(m, k) != Err::<UserView, UserStoreError>(UserStoreError::UnexpectedError),
        spec_validate(m, k, p) != Err::<(), UserStoreError>(UserStoreError::UnexpectedError),
{
}

} // verus!
