//! Properties of sequences of store operations, stated over the outcome predicates that the
//! operations' contracts use.

use crate::hashing::password_matches;
use crate::model::{
    create_result, created, delete_result, fresh_identifier, has_username,
    verify_outcome, with_account, UserError, UserRecord,
};
use vstd::prelude::*;

verus! {

/// After an account is created, logging in with the same credentials yields its identifier,
/// which is non-empty, was never held by another account, and keys the one new account.
pub proof fn lemma_create_then_verify(
    before: Map<Seq<char>, UserRecord>,
    retired: Set<Seq<char>>,
    after: Map<Seq<char>, UserRecord>,
    username: Seq<char>,
    password: Seq<char>,
    r: Option<Seq<char>>,
)
    requires
        created(before, retired, after, username, password),
        verify_outcome(after, username, password, r),
    ensures
        r is Some,
        fresh_identifier(before, retired, r->0),
        after == with_account(before, r->0, username, after[r->0].password_hash),
{
    let (id, hash) = choose|id: Seq<char>, hash: Seq<char>|
        fresh_identifier(before, retired, id) && password_matches(password, hash) && after
            == #[trigger] with_account(before, id, username, hash);
    assert(after.contains_key(id) && after[id].username == username);
    if r is None {
        assert(!password_matches(password, after[id].password_hash));
    }
    let x = r->0;
    if x != id {
        assert(before.contains_key(x) && before[x].username == username);
    }
}

/// Creating a second account with a username that an earlier create registered is refused
/// as a duplicate and leaves the store as it was.
pub proof fn lemma_create_twice(
    before: Map<Seq<char>, UserRecord>,
    retired: Set<Seq<char>>,
    mid: Map<Seq<char>, UserRecord>,
    retired_mid: Set<Seq<char>>,
    after: Map<Seq<char>, UserRecord>,
    retired_after: Set<Seq<char>>,
    username: Seq<char>,
    first_password: Seq<char>,
    second_password: Seq<char>,
    r: Result<(), UserError>,
)
    requires
        create_result(before, retired, mid, retired_mid, username, first_password, Ok(())),
        create_result(mid, retired_mid, after, retired_after, username, second_password, r),
    ensures
        r == Err::<(), UserError>(UserError::DuplicateUsername),
        after == mid,
        after.len() == mid.len(),
        retired_after == retired_mid,
{
    let (id, hash) = choose|id: Seq<char>, hash: Seq<char>|
        fresh_identifier(before, retired, id) && password_matches(first_password, hash) && mid
            == #[trigger] with_account(before, id, username, hash);
    assert(mid.contains_key(id) && mid[id].username == username);
}

/// A username that no live account carries logs in to nothing, whatever the password.
pub proof fn lemma_unknown_username(
    accounts: Map<Seq<char>, UserRecord>,
    username: Seq<char>,
    password: Seq<char>,
    r: Option<Seq<char>>,
)
    requires
        !has_username(accounts, username),
        verify_outcome(accounts, username, password, r),
    ensures
        r is None,
{
    if r is Some {
        assert(accounts.contains_key(r->0));
    }
}

/// Once the account that a login returned is deleted, the same credentials log in to
/// nothing, no live account carries the username, and the identifier is retired.
pub proof fn lemma_delete_then_verify(
    before: Map<Seq<char>, UserRecord>,
    retired: Set<Seq<char>>,
    mid: Map<Seq<char>, UserRecord>,
    retired_mid: Set<Seq<char>>,
    after: Map<Seq<char>, UserRecord>,
    retired_after: Set<Seq<char>>,
    username: Seq<char>,
    password: Seq<char>,
    id: Seq<char>,
    deleted: Result<(), UserError>,
    r: Option<Seq<char>>,
)
    requires
        create_result(before, retired, mid, retired_mid, username, password, Ok(())),
        verify_outcome(mid, username, password, Some(id)),
        delete_result(mid, retired_mid, after, retired_after, id, deleted),
        verify_outcome(after, username, password, r),
    ensures
        deleted is Ok,
        r is None,
        !has_username(after, username),
        !after.contains_key(id),
        retired_after.contains(id),
{
    let (new_id, hash) = choose|new_id: Seq<char>, hash: Seq<char>|
        fresh_identifier(before, retired, new_id) && password_matches(password, hash) && mid
            == #[trigger] with_account(before, new_id, username, hash);
    if id != new_id {
        assert(before.contains_key(id) && before[id].username == username);
    }
    assert forall|x: Seq<char>| #[trigger]
        after.contains_key(x) implies after[x].username != username by {
        if after[x].username == username && x != new_id {
            assert(before.contains_key(x));
        }
    }
    if r is Some {
        assert(after.contains_key(r->0));
    }
}

} // verus!
