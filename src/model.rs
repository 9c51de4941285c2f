//! The abstract state of a credential store and the outcome of each operation on it.
//!
//! A store is modelled as a map from identifier to account, together with the set of
//! identifiers that belonged to accounts since deleted. The username index is derived
//! from the map: a username is registered when some account carries it.

use crate::hashing::password_matches;
use vstd::prelude::*;

verus! {

/// What the store reports when an operation does not take place.
#[derive(Debug, Clone, Copy, PartialEq, Eq, Structural)]
pub enum UserError {
    /// A live account already has the username.
    DuplicateUsername,
    /// The password could not be hashed.
    HashingFailure,
    /// The identifier is empty, or belongs or belonged to another account.
    IdentifierCollision,
    /// No live account has the identifier.
    UnknownIdentifier,
}

/// The abstract content of one account.
pub struct UserRecord {
    pub identifier: Seq<char>,
    pub username: Seq<char>,
    pub password_hash: Seq<char>,
}

/// Some live account carries `username`.
pub open spec fn has_username(accounts: Map<Seq<char>, UserRecord>, username: Seq<char>) -> bool {
    exists|id: Seq<char>| #[trigger]
        accounts.contains_key(id) && accounts[id].username == username
}

/// What every reachable store satisfies: finitely many accounts, each stored under its own
/// non-empty identifier that was never retired, and no username carried twice.
pub open spec fn store_invariant(
    accounts: Map<Seq<char>, UserRecord>,
    retired: Set<Seq<char>>,
) -> bool {
    &&& accounts.dom().finite()
    &&& forall|id: Seq<char>| #[trigger]
        accounts.contains_key(id) ==> accounts[id].identifier == id && id.len() > 0
            && !retired.contains(id)
    &&& forall|a: Seq<char>, b: Seq<char>|
        #[trigger] accounts.contains_key(a) && #[trigger] accounts.contains_key(b)
            && accounts[a].username == accounts[b].username ==> a == b
}

/// `id` may be given to a new account: it is non-empty, not live and never was.
pub open spec fn fresh_identifier(
    accounts: Map<Seq<char>, UserRecord>,
    retired: Set<Seq<char>>,
    id: Seq<char>,
) -> bool {
    id.len() > 0 && !accounts.contains_key(id) && !retired.contains(id)
}

/// `before` with one more account.
pub open spec fn with_account(
    before: Map<Seq<char>, UserRecord>,
    id: Seq<char>,
    username: Seq<char>,
    password_hash: Seq<char>,
) -> Map<Seq<char>, UserRecord> {
    before.insert(id, UserRecord { identifier: id, username, password_hash })
}

/// The outcome of registering `username` under `id` with the stored hash `password_hash`.
pub open spec fn register_result(
    before: Map<Seq<char>, UserRecord>,
    retired: Set<Seq<char>>,
    after: Map<Seq<char>, UserRecord>,
    retired_after: Set<Seq<char>>,
    username: Seq<char>,
    id: Seq<char>,
    password_hash: Seq<char>,
    r: Result<(), UserError>,
) -> bool {
    &&& retired_after == retired
    &&& if has_username(before, username) {
        r == Err::<(), UserError>(UserError::DuplicateUsername) && after == before
    } else if !fresh_identifier(before, retired, id) {
        r == Err::<(), UserError>(UserError::IdentifierCollision) && after == before
    } else {
        r is Ok && after == with_account(before, id, username, password_hash)
    }
}

/// `after` is `before` with a new account for `username`, under a fresh identifier, whose
/// stored hash verifies `password`.
pub open spec fn created(
    before: Map<Seq<char>, UserRecord>,
    retired: Set<Seq<char>>,
    after: Map<Seq<char>, UserRecord>,
    username: Seq<char>,
    password: Seq<char>,
) -> bool {
    &&& !has_username(before, username)
    &&& exists|id: Seq<char>, hash: Seq<char>|
        fresh_identifier(before, retired, id) && password_matches(password, hash) && after
            == #[trigger] with_account(before, id, username, hash)
}

/// The outcome of creating an account for `username` with `password`. A taken username is
/// always refused; otherwise the hashing and the identifier draw decide between success
/// and the other errors, and a failure changes nothing.
pub open spec fn create_result(
    before: Map<Seq<char>, UserRecord>,
    retired: Set<Seq<char>>,
    after: Map<Seq<char>, UserRecord>,
    retired_after: Set<Seq<char>>,
    username: Seq<char>,
    password: Seq<char>,
    r: Result<(), UserError>,
) -> bool {
    &&& retired_after == retired
    &&& (r == Err::<(), UserError>(UserError::DuplicateUsername) <==> has_username(
        before,
        username,
    ))
    &&& match r {
        Ok(()) => created(before, retired, after, username, password),
        Err(e) => after == before && e != UserError::UnknownIdentifier,
    }
}

/// The outcome of a login attempt: the identifier of the account that carries `username`
/// when `password` verifies against its stored hash, and nothing otherwise.
pub open spec fn verify_outcome(
    accounts: Map<Seq<char>, UserRecord>,
    username: Seq<char>,
    password: Seq<char>,
    r: Option<Seq<char>>,
) -> bool {
    match r {
        Some(id) => accounts.contains_key(id) && accounts[id].username == username
            && password_matches(password, accounts[id].password_hash),
        None => forall|id: Seq<char>| #[trigger]
            accounts.contains_key(id) && accounts[id].username == username ==> !password_matches(
                password,
                accounts[id].password_hash,
            ),
    }
}

/// The outcome of deleting the account with identifier `id`: it leaves the store and its
/// identifier is retired; an unknown identifier changes nothing.
pub open spec fn delete_result(
    before: Map<Seq<char>, UserRecord>,
    retired: Set<Seq<char>>,
    after: Map<Seq<char>, UserRecord>,
    retired_after: Set<Seq<char>>,
    id: Seq<char>,
    r: Result<(), UserError>,
) -> bool {
    if before.contains_key(id) {
        r is Ok && after == before.remove(id) && retired_after == retired.insert(id)
    } else {
        r == Err::<(), UserError>(UserError::UnknownIdentifier) && after == before
            && retired_after == retired
    }
}

} // verus!
