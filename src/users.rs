//! The credential store: a list of accounts searched by username or identifier, with the
//! identifiers of deleted accounts kept so that none is handed out again.

use crate::hashing::{check_password, generate_salt, hash_password, new_identifier, password_matches};
use crate::model::{
    create_result, delete_result, has_username, register_result,
    store_invariant, verify_outcome, with_account, UserError, UserRecord,
};
use vstd::prelude::*;

verus! {

/// One registered account. The password is held only as its PHC hash string.
pub struct User {
    user_uuid: String,
    username: String,
    password_hash: String,
}

impl View for User {
    type V = UserRecord;

    closed spec fn view(&self) -> UserRecord {
        UserRecord {
            identifier: self.user_uuid@,
            username: self.username@,
            password_hash: self.password_hash@,
        }
    }
}

impl User {
    /// The account's identifier.
    pub fn identifier(&self) -> (r: &str)
        ensures
            r@ == self@.identifier,
    {
        &self.user_uuid
    }

    /// The account's username.
    pub fn username(&self) -> (r: &str)
        ensures
            r@ == self@.username,
    {
        &self.username
    }

    /// The stored PHC hash string of the account's password.
    pub fn password_hash(&self) -> (r: &str)
        ensures
            r@ == self@.password_hash,
    {
        &self.password_hash
    }
}

/// A credential store: create accounts, check login attempts, delete accounts.
pub trait Users: Sized {
    /// The live accounts, keyed by identifier.
    spec fn accounts(&self) -> Map<Seq<char>, UserRecord>;

    /// The identifiers of deleted accounts.
    spec fn retired(&self) -> Set<Seq<char>>;

    /// The concrete representation agrees with `accounts` and `retired`.
    spec fn well_formed(&self) -> bool;

    /// Registers `username` with a salted hash of `password` under a new identifier.
    fn create_user(&mut self, username: String, password: String) -> (r: Result<(), UserError>)
        requires
            old(self).well_formed(),
        ensures
            final(self).well_formed(),
            store_invariant(final(self).accounts(), final(self).retired()),
            create_result(
                old(self).accounts(),
                old(self).retired(),
                final(self).accounts(),
                final(self).retired(),
                username@,
                password@,
                r,
            ),
    ;

    /// The identifier of the account with `username`, if `password` verifies against it.
    fn get_user_uuid(&self, username: String, password: String) -> (r: Option<String>)
        requires
            self.well_formed(),
        ensures
            verify_outcome(self.accounts(), username@, password@, r.deep_view()),
    ;

    /// Removes the account with identifier `user_uuid`.
    fn delete_user(&mut self, user_uuid: String) -> (r: Result<(), UserError>)
        requires
            old(self).well_formed(),
        ensures
            final(self).well_formed(),
            store_invariant(final(self).accounts(), final(self).retired()),
            delete_result(
                old(self).accounts(),
                old(self).retired(),
                final(self).accounts(),
                final(self).retired(),
                user_uuid@,
                r,
            ),
    ;
}

/// The in-memory credential store.
pub struct UsersImpl {
    records: Vec<User>,
    retired: Vec<String>,
    model: Ghost<Map<Seq<char>, UserRecord>>,
}

impl UsersImpl {
    closed spec fn retired_set(&self) -> Set<Seq<char>> {
        Set::new(
            |id: Seq<char>|
                exists|k: int| 0 <= k < self.retired@.len() && #[trigger] self.retired@[k]@ == id,
        )
    }

    closed spec fn inv(&self) -> bool {
        &&& store_invariant(self.model@, self.retired_set())
        &&& self.model@.len() == self.records@.len()
        &&& forall|i: int|
            0 <= i < self.records@.len() ==> self.model@.contains_key(
                #[trigger] self.records@[i]@.identifier,
            ) && self.model@[self.records@[i]@.identifier] == self.records@[i]@
        &&& forall|id: Seq<char>| #[trigger]
            self.model@.contains_key(id) ==> exists|i: int|
                0 <= i < self.records@.len() && #[trigger] self.records@[i]@.identifier == id
        &&& forall|i: int, j: int|
            0 <= i < j < self.records@.len() ==> #[trigger] self.records@[i]@.identifier
                != #[trigger] self.records@[j]@.identifier
    }

    /// An empty store.
    pub fn new() -> (r: Self)
        ensures
            r.well_formed(),
            r.accounts() == Map::<Seq<char>, UserRecord>::empty(),
            r.retired() == Set::<Seq<char>>::empty(),
    {
        let r = UsersImpl { records: Vec::new(), retired: Vec::new(), model: Ghost(Map::empty()) };
        assert(r.retired_set() =~= Set::<Seq<char>>::empty());
        r
    }

    /// The number of live accounts.
    pub fn len(&self) -> (r: usize)
        requires
            self.well_formed(),
        ensures
            r == self.accounts().len(),
    {
        self.records.len()
    }

    /// The live account with `username`, if there is one.
    pub fn find_by_username(&self, username: &String) -> (r: Option<&User>)
        requires
            self.well_formed(),
        ensures
            match r {
                Some(user) => self.accounts().contains_key(user@.identifier)
                    && self.accounts()[user@.identifier] == user@ && user@.username == username@,
                None => !has_username(self.accounts(), username@),
            },
    {
        match self.position_of_username(username) {
            Some(i) => Some(&self.records[i]),
            None => {
                proof {
                    self.lemma_no_username(username@);
                }
                None
            },
        }
    }

    fn position_of_username(&self, username: &String) -> (r: Option<usize>)
        ensures
            match r {
                Some(i) => i < self.records@.len() && self.records@[i as int]@.username
                    == username@,
                None => forall|i: int|
                    0 <= i < self.records@.len() ==> #[trigger] self.records@[i]@.username
                        != username@,
            },
    {
        let mut i: usize = 0;
        while i < self.records.len()
            invariant
                i <= self.records@.len(),
                forall|k: int| 0 <= k < i ==> #[trigger] self.records@[k]@.username != username@,
            decreases self.records@.len() - i,
        {
            if self.records[i].username == *username {
                return Some(i);
            }
            i += 1;
        }
        None
    }

    fn position_of_identifier(&self, identifier: &String) -> (r: Option<usize>)
        ensures
            match r {
                Some(i) => i < self.records@.len() && self.records@[i as int]@.identifier
                    == identifier@,
                None => forall|i: int|
                    0 <= i < self.records@.len() ==> #[trigger] self.records@[i]@.identifier
                        != identifier@,
            },
    {
        let mut i: usize = 0;
        while i < self.records.len()
            invariant
                i <= self.records@.len(),
                forall|k: int|
                    0 <= k < i ==> #[trigger] self.records@[k]@.identifier != identifier@,
            decreases self.records@.len() - i,
        {
            if self.records[i].user_uuid == *identifier {
                return Some(i);
            }
            i += 1;
        }
        None
    }

    proof fn lemma_no_username(&self, username: Seq<char>)
        requires
            self.inv(),
            forall|i: int|
                0 <= i < self.records@.len() ==> #[trigger] self.records@[i]@.username != username,
        ensures
            !has_username(self.model@, username),
    {
        assert forall|id: Seq<char>| #[trigger]
            self.model@.contains_key(id) implies self.model@[id].username != username by {
            let i = choose|i: int|
                0 <= i < self.records@.len() && #[trigger] self.records@[i]@.identifier == id;
            assert(self.records@[i]@.username != username);
        }
    }

    /// Adds an account for `username` under `identifier`, with `password_hash` as its stored
    /// hash. A taken username, and an identifier that is empty, live or retired, are refused.
    pub fn register(&mut self, username: String, identifier: String, password_hash: String) -> (r:
        Result<(), UserError>)
        requires
            old(self).well_formed(),
        ensures
            final(self).well_formed(),
            store_invariant(final(self).accounts(), final(self).retired()),
            register_result(
                old(self).accounts(),
                old(self).retired(),
                final(self).accounts(),
                final(self).retired(),
                username@,
                identifier@,
                password_hash@,
                r,
            ),
    {
        if let Some(i) = self.position_of_username(&username) {
            assert(self.model@.contains_key(self.records@[i as int]@.identifier));
            return Err(UserError::DuplicateUsername);
        }
        proof {
            self.lemma_no_username(username@);
        }
        let id_text: &str = &identifier;
        if id_text.is_empty() || self.is_retired(&identifier) {
            return Err(UserError::IdentifierCollision);
        }
        if let Some(i) = self.position_of_identifier(&identifier) {
            assert(self.model@.contains_key(self.records@[i as int]@.identifier));
            return Err(UserError::IdentifierCollision);
        }
        assert(!self.model@.contains_key(identifier@));
        let ghost old_records = self.records@;
        let ghost old_model = self.model@;
        let ghost old_retired = self.retired_set();
        let ghost record = UserRecord {
            identifier: identifier@,
            username: username@,
            password_hash: password_hash@,
        };
        self.records.push(User { user_uuid: identifier, username, password_hash });
        self.model = Ghost(self.model@.insert(record.identifier, record));
        proof {
            let n = old_records.len();
            assert(self.records@[n as int]@ == record);
            assert(self.retired_set() =~= old_retired);
            assert forall|j: int| 0 <= j < self.records@.len() implies self.model@.contains_key(
                #[trigger] self.records@[j]@.identifier,
            ) && self.model@[self.records@[j]@.identifier] == self.records@[j]@ by {
                if j < n {
                    assert(self.records@[j] == old_records[j]);
                    assert(old_model.contains_key(old_records[j]@.identifier));
                }
            }
            assert forall|id: Seq<char>| #[trigger]
                self.model@.contains_key(id) implies exists|j: int|
                0 <= j < self.records@.len() && #[trigger] self.records@[j]@.identifier == id by {
                if id == record.identifier {
                    assert(self.records@[n as int]@.identifier == id);
                } else {
                    assert(old_model.contains_key(id));
                    let k = choose|k: int|
                        0 <= k < old_records.len() && #[trigger] old_records[k]@.identifier == id;
                    assert(self.records@[k] == old_records[k]);
                }
            }
            assert forall|a: int, b: int|
                0 <= a < b < self.records@.len() implies #[trigger] self.records@[a]@.identifier
                != #[trigger] self.records@[b]@.identifier by {
                assert(self.records@[a] == old_records[a]);
                if b < n {
                    assert(self.records@[b] == old_records[b]);
                } else {
                    assert(old_model.contains_key(old_records[a]@.identifier));
                }
            }
            assert forall|a: Seq<char>, b: Seq<char>|
                #[trigger] self.model@.contains_key(a) && #[trigger] self.model@.contains_key(b)
                    && self.model@[a].username == self.model@[b].username implies a == b by {
                if a != b && a != record.identifier && b != record.identifier {
                    assert(old_model.contains_key(a) && old_model.contains_key(b));
                } else if a != b && a == record.identifier {
                    assert(old_model.contains_key(b));
                } else if a != b {
                    assert(old_model.contains_key(a));
                }
            }
        }
        Ok(())
    }

    fn is_retired(&self, identifier: &String) -> (r: bool)
        ensures
            r == self.retired_set().contains(identifier@),
    {
        let mut k: usize = 0;
        while k < self.retired.len()
            invariant
                k <= self.retired@.len(),
                forall|j: int| 0 <= j < k ==> #[trigger] self.retired@[j]@ != identifier@,
            decreases self.retired@.len() - k,
        {
            if self.retired[k] == *identifier {
                return true;
            }
            k += 1;
        }
        false
    }
}

impl Default for UsersImpl {
    fn default() -> (r: Self)
        ensures
            r.well_formed(),
            r.accounts() == Map::<Seq<char>, UserRecord>::empty(),
            r.retired() == Set::<Seq<char>>::empty(),
    {
        UsersImpl::new()
    }
}

impl Users for UsersImpl {
    closed spec fn accounts(&self) -> Map<Seq<char>, UserRecord> {
        self.model@
    }

    closed spec fn retired(&self) -> Set<Seq<char>> {
        self.retired_set()
    }

    closed spec fn well_formed(&self) -> bool {
        self.inv()
    }

    fn create_user(&mut self, username: String, password: String) -> (r: Result<(), UserError>) {
        if let Some(i) = self.position_of_username(&username) {
            assert(self.model@.contains_key(self.records@[i as int]@.identifier));
            return Err(UserError::DuplicateUsername);
        }
        proof {
            self.lemma_no_username(username@);
        }
        let salt = generate_salt();
        let hashed = match hash_password(&password, &salt) {
            Ok(h) => h,
            Err(_) => return Err(UserError::HashingFailure),
        };
        let identifier = new_identifier();
        let ghost before = self.model@;
        let ghost id = identifier@;
        let ghost hash = hashed@;
        let r = self.register(username, identifier, hashed);
        proof {
            if r is Ok {
                assert(self.model@ == with_account(before, id, username@, hash));
            }
        }
        r
    }

    fn get_user_uuid(&self, username: String, password: String) -> (r: Option<String>) {
        match self.position_of_username(&username) {
            None => {
                assert forall|id: Seq<char>| #[trigger]
                    self.model@.contains_key(id) implies self.model@[id].username != username@ by {
                    let i = choose|i: int|
                        0 <= i < self.records@.len() && #[trigger] self.records@[i]@.identifier
                            == id;
                    assert(self.records@[i]@.username != username@);
                }
                None
            },
            Some(i) => {
                let user = &self.records[i];
                let ghost id = user@.identifier;
                assert(self.model@.contains_key(id));
                if check_password(&password, &user.password_hash) {
                    Some(user.user_uuid.clone())
                } else {
                    assert forall|other: Seq<char>| #[trigger]
                        self.model@.contains_key(other) && self.model@[other].username
                            == username@ implies !password_matches(
                        password@,
                        self.model@[other].password_hash,
                    ) by {
                        assert(other == id);
                    }
                    None
                }
            },
        }
    }

    fn delete_user(&mut self, user_uuid: String) -> (r: Result<(), UserError>) {
        match self.position_of_identifier(&user_uuid) {
            None => {
                assert(!self.model@.contains_key(user_uuid@));
                Err(UserError::UnknownIdentifier)
            },
            Some(i) => {
                let ghost old_records = self.records@;
                let ghost old_retired = self.retired_set();
                let ghost old_retired_vec = self.retired@;
                let ghost old_model = self.model@;
                let removed = self.records.remove(i);
                self.retired.push(removed.user_uuid);
                self.model = Ghost(self.model@.remove(user_uuid@));
                proof {
                    assert(self.retired_set() =~= old_retired.insert(user_uuid@)) by {
                        assert(self.retired@.last()@ == user_uuid@);
                        assert forall|id: Seq<char>|
                            old_retired.contains(id) implies self.retired_set().contains(id) by {
                            let k = choose|k: int|
                                0 <= k < old_retired_vec.len() && #[trigger] old_retired_vec[k]@
                                    == id;
                            assert(self.retired@[k] == old_retired_vec[k]);
                        }
                        assert forall|id: Seq<char>|
                            self.retired_set().contains(id) implies old_retired.insert(
                            user_uuid@,
                        ).contains(id) by {
                            let k = choose|k: int|
                                0 <= k < self.retired@.len() && #[trigger] self.retired@[k]@
                                    == id;
                            if k < self.retired@.len() - 1 {
                                assert(self.retired@[k] == old_retired_vec[k]);
                                assert(old_retired.contains(id));
                            }
                        }
                    }
                    assert forall|j: int| 0 <= j < self.records@.len() implies #[trigger]
                        self.records@[j]@.identifier != user_uuid@ by {
                        if j < i {
                            assert(old_records[j]@.identifier != old_records[i as int]@.identifier);
                        } else {
                            assert(old_records[j + 1]@.identifier
                                != old_records[i as int]@.identifier);
                        }
                    }
                    assert forall|id: Seq<char>| #[trigger]
                        self.model@.contains_key(id) implies exists|j: int|
                        0 <= j < self.records@.len() && #[trigger] self.records@[j]@.identifier
                            == id by {
                        assert(old_model.contains_key(id));
                        let k = choose|k: int|
                            0 <= k < old_records.len() && #[trigger] old_records[k]@.identifier
                                == id;
                        if k < i {
                            assert(self.records@[k]@.identifier == id);
                        } else {
                            assert(k != i);
                            assert(self.records@[k - 1]@.identifier == id);
                        }
                    }
                    assert forall|a: int, b: int|
                        0 <= a < b < self.records@.len() implies #[trigger] self.records@[a]@.identifier
                        != #[trigger] self.records@[b]@.identifier by {
                        let oa = if a < i { a } else { a + 1 };
                        let ob = if b < i { b } else { b + 1 };
                        assert(self.records@[a] == old_records[oa]);
                        assert(self.records@[b] == old_records[ob]);
                    }
                    assert forall|j: int| 0 <= j < self.records@.len() implies self.model@.contains_key(
                        #[trigger] self.records@[j]@.identifier,
                    ) && self.model@[self.records@[j]@.identifier] == self.records@[j]@ by {
                        let oj = if j < i { j } else { j + 1 };
                        assert(self.records@[j] == old_records[oj]);
                    }
                }
                Ok(())
            },
        }
    }
}

} // verus!
