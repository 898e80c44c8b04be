//! The user-credential store: credential records keyed by username.

use vstd::prelude::*;

verus! {

/// One credential record. The username is the lookup key; the identity
/// (`user_uuid`) is assigned at sign-up time and never changes; the
/// password is stored verbatim and compared by exact equality.
pub struct UserRecord {
    pub username: String,
    pub user_uuid: String,
    pub password: String,
}

/// The one error a user store raises: a sign-up under a username that is
/// already registered.
#[derive(Clone, Copy, Debug, PartialEq, Eq, Structural)]
pub enum UserStoreError {
    UsernameExists,
}

/// A user-credential store: owns the set of credential records, registers
/// new users, and resolves a (username, password) pair to an identity.
pub trait Users {
    /// The store's abstract content: each registered username maps to the
    /// pair (identity, password-verification material).
    spec fn creds(&self) -> Map<Seq<char>, (Seq<char>, Seq<char>)>;

    /// Registers `username` with `password`. The duplicate check and the
    /// insertion are one atomic unit: the call succeeds exactly when the
    /// username was free, and then records it under a fresh, non-empty
    /// identity; on a duplicate the store is unchanged.
    fn create_user(&mut self, username: String, password: String) -> (r: Result<
        (),
        UserStoreError,
    >)
        ensures
            r is Ok <==> !old(self).creds().contains_key(username@),
            r is Err ==> final(self).creds() == old(self).creds(),
            r is Ok ==> exists|identity: Seq<char>|
                identity.len() > 0 && final(self).creds() == old(self).creds().insert(
                    username@,
                    (identity, password@),
                ),
    ;

    /// Resolves `username` and `password` to the registered identity.
    /// Returns the identity exactly when the username is registered and the
    /// supplied password equals the stored one; an unknown username and a
    /// wrong password are not distinguished in the result.
    fn get_user_uuid(&self, username: String, password: String) -> (r: Option<String>)
        ensures
            r is Some <==> (self.creds().contains_key(username@) && self.creds()[username@].1
                == password@),
            r matches Some(identity) ==> identity@ == self.creds()[username@].0 && identity@.len()
                > 0,
    ;
}

/// No two records share a username.
spec fn usernames_unique(records: Seq<UserRecord>) -> bool {
    forall|i: int, j: int|
        0 <= i < j < records.len() ==> records[i].username@ != records[j].username@
}

/// The credential map that a sequence of records denotes.
spec fn creds_of(records: Seq<UserRecord>) -> Map<Seq<char>, (Seq<char>, Seq<char>)> {
    Map::new(
        |name: Seq<char>| exists|i: int| 0 <= i < records.len() && records[i].username@ == name,
        |name: Seq<char>|
            {
                let i = choose|i: int| 0 <= i < records.len() && records[i].username@ == name;
                (records[i].user_uuid@, records[i].password@)
            },
    )
}

/// When usernames are unique, the record at index `i` is the one the
/// credential map holds under its username.
proof fn lemma_creds_of_at(records: Seq<UserRecord>, i: int)
    requires
        usernames_unique(records),
        0 <= i < records.len(),
    ensures
        creds_of(records).contains_key(records[i].username@),
        creds_of(records)[records[i].username@] == (records[i].user_uuid@, records[i].password@),
{
    let name = records[i].username@;
    assert(creds_of(records).contains_key(name));
    let j = choose|j: int| 0 <= j < records.len() && records[j].username@ == name;
    if i < j {
        assert(records[i].username@ != records[j].username@);
    } else if j < i {
        assert(records[j].username@ != records[i].username@);
    }
    assert(j == i);
}

/// Appending a record whose username is free inserts exactly one entry
/// into the credential map.
proof fn lemma_creds_of_push(records: Seq<UserRecord>, rec: UserRecord)
    requires
        usernames_unique(records),
        forall|i: int| 0 <= i < records.len() ==> records[i].username@ != rec.username@,
    ensures
        usernames_unique(records.push(rec)),
        creds_of(records.push(rec)) == creds_of(records).insert(
            rec.username@,
            (rec.user_uuid@, rec.password@),
        ),
{
    let pushed = records.push(rec);
    let n = records.len() as int;
    assert forall|i: int, j: int| 0 <= i < j < pushed.len() implies pushed[i].username@
        != pushed[j].username@ by {
        if j < n {
            assert(records[i].username@ != records[j].username@);
        } else {
            assert(pushed[j] == rec);
            assert(records[i].username@ != rec.username@);
        }
    }
    let m1 = creds_of(pushed);
    let m2 = creds_of(records).insert(rec.username@, (rec.user_uuid@, rec.password@));
    assert forall|name: Seq<char>| m1.contains_key(name) implies m2.contains_key(name) by {
        let i = choose|i: int| 0 <= i < pushed.len() && pushed[i].username@ == name;
        if i < n {
            assert(records[i].username@ == name);
        }
    }
    assert forall|name: Seq<char>| m2.contains_key(name) implies m1.contains_key(name) by {
        if name == rec.username@ {
            assert(pushed[n].username@ == name);
        } else {
            let i = choose|i: int| 0 <= i < records.len() && records[i].username@ == name;
            assert(pushed[i].username@ == name);
        }
    }
    assert forall|name: Seq<char>| m1.contains_key(name) implies m1[name] == m2[name] by {
        if name == rec.username@ {
            lemma_creds_of_at(pushed, n);
        } else {
            let i = choose|i: int| 0 <= i < pushed.len() && pushed[i].username@ == name;
            assert(i < n);
            lemma_creds_of_at(pushed, i);
            lemma_creds_of_at(records, i);
        }
    }
    assert(m1 =~= m2);
}

/// The in-memory user store: a vector of credential records with unique
/// usernames, shared behind the host's lock by concurrent requests.
pub struct UsersImpl {
    records: Vec<UserRecord>,
}

impl UsersImpl {
    /// No two records share a username, and every stored identity is the
    /// 36-character form issued at sign-up, hence non-empty.
    #[verifier::type_invariant]
    spec fn wf(&self) -> bool {
        &&& usernames_unique(self.records@)
        &&& forall|i: int|
            0 <= i < self.records@.len() ==> self.records@[i].user_uuid@.len() == 36
    }

    /// An empty store: no username is registered.
    pub fn new() -> (r: Self)
        ensures
            r.creds() == Map::<Seq<char>, (Seq<char>, Seq<char>)>::empty(),
    {
        let r = UsersImpl { records: Vec::new() };
        proof {
            assert(r.creds() =~= Map::<Seq<char>, (Seq<char>, Seq<char>)>::empty());
        }
        r
    }

    /// The index of the record registered under `username`, if any.
    fn find_index(records: &Vec<UserRecord>, username: &String) -> (r: Option<usize>)
        ensures
            r matches Some(i) ==> i < records@.len() && records@[i as int].username@ == username@,
            r is None ==> forall|j: int|
                0 <= j < records@.len() ==> records@[j].username@ != username@,
    {
        let n = records.len();
        let mut i: usize = 0;
        while i < n
            invariant
                i <= n,
                n == records@.len(),
                forall|j: int| 0 <= j < i ==> records@[j].username@ != username@,
            decreases n - i,
        {
            if records[i].username == *username {
                return Some(i);
            }
            i += 1;
        }
        None
    }
}

impl Default for UsersImpl {
    /// An empty store.
    fn default() -> (r: Self)
        ensures
            r.creds() == Map::<Seq<char>, (Seq<char>, Seq<char>)>::empty(),
    {
        UsersImpl::new()
    }
}

impl Users for UsersImpl {
    closed spec fn creds(&self) -> Map<Seq<char>, (Seq<char>, Seq<char>)> {
        creds_of(self.records@)
    }

    fn create_user(&mut self, username: String, password: String) -> (r: Result<
        (),
        UserStoreError,
    >) {
        proof {
            use_type_invariant(&*self);
        }
        match UsersImpl::find_index(&self.records, &username) {
            Some(i) => {
                proof {
                    assert(self.records@[i as int].username@ == username@);
                    assert(self.creds().contains_key(username@));
                }
                Err(UserStoreError::UsernameExists)
            },
            None => {
                proof {
                    assert(!old(self).creds().contains_key(username@));
                }
                let user_uuid = crate::fresh_uuid();
                let record = UserRecord { username, user_uuid, password };
                proof {
                    lemma_creds_of_push(self.records@, record);
                }
                let mut records: Vec<UserRecord> = Vec::new();
                std::mem::swap(&mut records, &mut self.records);
                records.push(record);
                self.records = records;
                Ok(())
            },
        }
    }

    fn get_user_uuid(&self, username: String, password: String) -> (r: Option<String>) {
        proof {
            use_type_invariant(&*self);
        }
        match UsersImpl::find_index(&self.records, &username) {
            Some(i) => {
                proof {
                    lemma_creds_of_at(self.records@, i as int);
                }
                if self.records[i].password == password {
                    Some(self.records[i].user_uuid.clone())
                } else {
                    None
                }
            },
            None => {
                proof {
                    assert(!self.creds().contains_key(username@));
                }
                None
            },
        }
    }
}

} // verus!
