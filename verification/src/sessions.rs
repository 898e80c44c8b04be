//! The session store: live sessions keyed by opaque bearer token.

use vstd::prelude::*;

verus! {

/// One live session: the token is the lookup key and proves possession of
/// the session; the identity it references is not owned by the session.
pub struct SessionRecord {
    pub token: String,
    pub user_uuid: String,
}

/// A session store: owns the set of live sessions, issues fresh tokens on
/// sign-in and revokes them on sign-out.
pub trait Sessions {
    /// The store's abstract content: each live token maps to the identity
    /// it was issued for. A token maps to at most one identity by
    /// construction of `Map`.
    spec fn sessions(&self) -> Map<Seq<char>, Seq<char>>;

    /// Issues a fresh, non-empty token for `user_uuid` and records the
    /// session under it. Never fails.
    fn create_session(&mut self, user_uuid: &String) -> (token: String)
        ensures
            token@.len() > 0,
            final(self).sessions() == old(self).sessions().insert(token@, user_uuid@),
    ;

    /// Revokes the session under `token`. A call with an unknown or empty
    /// token leaves the store as it was; the call never fails either way.
    fn delete_session(&mut self, token: &String)
        ensures
            final(self).sessions() == old(self).sessions().remove(token@),
    ;
}

/// No two records share a token.
spec fn tokens_unique(records: Seq<SessionRecord>) -> bool {
    forall|i: int, j: int| 0 <= i < j < records.len() ==> records[i].token@ != records[j].token@
}

/// The session map that a sequence of records denotes.
spec fn sessions_of(records: Seq<SessionRecord>) -> Map<Seq<char>, Seq<char>> {
    Map::new(
        |token: Seq<char>| exists|i: int| 0 <= i < records.len() && records[i].token@ == token,
        |token: Seq<char>|
            {
                let i = choose|i: int| 0 <= i < records.len() && records[i].token@ == token;
                records[i].user_uuid@
            },
    )
}

/// When tokens are unique, the record at index `i` is the one the session
/// map holds under its token.
proof fn lemma_sessions_of_at(records: Seq<SessionRecord>, i: int)
    requires
        tokens_unique(records),
        0 <= i < records.len(),
    ensures
        sessions_of(records).contains_key(records[i].token@),
        sessions_of(records)[records[i].token@] == records[i].user_uuid@,
{
    let token = records[i].token@;
    assert(sessions_of(records).contains_key(token));
    let j = choose|j: int| 0 <= j < records.len() && records[j].token@ == token;
    if i < j {
        assert(records[i].token@ != records[j].token@);
    } else if j < i {
        assert(records[j].token@ != records[i].token@);
    }
    assert(j == i);
}

/// Appending a record whose token is free inserts exactly one entry into
/// the session map.
proof fn lemma_sessions_of_push(records: Seq<SessionRecord>, rec: SessionRecord)
    requires
        tokens_unique(records),
        forall|i: int| 0 <= i < records.len() ==> records[i].token@ != rec.token@,
    ensures
        tokens_unique(records.push(rec)),
        sessions_of(records.push(rec)) == sessions_of(records).insert(rec.token@, rec.user_uuid@),
{
    let pushed = records.push(rec);
    let n = records.len() as int;
    assert forall|i: int, j: int| 0 <= i < j < pushed.len() implies pushed[i].token@
        != pushed[j].token@ by {
        if j < n {
            assert(records[i].token@ != records[j].token@);
        } else {
            assert(pushed[j] == rec);
            assert(records[i].token@ != rec.token@);
        }
    }
    let m1 = sessions_of(pushed);
    let m2 = sessions_of(records).insert(rec.token@, rec.user_uuid@);
    assert forall|token: Seq<char>| m1.contains_key(token) implies m2.contains_key(token) by {
        let i = choose|i: int| 0 <= i < pushed.len() && pushed[i].token@ == token;
        if i < n {
            assert(records[i].token@ == token);
        }
    }
    assert forall|token: Seq<char>| m2.contains_key(token) implies m1.contains_key(token) by {
        if token == rec.token@ {
            assert(pushed[n].token@ == token);
        } else {
            let i = choose|i: int| 0 <= i < records.len() && records[i].token@ == token;
            assert(pushed[i].token@ == token);
        }
    }
    assert forall|token: Seq<char>| m1.contains_key(token) implies m1[token] == m2[token] by {
        if token == rec.token@ {
            lemma_sessions_of_at(pushed, n);
        } else {
            let i = choose|i: int| 0 <= i < pushed.len() && pushed[i].token@ == token;
            assert(i < n);
            lemma_sessions_of_at(pushed, i);
            lemma_sessions_of_at(records, i);
        }
    }
    assert(m1 =~= m2);
}

/// Removing the record at index `i` removes exactly its token's entry from
/// the session map.
proof fn lemma_sessions_of_remove(records: Seq<SessionRecord>, i: int)
    requires
        tokens_unique(records),
        0 <= i < records.len(),
    ensures
        tokens_unique(records.remove(i)),
        sessions_of(records.remove(i)) == sessions_of(records).remove(records[i].token@),
{
    let rem = records.remove(i);
    records.remove_ensures(i);
    assert forall|p: int, q: int| 0 <= p < q < rem.len() implies rem[p].token@ != rem[q].token@ by {
        let p0: int = if p < i {
            p
        } else {
            p + 1
        };
        let q0: int = if q < i {
            q
        } else {
            q + 1
        };
        assert(rem[p] == records[p0]);
        assert(rem[q] == records[q0]);
        assert(records[p0].token@ != records[q0].token@);
    }
    let m1 = sessions_of(rem);
    let m2 = sessions_of(records).remove(records[i].token@);
    assert forall|token: Seq<char>| m1.contains_key(token) implies m2.contains_key(token)
        && m1[token] == m2[token] by {
        let p = choose|p: int| 0 <= p < rem.len() && rem[p].token@ == token;
        let p0: int = if p < i {
            p
        } else {
            p + 1
        };
        assert(rem[p] == records[p0]);
        lemma_sessions_of_at(records, p0);
        if p0 < i {
            assert(records[p0].token@ != records[i].token@);
        } else {
            assert(records[i].token@ != records[p0].token@);
        }
        lemma_sessions_of_at(rem, p);
    }
    assert forall|token: Seq<char>| m2.contains_key(token) implies m1.contains_key(token) by {
        assert(token != records[i].token@);
        let p0 = choose|p0: int| 0 <= p0 < records.len() && records[p0].token@ == token;
        if p0 < i {
            assert(rem[p0].token@ == token);
        } else {
            assert(p0 > i);
            assert(rem[p0 - 1] == records[p0]);
            assert(rem[p0 - 1].token@ == token);
        }
    }
    assert(m1 =~= m2);
}

/// The in-memory session store: a vector of session records with unique
/// tokens, shared behind the host's lock by concurrent requests.
pub struct SessionsImpl {
    records: Vec<SessionRecord>,
}

impl SessionsImpl {
    /// No two records share a token, so a token identifies at most one
    /// session.
    #[verifier::type_invariant]
    spec fn wf(&self) -> bool {
        tokens_unique(self.records@)
    }

    /// An empty store: no session is live.
    pub fn new() -> (r: Self)
        ensures
            r.sessions() == Map::<Seq<char>, Seq<char>>::empty(),
    {
        let r = SessionsImpl { records: Vec::new() };
        proof {
            assert(r.sessions() =~= Map::<Seq<char>, Seq<char>>::empty());
        }
        r
    }

    /// The index of the record holding `token`, if any.
    fn find_index(records: &Vec<SessionRecord>, token: &String) -> (r: Option<usize>)
        ensures
            r matches Some(i) ==> i < records@.len() && records@[i as int].token@ == token@,
            r is None ==> forall|j: int| 0 <= j < records@.len() ==> records@[j].token@ != token@,
    {
        let n = records.len();
        let mut i: usize = 0;
        while i < n
            invariant
                i <= n,
                n == records@.len(),
                forall|j: int| 0 <= j < i ==> records@[j].token@ != token@,
            decreases n - i,
        {
            if records[i].token == *token {
                return Some(i);
            }
            i += 1;
        }
        None
    }

    /// Drops the record holding `token`, if any record does.
    fn remove_token(&mut self, token: &String)
        ensures
            final(self).sessions() == old(self).sessions().remove(token@),
    {
        proof {
            use_type_invariant(&*self);
        }
        match SessionsImpl::find_index(&self.records, token) {
            Some(i) => {
                proof {
                    lemma_sessions_of_remove(self.records@, i as int);
                }
                let mut records: Vec<SessionRecord> = Vec::new();
                std::mem::swap(&mut records, &mut self.records);
                records.remove(i);
                self.records = records;
            },
            None => {
                proof {
                    assert(!old(self).sessions().contains_key(token@));
                    assert(old(self).sessions() =~= old(self).sessions().remove(token@));
                }
            },
        }
    }
}

impl Default for SessionsImpl {
    /// An empty store.
    fn default() -> (r: Self)
        ensures
            r.sessions() == Map::<Seq<char>, Seq<char>>::empty(),
    {
        SessionsImpl::new()
    }
}

impl Sessions for SessionsImpl {
    closed spec fn sessions(&self) -> Map<Seq<char>, Seq<char>> {
        sessions_of(self.records@)
    }

    fn create_session(&mut self, user_uuid: &String) -> (token: String) {
        let token = crate::fresh_uuid();
        // The token is freshly drawn, but nothing ties two draws apart, so
        // any same-token record is dropped first: the new session wins, as
        // an insert over the abstract map demands.
        self.remove_token(&token);
        proof {
            use_type_invariant(&*self);
        }
        let record = SessionRecord { token: token.clone(), user_uuid: user_uuid.clone() };
        proof {
            assert(!self.sessions().contains_key(token@));
            assert forall|j: int| 0 <= j < self.records@.len() implies self.records@[j].token@
                != record.token@ by {
                if self.records@[j].token@ == token@ {
                    assert(self.sessions().contains_key(token@));
                }
            }
            lemma_sessions_of_push(self.records@, record);
        }
        let mut records: Vec<SessionRecord> = Vec::new();
        std::mem::swap(&mut records, &mut self.records);
        records.push(record);
        self.records = records;
        proof {
            assert(old(self).sessions().remove(token@).insert(token@, user_uuid@) =~= old(
                self,
            ).sessions().insert(token@, user_uuid@));
        }
        token
    }

    fn delete_session(&mut self, token: &String) {
        self.remove_token(token);
    }
}

} // verus!
