use vstd::prelude::*;
use crate::domain::{User, UserView};

verus! {

/// Every failure a directory operation can report. `UnexpectedError` is
/// reserved for internal invariant violations and is never produced by any
/// operation of [`HashmapUserStore`]; see `crate::laws`.
#[derive(Clone, Copy, Debug, PartialEq, Eq, Structural)]
pub enum UserStoreError {
    UserAlreadyExists,
    UserNotFound,
    InvalidCredentials,
    UnexpectedError,
}

/// What `add_user` returns when applied to the directory state `m`:
/// a duplicate key is refused, any other record is accepted.
pub open spec fn spec_add_result(m: Map<Seq<char>, UserView>, u: UserView) -> Result<
    (),
    UserStoreError,
> {
    if m.contains_key(u.email) {
        Err(UserStoreError::UserAlreadyExists)
    } else {
        Ok(())
    }
}

/// The directory state after `add_user`: grown by one entry on success,
/// unchanged on failure.
pub open spec fn spec_add_state(m: Map<Seq<char>, UserView>, u: UserView) -> Map<
    Seq<char>,
    UserView,
> {
    if m.contains_key(u.email) {
        m
    } else {
        m.insert(u.email, u)
    }
}

/// What `get_user` returns when applied to the directory state `m`.
pub open spec fn spec_get(m: Map<Seq<char>, UserView>, k: Seq<char>) -> Result<
    UserView,
    UserStoreError,
> {
    if m.contains_key(k) {
        Ok(m[k])
    } else {
        Err(UserStoreError::UserNotFound)
    }
}

/// What `validate_user` returns when applied to the directory state `m`:
/// an absent key is `UserNotFound`, a present key with a credential other
/// than the stored one is `InvalidCredentials`, an exact match succeeds.
pub open spec fn spec_validate(
    m: Map<Seq<char>, UserView>,
    k: Seq<char>,
    p: Seq<char>,
) -> Result<(), UserStoreError> {
    if !m.contains_key(k) {
        Err(UserStoreError::UserNotFound)
    } else if m[k].password == p {
        Ok(())
    } else {
        Err(UserStoreError::InvalidCredentials)
    }
}

/// The record list as a mapping from email to record value, later records
/// shadowing earlier ones (the store never lets two records share an email,
/// so nothing is ever shadowed).
pub open spec fn map_of_users(s: Seq<User>) -> Map<Seq<char>, UserView>
    decreases s.len(),
{
    if s.len() == 0 {
        Map::empty()
    } else {
        map_of_users(s.drop_last()).insert(s.last()@.email, s.last()@)
    }
}

/// No two records in `s` share an email.
pub open spec fn unique_emails(s: Seq<User>) -> bool {
    forall|i: int, j: int|
        0 <= i < j < s.len() ==> s[i]@.email != s[j]@.email
}

/// The record value carried by an `Ok` result, so that contracts can relate
/// an executable `Result<User, _>` to the mathematical model.
pub open spec fn result_view(r: Result<User, UserStoreError>) -> Result<
    UserView,
    UserStoreError,
> {
    match r {
        Ok(u) => Ok(u@),
        Err(e) => Err(e),
    }
}

/// A key is in the mapping exactly when some record in the list carries it.
proof fn lemma_map_of_users_contains(s: Seq<User>, k: Seq<char>)
    ensures
        map_of_users(s).contains_key(k) <==> (exists|i: int|
            0 <= i < s.len() && s[i]@.email == k),
    decreases s.len(),
{
    if s.len() > 0 {
        lemma_map_of_users_contains(s.drop_last(), k);
        if s.last()@.email == k {
            assert(s[s.len() - 1]@.email == k);
        } else if map_of_users(s).contains_key(k) {
            let i = choose|i: int| 0 <= i < s.drop_last().len() && s.drop_last()[i]@.email == k;
            assert(s[i]@.email == k);
        } else {
            assert forall|i: int| 0 <= i < s.len() implies s[i]@.email != k by {
                if i < s.len() - 1 {
                    assert(s.drop_last()[i] == s[i]);
                }
            }
        }
    }
}

/// With unique emails, the mapping sends the email of record `i` to that
/// very record.
proof fn lemma_map_of_users_index(s: Seq<User>, k: Seq<char>, i: int)
    requires
        unique_emails(s),
        0 <= i < s.len(),
        s[i]@.email == k,
    ensures
        map_of_users(s).contains_key(k),
        map_of_users(s)[k] == s[i]@,
    decreases s.len(),
{
    if i == s.len() - 1 {
    } else {
        assert(s[i]@.email != s[s.len() - 1]@.email);
        assert(s.drop_last()[i] == s[i]);
        lemma_map_of_users_index(s.drop_last(), k, i);
    }
}

/// Appending a record inserts its email into the mapping.
proof fn lemma_map_of_users_push(s: Seq<User>, u: User)
    ensures
        map_of_users(s.push(u)) == map_of_users(s).insert(u@.email, u@),
{
    assert(s.push(u).drop_last() =~= s);
    assert(s.push(u).last() == u);
}

/// The authoritative in-memory store of identity records, indexed by email.
/// Its abstract value (the `View`) is a mapping from email to record; the
/// store maintains that at most one record exists per email.
pub struct HashmapUserStore {
    users: Vec<User>,
}

impl HashmapUserStore {
    #[verifier::type_invariant]
    spec fn wf(self) -> bool {
        unique_emails(self.users@)
    }
}

impl View for HashmapUserStore {
    type V = Map<Seq<char>, UserView>;

    closed spec fn view(&self) -> Map<Seq<char>, UserView> {
        map_of_users(self.users@)
    }
}

impl Default for HashmapUserStore {
    /// The store starts empty.
    fn default() -> (r: Self)
        ensures
            r@ == Map::<Seq<char>, UserView>::empty(),
    {
        HashmapUserStore { users: Vec::new() }
    }
}

impl HashmapUserStore {
    /// The index of the record carrying `email`, if any.
    fn find_index(&self, email: &str) -> (r: Option<usize>)
        ensures
            match r {
                Some(i) => i < self.users@.len() && self.users@[i as int]@.email == email@,
                None => forall|i: int|
                    0 <= i < self.users@.len() ==> self.users@[i]@.email != email@,
            },
    {
        let key: String = email.to_owned();
        let mut i: usize = 0;
        while i < self.users.len()
            invariant
                i <= self.users@.len(),
                key@ == email@,
                forall|j: int| 0 <= j < i ==> self.users@[j]@.email != email@,
            decreases self.users@.len() - i,
        {
            if self.users[i].email == key {
                return Some(i);
            }
            i += 1;
        }
        None
    }

    /// Inserts `user` under its email. Fails with `UserAlreadyExists` when a
    /// record with that email is already present, in which case the store is
    /// unchanged; otherwise the mapping grows by exactly this record.
    pub fn add_user(&mut self, user: User) -> (r: Result<(), UserStoreError>)
        ensures
            r == spec_add_result(old(self)@, user@),
            final(self)@ == spec_add_state(old(self)@, user@),
    {
        proof {
            use_type_invariant(&*self);
        }
        let result = self.get_user(user.email.as_str());
        match result {
            Ok(_) => Err(UserStoreError::UserAlreadyExists),
            Err(e) => {
                if e == UserStoreError::UserNotFound {
                    proof {
                        lemma_map_of_users_contains(self.users@, user@.email);
                    }
                    let mut users: Vec<User> = Vec::new();
                    core::mem::swap(&mut users, &mut self.users);
                    users.push(user);
                    proof {
                        assert(users@.drop_last() =~= old(self).users@);
                        lemma_map_of_users_push(old(self).users@, users@.last());
                        assert forall|a: int, b: int|
                            0 <= a < b < users@.len() implies users@[a]@.email
                            != users@[b]@.email by {
                            if b == users@.len() - 1 {
                                assert(users@[a] == old(self).users@[a]);
                            } else {
                                assert(users@[a] == old(self).users@[a]);
                                assert(users@[b] == old(self).users@[b]);
                            }
                        }
                    }
                    self.users = users;
                    Ok(())
                } else {
                    Err(e)
                }
            },
        }
    }

    /// A copy of the record stored under `email`, or `UserNotFound` when no
    /// record carries that email. The store itself is untouched.
    pub fn get_user(&self, email: &str) -> (r: Result<User, UserStoreError>)
        ensures
            result_view(r) == spec_get(self@, email@),
    {
        proof {
            use_type_invariant(&*self);
        }
        match self.find_index(email) {
            Some(i) => {
                proof {
                    lemma_map_of_users_index(self.users@, email@, i as int);
                }
                Ok(self.users[i].clone())
            },
            None => {
                proof {
                    lemma_map_of_users_contains(self.users@, email@);
                }
                Err(UserStoreError::UserNotFound)
            },
        }
    }

    /// Compares `password` with the credential stored under `email`: absent
    /// key is `UserNotFound`, mismatch is `InvalidCredentials`, exact match
    /// succeeds. The store itself is untouched.
    pub fn validate_user(&self, email: &str, password: &str) -> (r: Result<(), UserStoreError>)
        ensures
            r == spec_validate(self@, email@, password@),
    {
        proof {
            use_type_invariant(&*self);
        }
        match self.find_index(email) {
            Some(i) => {
                proof {
                    lemma_map_of_users_index(self.users@, email@, i as int);
                }
                let candidate: String = password.to_owned();
                let stored = &self.users[i];
                if stored.password == candidate {
                    Ok(())
                } else {
                    Err(UserStoreError::InvalidCredentials)
                }
            },
            None => {
                proof {
                    lemma_map_of_users_contains(self.users@, email@);
                }
                Err(UserStoreError::UserNotFound)
            },
        }
    }
}

} // verus!
