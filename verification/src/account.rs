//! The account table: store-assigned numeric ids, unique usernames.
//!
//! `AccountStore` is the relational account table as verified state: a row
//! per account, the id assigned on creation, and usernames unique across all
//! live accounts. `create` is atomic — of any serialized run of creates with
//! the same username, exactly the first succeeds.

use vstd::prelude::*;

verus! {

/// A user's data.
#[derive(Debug)]
pub struct User {
    /// A user's id, assigned by the store on creation
    pub id: u64,
    /// A user name. Mostly used for authentication
    pub username: String,
    /// A (non plaintext) password hash
    pub password: String,
}

/// The mathematical image of one stored account.
pub struct UserModel {
    /// The store-assigned id
    pub id: u64,
    /// The account's username
    pub username: Seq<char>,
    /// The account's stored password hash
    pub password: Seq<char>,
}

impl View for User {
    type V = UserModel;

    open spec fn view(&self) -> UserModel {
        UserModel { id: self.id, username: self.username@, password: self.password@ }
    }
}

impl Clone for User {
    fn clone(&self) -> (r: Self)
        ensures
            r == *self,
    {
        User {
            id: self.id,
            username: self.username.clone(),
            password: self.password.clone(),
        }
    }
}

/// Some account in `m` carries the username `name`.
pub open spec fn taken(m: Seq<UserModel>, name: Seq<char>) -> bool {
    exists|i: int| 0 <= i < m.len() && m[i].username == name
}

/// Some account in `m` carries the id `id`.
pub open spec fn has_id(m: Seq<UserModel>, id: u64) -> bool {
    exists|i: int| 0 <= i < m.len() && m[i].id == id
}

/// The account table's invariant over its model: each account's id is its
/// row index (so ids are unique and stable — there is no delete path), and
/// usernames are pairwise distinct.
pub open spec fn accounts_wf(m: Seq<UserModel>) -> bool {
    &&& forall|i: int| 0 <= i < m.len() ==> (#[trigger] m[i].id) == i
    &&& forall|i: int, j: int|
        0 <= i < j < m.len() ==> (#[trigger] m[i].username) != (#[trigger] m[j].username)
}

/// Relational table of accounts.
pub struct AccountStore {
    accounts: Vec<User>,
}

impl View for AccountStore {
    type V = Seq<UserModel>;

    closed spec fn view(&self) -> Seq<UserModel> {
        self.accounts@.map_values(|u: User| u@)
    }
}

impl AccountStore {
    /// The store is well formed.
    pub open spec fn inv(&self) -> bool {
        accounts_wf(self@)
    }

    /// An empty account table.
    pub fn new() -> (r: Self)
        ensures
            r.inv(),
            r@ == Seq::<UserModel>::empty(),
    {
        let r = AccountStore { accounts: Vec::new() };
        proof {
            assert(r@ =~= Seq::<UserModel>::empty());
        }
        r
    }

    /// Creates an account with a fresh id, unless the username is taken.
    ///
    /// A race between two concurrent creates with the same username is
    /// serialized by the backing row-level atomicity this type models:
    /// exactly one call sees the name free.
    pub fn create(&mut self, username: &str, password_hash: String) -> (r: Option<User>)
        requires
            old(self).inv(),
        ensures
            final(self).inv(),
            taken(old(self)@, username@) ==> r is None && final(self)@ == old(self)@,
            !taken(old(self)@, username@) ==> (r matches Some(u)
                && u@.username == username@
                && u@.password == password_hash@
                && u@.id == old(self)@.len()
                && final(self)@ == old(self)@.push(u@)),
    {
        if self.username_taken(username) {
            return None;
        }
        let id: u64 = self.accounts.len() as u64;
        let user = User { id, username: username.to_owned(), password: password_hash };
        let copy = user.clone();
        self.accounts.push(user);
        proof {
            assert(self@ =~= old(self)@.push(copy@));
        }
        Some(copy)
    }

    /// Looks an account up by its username.
    pub fn find_by_username(&self, username: &str) -> (r: Option<User>)
        requires
            self.inv(),
        ensures
            match r {
                Some(u) => self@.contains(u@) && u@.username == username@,
                None => !taken(self@, username@),
            },
    {
        let n = self.accounts.len();
        let mut i: usize = 0;
        while i < n
            invariant
                n == self.accounts.len(),
                0 <= i <= n,
                forall|j: int| 0 <= j < i ==> (#[trigger] self@[j].username) != username@,
            decreases n - i,
        {
            if str_eq(self.accounts[i].username.as_str(), username) {
                let u = self.accounts[i].clone();
                proof {
                    assert(self@.contains(u@)) by {
                        assert(self@[i as int] == u@);
                    }
                }
                return Some(u);
            }
            i += 1;
        }
        None
    }

    /// Looks an account up by its store-assigned id.
    pub fn find_by_id(&self, id: u64) -> (r: Option<User>)
        requires
            self.inv(),
        ensures
            match r {
                Some(u) => self@.contains(u@) && u@.id == id,
                None => !has_id(self@, id),
            },
    {
        if id < self.accounts.len() as u64 {
            let u = self.accounts[id as usize].clone();
            proof {
                assert(self@[id as int] == u@);
            }
            Some(u)
        } else {
            proof {
                assert forall|i: int| 0 <= i < self@.len() implies (#[trigger] self@[i].id) != id
                by {
                    assert(self@[i].id == i);
                }
            }
            None
        }
    }

    /// The fast-path uniqueness probe: whether the username is taken.
    pub fn username_taken(&self, username: &str) -> (r: bool)
        requires
            self.inv(),
        ensures
            r == taken(self@, username@),
    {
        self.find_by_username(username).is_some()
    }
}

/// Equality of two string slices, by their character sequences.
fn str_eq(a: &str, b: &str) -> (r: bool)
    ensures
        r == (a@ == b@),
{
    let a_owned: String = a.to_owned();
    let b_owned: String = b.to_owned();
    a_owned == b_owned
}

/// Appending an account keeps every already-taken username taken: a
/// username, once claimed, stays claimed under any further creates.
pub proof fn lemma_taken_persists(m: Seq<UserModel>, u: UserModel, name: Seq<char>)
    requires
        taken(m, name),
    ensures
        taken(m.push(u), name),
{
    let i = choose|i: int| 0 <= i < m.len() && m[i].username == name;
    assert(m.push(u)[i].username == name);
}

/// The account just appended makes its own username taken. Together with
/// `lemma_taken_persists` and `create`'s contract, of N serialized
/// same-username creates against a store where the name is free, exactly
/// the first returns an account and every later one is refused.
pub proof fn lemma_added_makes_taken(m: Seq<UserModel>, u: UserModel)
    ensures
        taken(m.push(u), u.username),
{
    assert(m.push(u)[m.len() as int].username == u.username);
}

} // verus!
