//! The central state: sign-up and login over the account table.
//!
//! One request moves through a closed set of named outcomes — validation
//! failures fall out before any storage work, and every branch yields a
//! variant, never a panic.

use vstd::prelude::*;

use crate::account::AccountStore;
use crate::account::User;
use crate::account::UserModel;
use crate::account::taken;
use crate::auth::MAX_HASH_INPUT;
use crate::auth::hash_password;
use crate::auth::verify_of;
use crate::auth::verify_password;
use crate::validate::Validated;
use crate::validate::ValidationRules;

verus! {

/// The result of adding a user.
#[derive(Debug)]
pub enum SignUpAction {
    /// user added successfully
    UserAdded(User),
    /// username was taken
    UsernameTaken,
    /// given password was invalid
    InvalidPassword,
    /// given username was invalid
    InvalidName,
}

/// The result of logging in a user.
#[derive(Debug)]
pub enum LoginAction {
    /// logged in, carrying the account's id
    LoggedIn(u64),
    /// Username not found
    UsernameNotFound,
    /// given password was incorrect
    IncorrectPassword,
    /// the stored hash did not parse: a server-side data-integrity fault
    HashError,
}

/// The central state.
pub struct Context {
    database: AccountStore,
    rules: ValidationRules,
}

/// The stored credential is a product of the hasher — some password
/// verifies against it — never user-supplied raw text.
pub open spec fn from_hasher(u: UserModel) -> bool {
    exists|p: Seq<char>| verify_of(p, u.password) == Some(true)
}

/// Every stored credential is a product of the hasher.
pub open spec fn hashed_only(m: Seq<UserModel>) -> bool {
    forall|i: int| 0 <= i < m.len() ==> from_hasher(#[trigger] m[i])
}

impl Context {
    /// The accounts the context holds.
    pub closed spec fn accounts(&self) -> Seq<UserModel> {
        self.database@
    }

    /// The validation rules the context was built with.
    pub closed spec fn rules_spec(&self) -> ValidationRules {
        self.rules
    }

    /// The context is well formed: its account table is, every stored
    /// credential came out of the hasher, and the password ceiling stays
    /// within what the hasher accepts.
    pub closed spec fn inv(&self) -> bool {
        self.database.inv() && hashed_only(self.database@) && self.rules.pass_max
            <= MAX_HASH_INPUT
    }

    /// Creates a new context with an empty account table.
    ///
    /// The bound on `pass_max` is the hasher's input ceiling: passwords the
    /// rules admit must be hashable.
    pub fn new(rules: ValidationRules) -> (r: Self)
        requires
            rules.pass_max <= MAX_HASH_INPUT,
        ensures
            r.inv(),
            r.accounts() == Seq::<UserModel>::empty(),
            r.rules_spec() == rules,
    {
        Context { database: AccountStore::new(), rules }
    }

    /// Tries to sign up a user: validates the shape, hashes the password,
    /// and creates the account unless the username is taken.
    pub fn sign_up(&mut self, username: &str, password: &str) -> (r: SignUpAction)
        requires
            old(self).inv(),
        ensures
            final(self).inv(),
            final(self).rules_spec() == old(self).rules_spec(),
            old(self).rules_spec().validate_spec(username, password) == Validated::InvalidName
                ==> (r matches SignUpAction::InvalidName
                && final(self).accounts() == old(self).accounts()),
            old(self).rules_spec().validate_spec(username, password) == Validated::InvalidPass
                ==> (r matches SignUpAction::InvalidPassword
                && final(self).accounts() == old(self).accounts()),
            old(self).rules_spec().validate_spec(username, password) == Validated::Valid
                && taken(old(self).accounts(), username@)
                ==> (r matches SignUpAction::UsernameTaken
                && final(self).accounts() == old(self).accounts()),
            old(self).rules_spec().validate_spec(username, password) == Validated::Valid
                && !taken(old(self).accounts(), username@)
                ==> (r matches SignUpAction::UserAdded(u)
                && u@.username == username@
                && u@.id == old(self).accounts().len()
                && verify_of(password@, u@.password) == Some(true)
                && final(self).accounts() == old(self).accounts().push(u@)),
    {
        match self.rules.validate(username, password) {
            Validated::InvalidName => SignUpAction::InvalidName,
            Validated::InvalidPass => SignUpAction::InvalidPassword,
            Validated::Valid => {
                let hash = hash_password(password);
                match self.database.create(username, hash) {
                    Some(user) => {
                        proof {
                            assert forall|i: int|
                                0 <= i < self.database@.len() implies from_hasher(
                                #[trigger] self.database@[i],
                            ) by {
                                if i == old(self).database@.len() {
                                    assert(verify_of(password@, self.database@[i].password)
                                        == Some(true));
                                }
                            }
                        }
                        SignUpAction::UserAdded(user)
                    },
                    None => SignUpAction::UsernameTaken,
                }
            },
        }
    }

    /// Tries to log in with the given username and password. Malformed
    /// input is rejected before any lookup, with the same outcomes a
    /// fruitless search or a failed check would give. An absent username
    /// short-circuits before the password check runs — a deliberate choice
    /// of simplicity over timing uniformity.
    pub fn login(&self, username: &str, password: &str) -> (r: LoginAction)
        requires
            self.inv(),
        ensures
            self.rules_spec().validate_spec(username, password) == Validated::InvalidName
                ==> r matches LoginAction::UsernameNotFound,
            self.rules_spec().validate_spec(username, password) == Validated::InvalidPass
                ==> r matches LoginAction::IncorrectPassword,
            self.rules_spec().validate_spec(username, password) == Validated::Valid
                && !taken(self.accounts(), username@)
                ==> r matches LoginAction::UsernameNotFound,
            self.rules_spec().validate_spec(username, password) == Validated::Valid
                ==> forall|i: int|
                0 <= i < self.accounts().len() && (#[trigger] self.accounts()[i].username)
                    == username@ ==> r == (match verify_of(password@, self.accounts()[i].password) {
                    Some(true) => LoginAction::LoggedIn(self.accounts()[i].id),
                    Some(false) => LoginAction::IncorrectPassword,
                    None => LoginAction::HashError,
                }),
    {
        match self.rules.validate(username, password) {
            Validated::InvalidName => LoginAction::UsernameNotFound,
            Validated::InvalidPass => LoginAction::IncorrectPassword,
            Validated::Valid => {
                match self.database.find_by_username(username) {
                    None => LoginAction::UsernameNotFound,
                    Some(user) => {
                        proof {
                            let m = self.accounts();
                            let j = choose|j: int|
                                0 <= j < m.len() && m[j] == user@;
                            assert forall|i: int|
                                0 <= i < m.len() && (#[trigger] m[i].username) == username@
                                implies m[i] == user@ by {
                                if i != j {
                                    assert(m[i].username != m[j].username);
                                }
                            }
                        }
                        match verify_password(password, user.password.as_str()) {
                            Some(true) => LoginAction::LoggedIn(user.id),
                            Some(false) => LoginAction::IncorrectPassword,
                            None => LoginAction::HashError,
                        }
                    },
                }
            },
        }
    }

    /// Tries to get a user by their username.
    pub fn get_user(&self, username: &str) -> (r: Option<User>)
        requires
            self.inv(),
        ensures
            match r {
                Some(u) => self.accounts().contains(u@) && u@.username == username@,
                None => !taken(self.accounts(), username@),
            },
    {
        self.database.find_by_username(username)
    }
}

} // verus!
