//! An in-memory model of the user store the account flows run against: a
//! sequence of account records with unique emails and unique usernames, and
//! the lookup and upsert operations the flows consume.

use vstd::prelude::*;

use vstd::pervasive::VecAdditionalExecFns;

use crate::codec::str_eq;

verus! {

/// A stored account record.
#[derive(Debug)]
pub struct User {
    pub email: String,
    pub username: String,
    pub password: String,
    pub is_verify: bool,
    pub created_at: u64,
    pub updated_at: Option<u64>,
}

/// The mathematical content of a stored record.
pub struct UserView {
    pub email: Seq<char>,
    pub username: Seq<char>,
    pub password: Seq<char>,
    pub is_verify: bool,
    pub created_at: u64,
    pub updated_at: Option<u64>,
}

impl View for User {
    type V = UserView;

    open spec fn view(&self) -> UserView {
        UserView {
            email: self.email@,
            username: self.username@,
            password: self.password@,
            is_verify: self.is_verify,
            created_at: self.created_at,
            updated_at: self.updated_at,
        }
    }
}

impl User {
    /// A field-for-field copy.
    pub fn duplicate(&self) -> (r: User)
        ensures
            r@ == self@,
    {
        User {
            email: self.email.clone(),
            username: self.username.clone(),
            password: self.password.clone(),
            is_verify: self.is_verify,
            created_at: self.created_at,
            updated_at: self.updated_at,
        }
    }
}

/// A record to insert: a fresh account starts without an update stamp.
#[derive(Debug)]
pub struct NewUser {
    pub email: String,
    pub username: String,
    pub password: String,
    pub is_verify: bool,
    pub created_at: u64,
}

/// The stored record an insertion produces.
pub open spec fn inserted_user(
    email: Seq<char>,
    username: Seq<char>,
    password: Seq<char>,
    is_verify: bool,
    created_at: u64,
) -> UserView {
    UserView { email, username, password, is_verify, created_at, updated_at: None }
}

/// A verification-status update for the account with the given email.
#[derive(Debug)]
pub struct UpdateUserEmailVerify {
    pub is_verify: bool,
    pub updated_at: Option<u64>,
    pub email: String,
}

/// A password update for the account with the given email.
#[derive(Debug)]
pub struct PasswordChange {
    pub email: String,
    pub password: String,
    pub updated_at: Option<u64>,
}

/// Why a store operation failed.
#[derive(Clone, Copy, Debug, PartialEq, Eq, Structural)]
pub enum QueryError {
    Duplicate,
    RowNotFound,
}

/// Whether some record carries this email.
pub open spec fn has_email(s: Seq<UserView>, email: Seq<char>) -> bool {
    exists|i: int| 0 <= i < s.len() && s[i].email == email
}

/// Whether some record carries this username.
pub open spec fn has_username(s: Seq<UserView>, username: Seq<char>) -> bool {
    exists|i: int| 0 <= i < s.len() && s[i].username == username
}

/// The store's invariant: emails and usernames are unique keys.
pub open spec fn wf_store(s: Seq<UserView>) -> bool {
    forall|i: int, j: int|
        0 <= i < j < s.len() ==> s[i].email != s[j].email && s[i].username != s[j].username
}

/// The user store: account records with unique emails and usernames.
pub struct UserStore {
    users: Vec<User>,
}

impl View for UserStore {
    type V = Seq<UserView>;

    closed spec fn view(&self) -> Seq<UserView> {
        self.users@.map_values(|u: User| u@)
    }
}

impl UserStore {
    /// An empty store.
    pub fn new() -> (r: UserStore)
        ensures
            r@ == Seq::<UserView>::empty(),
            wf_store(r@),
    {
        let r = UserStore { users: Vec::new() };
        proof {
            assert(r@ =~= Seq::<UserView>::empty());
        }
        r
    }

    /// How many accounts the store holds.
    pub fn len(&self) -> (r: usize)
        ensures
            r == self@.len(),
    {
        self.users.len()
    }

    /// The index of the record with this email, if one exists.
    fn find_by_email(&self, email: &str) -> (r: Option<usize>)
        ensures
            match r {
                Some(i) => i < self@.len() && self@[i as int].email == email@,
                None => !has_email(self@, email@),
            },
    {
        let n = self.users.len();
        let mut i: usize = 0;
        while i < n
            invariant
                0 <= i <= n,
                n == self.users.len(),
                self@.len() == n,
                forall|k: int| 0 <= k < i ==> self@[k].email != email@,
            decreases n - i,
        {
            assert(self@[i as int] == self.users@[i as int]@);
            if str_eq(self.users[i].email.as_str(), email) {
                return Some(i);
            }
            i += 1;
        }
        None
    }

    /// The index of the record with this username, if one exists.
    fn find_by_username(&self, username: &str) -> (r: Option<usize>)
        ensures
            match r {
                Some(i) => i < self@.len() && self@[i as int].username == username@,
                None => !has_username(self@, username@),
            },
    {
        let n = self.users.len();
        let mut i: usize = 0;
        while i < n
            invariant
                0 <= i <= n,
                n == self.users.len(),
                self@.len() == n,
                forall|k: int| 0 <= k < i ==> self@[k].username != username@,
            decreases n - i,
        {
            assert(self@[i as int] == self.users@[i as int]@);
            if str_eq(self.users[i].username.as_str(), username) {
                return Some(i);
            }
            i += 1;
        }
        None
    }
}

/// Whether an account with this email exists.
pub fn check_email(store: &UserStore, email: &str) -> (r: bool)
    ensures
        r == has_email(store@, email@),
{
    store.find_by_email(email).is_some()
}

/// Whether an account with this username exists.
pub fn check_username(store: &UserStore, username: &str) -> (r: bool)
    ensures
        r == has_username(store@, username@),
{
    store.find_by_username(username).is_some()
}

/// The account with this email.
pub fn get_user(store: &UserStore, email: &str) -> (r: Result<User, QueryError>)
    ensures
        match r {
            Ok(u) => u@.email == email@ && exists|i: int|
                0 <= i < store@.len() && store@[i] == u@,
            Err(e) => e == QueryError::RowNotFound && !has_email(store@, email@),
        },
        has_email(store@, email@) ==> r is Ok,
{
    match store.find_by_email(email) {
        Some(i) => Ok(store.users[i].duplicate()),
        None => Err(QueryError::RowNotFound),
    }
}

/// Inserts a fresh account. Either key already present is a `Duplicate` and
/// leaves the store unchanged; otherwise the record is appended, unverified
/// records and all.
pub fn query_new_user(store: &mut UserStore, user: NewUser) -> (r: Result<(), QueryError>)
    requires
        wf_store(old(store)@),
    ensures
        wf_store(final(store)@),
        has_email(old(store)@, user.email@) || has_username(old(store)@, user.username@) ==> r
            == Err::<(), QueryError>(QueryError::Duplicate) && final(store)@ == old(store)@,
        !has_email(old(store)@, user.email@) && !has_username(old(store)@, user.username@) ==> r
            is Ok && final(store)@ == old(store)@.push(
            inserted_user(user.email@, user.username@, user.password@, user.is_verify, user.created_at),
        ),
{
    if store.find_by_email(user.email.as_str()).is_some() {
        return Err(QueryError::Duplicate);
    }
    if store.find_by_username(user.username.as_str()).is_some() {
        return Err(QueryError::Duplicate);
    }
    let ghost before = store@;
    let ghost inserted = inserted_user(
        user.email@,
        user.username@,
        user.password@,
        user.is_verify,
        user.created_at,
    );
    let record = User {
        email: user.email,
        username: user.username,
        password: user.password,
        is_verify: user.is_verify,
        created_at: user.created_at,
        updated_at: None,
    };
    store.users.push(record);
    proof {
        assert(store@ =~= before.push(inserted));
    }
    Ok(())
}

/// Sets the verification flag and update stamp of the account with the given
/// email, leaving every other record and every other field unchanged.
pub fn query_update_user(store: &mut UserStore, up: UpdateUserEmailVerify) -> (r: Result<
    (),
    QueryError,
>)
    requires
        wf_store(old(store)@),
    ensures
        wf_store(final(store)@),
        !has_email(old(store)@, up.email@) ==> r == Err::<(), QueryError>(QueryError::RowNotFound)
            && final(store)@ == old(store)@,
        has_email(old(store)@, up.email@) ==> r is Ok && exists|i: int|
            0 <= i < old(store)@.len() && old(store)@[i].email == up.email@ && final(store)@
                == old(store)@.update(
                i,
                UserView {
                    is_verify: up.is_verify,
                    updated_at: up.updated_at,
                    ..old(store)@[i]
                },
            ),
{
    let i = match store.find_by_email(up.email.as_str()) {
        Some(i) => i,
        None => {
            return Err(QueryError::RowNotFound);
        },
    };
    let ghost before = store@;
    let old_user = store.users[i].duplicate();
    let record = User {
        email: old_user.email,
        username: old_user.username,
        password: old_user.password,
        is_verify: up.is_verify,
        created_at: old_user.created_at,
        updated_at: up.updated_at,
    };
    store.users.set(i, record);
    proof {
        assert(store@ =~= before.update(
            i as int,
            UserView { is_verify: up.is_verify, updated_at: up.updated_at, ..before[i as int] },
        ));
    }
    Ok(())
}

/// Replaces the stored password hash and update stamp of the account with the
/// given email, leaving every other record and every other field unchanged.
pub fn query_update_password(store: &mut UserStore, change: PasswordChange) -> (r: Result<
    (),
    QueryError,
>)
    requires
        wf_store(old(store)@),
    ensures
        wf_store(final(store)@),
        !has_email(old(store)@, change.email@) ==> r == Err::<(), QueryError>(
            QueryError::RowNotFound,
        ) && final(store)@ == old(store)@,
        has_email(old(store)@, change.email@) ==> r is Ok && exists|i: int|
            0 <= i < old(store)@.len() && old(store)@[i].email == change.email@ && final(store)@
                == old(store)@.update(
                i,
                UserView {
                    password: change.password@,
                    updated_at: change.updated_at,
                    ..old(store)@[i]
                },
            ),
{
    let i = match store.find_by_email(change.email.as_str()) {
        Some(i) => i,
        None => {
            return Err(QueryError::RowNotFound);
        },
    };
    let ghost before = store@;
    let ghost updated = UserView {
        password: change.password@,
        updated_at: change.updated_at,
        ..store@[i as int]
    };
    let old_user = store.users[i].duplicate();
    let record = User {
        email: old_user.email,
        username: old_user.username,
        password: change.password,
        is_verify: old_user.is_verify,
        created_at: old_user.created_at,
        updated_at: change.updated_at,
    };
    store.users.set(i, record);
    proof {
        assert(store@ =~= before.update(i as int, updated));
    }
    Ok(())
}

} // verus!
