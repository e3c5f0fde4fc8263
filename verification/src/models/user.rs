//! An account: who it is, what it may do, and which books it holds.

use crate::constants::MAX_BORROWED_BOOKS;
use crate::oid::ObjectId;
use vstd::prelude::*;

verus! {

/// An account as a plain value.
pub struct UserView {
    pub id: ObjectId,
    pub email: Seq<char>,
    pub username: Seq<char>,
    pub password_hash: Seq<char>,
    pub is_admin: bool,
    pub token_version: int,
    pub borrowed: Seq<ObjectId>,
}

impl UserView {
    pub open spec fn with_borrowed(self, borrowed: Seq<ObjectId>) -> UserView {
        UserView { borrowed, ..self }
    }

    pub open spec fn with_token_version(self, token_version: int) -> UserView {
        UserView { token_version, ..self }
    }

    pub open spec fn with_admin(self, is_admin: bool) -> UserView {
        UserView { is_admin, ..self }
    }

    pub open spec fn with_email(self, email: Seq<char>) -> UserView {
        UserView { email, ..self }
    }

    pub open spec fn with_username(self, username: Seq<char>) -> UserView {
        UserView { username, ..self }
    }

    pub open spec fn with_password_hash(self, password_hash: Seq<char>) -> UserView {
        UserView { password_hash, ..self }
    }
}

/// A list of loans is valid when no book occurs twice in it and it holds at
/// most eight books.
pub open spec fn loans_wf(borrowed: Seq<ObjectId>) -> bool {
    &&& borrowed.no_duplicates()
    &&& borrowed.len() <= MAX_BORROWED_BOOKS
}

/// An account is valid when its list of loans is valid and its token
/// version, which starts at zero and only grows, is not negative.
pub open spec fn account_wf(user: UserView) -> bool {
    &&& loans_wf(user.borrowed)
    &&& 0 <= user.token_version
}

/// An account. It is always valid.
#[derive(Debug, PartialEq, Eq)]
pub struct User {
    id: ObjectId,
    email: String,
    username: String,
    password_hash: String,
    is_admin: bool,
    token_version: i32,
    borrowed_books: Vec<ObjectId>,
}

impl View for User {
    type V = UserView;

    closed spec fn view(&self) -> UserView {
        UserView {
            id: self.id,
            email: self.email@,
            username: self.username@,
            password_hash: self.password_hash@,
            is_admin: self.is_admin,
            token_version: self.token_version as int,
            borrowed: self.borrowed_books@,
        }
    }
}

/// A copy of a list of identifiers.
pub fn copy_ids(ids: &Vec<ObjectId>) -> (r: Vec<ObjectId>)
    ensures
        r@ == ids@,
{
    let mut out: Vec<ObjectId> = Vec::new();
    let mut i: usize = 0;
    while i < ids.len()
        invariant
            i <= ids.len(),
            out@ == ids@.take(i as int),
        decreases ids.len() - i,
    {
        out.push(ids[i]);
        proof {
            assert(ids@.take(i as int).push(ids@[i as int]) =~= ids@.take(i + 1));
        }
        i += 1;
    }
    proof {
        assert(ids@.take(ids.len() as int) =~= ids@);
    }
    out
}

/// Whether a list of loans is valid.
pub fn valid_loans(ids: &Vec<ObjectId>) -> (r: bool)
    ensures
        r == loans_wf(ids@),
{
    if ids.len() > MAX_BORROWED_BOOKS {
        return false;
    }
    let mut i: usize = 0;
    while i < ids.len()
        invariant
            i <= ids.len(),
            ids.len() <= MAX_BORROWED_BOOKS,
            forall|a: int, b: int| 0 <= a < b < i ==> ids@[a] != ids@[b],
        decreases ids.len() - i,
    {
        let mut j: usize = 0;
        while j < i
            invariant
                j <= i,
                i < ids.len(),
                forall|a: int| 0 <= a < j ==> ids@[a] != ids@[i as int],
            decreases i - j,
        {
            if ids[j].same_as(&ids[i]) {
                return false;
            }
            j += 1;
        }
        i += 1;
    }
    true
}

impl User {
    #[verifier::type_invariant]
    pub open spec fn inv(&self) -> bool {
        account_wf(self@)
    }

    /// A new account: it holds no book and its token version is zero.
    pub fn new(id: ObjectId, email: String, username: String, password_hash: String, is_admin: bool) -> (r: User)
        ensures
            r@ == (UserView {
                id,
                email: email@,
                username: username@,
                password_hash: password_hash@,
                is_admin,
                token_version: 0,
                borrowed: Seq::empty(),
            }),
    {
        User { id, email, username, password_hash, is_admin, token_version: 0, borrowed_books: Vec::new() }
    }

    /// An account from all its parts, for code that keeps the list valid.
    pub(crate) fn assemble(
        id: ObjectId,
        email: String,
        username: String,
        password_hash: String,
        is_admin: bool,
        token_version: i32,
        borrowed_books: Vec<ObjectId>,
    ) -> (r: User)
        requires
            loans_wf(borrowed_books@),
            0 <= token_version,
        ensures
            r@ == (UserView {
                id,
                email: email@,
                username: username@,
                password_hash: password_hash@,
                is_admin,
                token_version: token_version as int,
                borrowed: borrowed_books@,
            }),
    {
        User { id, email, username, password_hash, is_admin, token_version, borrowed_books }
    }

    /// An account from all its parts, as a stored record gives them: `Some`
    /// exactly when the list of loans is valid and the token version is not
    /// negative.
    pub fn from_parts(
        id: ObjectId,
        email: String,
        username: String,
        password_hash: String,
        is_admin: bool,
        token_version: i32,
        borrowed_books: Vec<ObjectId>,
    ) -> (r: Option<User>)
        ensures
            r is Some <==> loans_wf(borrowed_books@) && 0 <= token_version,
            r matches Some(user) ==> user@ == (UserView {
                id,
                email: email@,
                username: username@,
                password_hash: password_hash@,
                is_admin,
                token_version: token_version as int,
                borrowed: borrowed_books@,
            }),
    {
        if token_version >= 0 && valid_loans(&borrowed_books) {
            Some(User { id, email, username, password_hash, is_admin, token_version, borrowed_books })
        } else {
            None
        }
    }

    pub fn id(&self) -> (r: ObjectId)
        ensures
            r == self@.id,
    {
        self.id
    }

    pub fn email(&self) -> (r: &str)
        ensures
            r@ == self@.email,
    {
        self.email.as_str()
    }

    pub fn username(&self) -> (r: &str)
        ensures
            r@ == self@.username,
    {
        self.username.as_str()
    }

    pub fn password_hash(&self) -> (r: &str)
        ensures
            r@ == self@.password_hash,
    {
        self.password_hash.as_str()
    }

    pub fn is_admin(&self) -> (r: bool)
        ensures
            r == self@.is_admin,
    {
        self.is_admin
    }

    pub fn token_version(&self) -> (r: i32)
        ensures
            r == self@.token_version,
            0 <= r,
    {
        proof {
            use_type_invariant(self);
        }
        self.token_version
    }

    pub fn borrowed_books(&self) -> (r: &Vec<ObjectId>)
        ensures
            r@ == self@.borrowed,
            loans_wf(r@),
    {
        proof {
            use_type_invariant(self);
        }
        &self.borrowed_books
    }
}

impl Clone for User {
    fn clone(&self) -> (r: User)
        ensures
            r@ == self@,
    {
        proof {
            use_type_invariant(self);
        }
        User {
            id: self.id,
            email: self.email.clone(),
            username: self.username.clone(),
            password_hash: self.password_hash.clone(),
            is_admin: self.is_admin,
            token_version: self.token_version,
            borrowed_books: copy_ids(&self.borrowed_books),
        }
    }
}

} // verus!
