//! The accounts and their loan registry.

use crate::constants::{DUPLICATE_ID, NOT_BORROWED_BY_USER, USER_NOT_FOUND};
use crate::errors::{bad_request, internal, not_found, outcome, AppError, ErrorView};
use crate::models::user::{account_wf, copy_ids, loans_wf, User, UserView};
use crate::oid::ObjectId;
use crate::rules::{
    check_email_free, check_new_loan, check_version_step, free_email_verdict, loan_removal_outcome,
    new_loan_verdict, position_of, version_step_verdict, without_loan,
};
use vstd::prelude::*;

verus! {

/// The accounts are valid when no identifier and no email address occurs
/// twice among them and every account is valid.
pub open spec fn users_wf(users: Seq<UserView>) -> bool {
    &&& forall|i: int, j: int|
        0 <= i < j < users.len() ==> (#[trigger] users[i]).id != (#[trigger] users[j]).id
    &&& forall|i: int, j: int|
        0 <= i < j < users.len() ==> (#[trigger] users[i]).email != (#[trigger] users[j]).email
    &&& forall|i: int| 0 <= i < users.len() ==> account_wf(#[trigger] users[i])
}

/// Whether some account has this email address.
pub open spec fn has_email(users: Seq<UserView>, email: Seq<char>) -> bool {
    exists|i: int| 0 <= i < users.len() && (#[trigger] users[i]).email == email
}

/// Whether an account other than the given one has this email address.
pub open spec fn email_taken_by_other(users: Seq<UserView>, id: ObjectId, email: Seq<char>) -> bool {
    exists|i: int| 0 <= i < users.len() && (#[trigger] users[i]).email == email && users[i].id != id
}

pub open spec fn has_user(users: Seq<UserView>, id: ObjectId) -> bool {
    exists|i: int| 0 <= i < users.len() && (#[trigger] users[i]).id == id
}

/// The place of the account with this identifier, where there is one.
pub open spec fn user_position(users: Seq<UserView>, id: ObjectId) -> int {
    choose|i: int| 0 <= i < users.len() && (#[trigger] users[i]).id == id
}

pub open spec fn find_user(users: Seq<UserView>, id: ObjectId) -> Option<UserView> {
    if has_user(users, id) {
        Some(users[user_position(users, id)])
    } else {
        None
    }
}

/// Whether the account holds the book.
pub open spec fn holds(users: Seq<UserView>, user: ObjectId, book: ObjectId) -> bool {
    find_user(users, user) matches Some(u) && u.borrowed.contains(book)
}

/// The accounts with one of them replaced; unchanged where it is absent.
pub open spec fn replace_user(users: Seq<UserView>, id: ObjectId, user: UserView) -> Seq<UserView> {
    if has_user(users, id) {
        users.update(user_position(users, id), user)
    } else {
        users
    }
}

/// The accounts without one of them; unchanged where it is absent.
pub open spec fn without_user(users: Seq<UserView>, id: ObjectId) -> Seq<UserView> {
    if has_user(users, id) {
        users.remove(user_position(users, id))
    } else {
        users
    }
}

pub open spec fn set_admin_flag(users: Seq<UserView>, id: ObjectId, is_admin: bool) -> Seq<UserView> {
    match find_user(users, id) {
        Some(u) => replace_user(users, id, u.with_admin(is_admin)),
        None => users,
    }
}

pub open spec fn set_email(users: Seq<UserView>, id: ObjectId, email: Seq<char>) -> Seq<UserView> {
    match find_user(users, id) {
        Some(u) => replace_user(users, id, u.with_email(email)),
        None => users,
    }
}

pub open spec fn set_username(users: Seq<UserView>, id: ObjectId, username: Seq<char>) -> Seq<UserView> {
    match find_user(users, id) {
        Some(u) => replace_user(users, id, u.with_username(username)),
        None => users,
    }
}

pub open spec fn set_password_hash(users: Seq<UserView>, id: ObjectId, password_hash: Seq<char>) -> Seq<
    UserView,
> {
    match find_user(users, id) {
        Some(u) => replace_user(users, id, u.with_password_hash(password_hash)),
        None => users,
    }
}

pub open spec fn set_token_version(users: Seq<UserView>, id: ObjectId, token_version: int) -> Seq<UserView> {
    match find_user(users, id) {
        Some(u) => replace_user(users, id, u.with_token_version(token_version)),
        None => users,
    }
}

/// The token version stored for an account, where there is one.
pub open spec fn token_version_of(users: Seq<UserView>, id: ObjectId) -> Option<int> {
    match find_user(users, id) {
        Some(u) => Some(u.token_version),
        None => None,
    }
}

/// What adding a loan answers: the account must exist, must not hold the
/// book already, and must hold fewer than eight books.
pub open spec fn add_loan_outcome(users: Seq<UserView>, user: ObjectId, book: ObjectId) -> Result<(), ErrorView> {
    match find_user(users, user) {
        Some(u) => new_loan_verdict(u.borrowed, book),
        None => Err(not_found(USER_NOT_FOUND@)),
    }
}

/// The registry after adding a loan: the book is appended to the account's
/// list where the answer is success, and nothing changes otherwise.
pub open spec fn registry_add(users: Seq<UserView>, user: ObjectId, book: ObjectId) -> Seq<UserView> {
    match find_user(users, user) {
        Some(u) => if add_loan_outcome(users, user, book) is Ok {
            replace_user(users, user, u.with_borrowed(u.borrowed.push(book)))
        } else {
            users
        },
        None => users,
    }
}

/// The registry after the guarded removal of a loan: the book leaves the
/// account's list where the account holds it, and nothing changes otherwise.
pub open spec fn registry_remove(users: Seq<UserView>, user: ObjectId, book: ObjectId) -> Seq<UserView> {
    match find_user(users, user) {
        Some(u) => if u.borrowed.contains(book) {
            replace_user(users, user, u.with_borrowed(without_loan(u.borrowed, book)))
        } else {
            users
        },
        None => users,
    }
}

/// What the guarded removal answers: success exactly when the account holds
/// the book.
pub open spec fn remove_loan_outcome(users: Seq<UserView>, user: ObjectId, book: ObjectId) -> Result<
    (),
    ErrorView,
> {
    if holds(users, user, book) {
        Ok(())
    } else {
        Err(bad_request(NOT_BORROWED_BY_USER@))
    }
}

pub open spec fn users_view(users: Seq<User>) -> Seq<UserView> {
    users.map_values(|u: User| u@)
}

/// In valid accounts an identifier names one place only.
pub proof fn lemma_user_position_unique(users: Seq<UserView>, i: int)
    requires
        users_wf(users),
        0 <= i < users.len(),
    ensures
        has_user(users, users[i].id),
        user_position(users, users[i].id) == i,
        find_user(users, users[i].id) == Some(users[i]),
{
    let j = user_position(users, users[i].id);
    assert(users[j].id == users[i].id);
    if i < j {
        assert(users[i].id != users[j].id);
    } else if j < i {
        assert(users[j].id != users[i].id);
    }
}

/// In valid accounts no account has the email address of another.
pub proof fn lemma_own_email_not_taken(users: Seq<UserView>, i: int)
    requires
        users_wf(users),
        0 <= i < users.len(),
    ensures
        !email_taken_by_other(users, users[i].id, users[i].email),
{
    if email_taken_by_other(users, users[i].id, users[i].email) {
        let k = choose|k: int| 0 <= k < users.len() && (#[trigger] users[k]).email == users[i].email && users[k].id != users[i].id;
        if k < i {
            assert(users[k].email != users[i].email);
        } else if i < k {
            assert(users[i].email != users[k].email);
        }
    }
}

/// Replacing an account by a valid one with the same identifier, and with an
/// email address that no other account has, keeps the accounts valid,
/// touches no other account, and the account is found again at its place.
pub proof fn lemma_replace_user_wf(users: Seq<UserView>, id: ObjectId, user: UserView)
    requires
        users_wf(users),
        user.id == id,
        account_wf(user),
        !email_taken_by_other(users, id, user.email),
    ensures
        users_wf(replace_user(users, id, user)),
        has_user(replace_user(users, id, user), id) == has_user(users, id),
        has_user(users, id) ==> find_user(replace_user(users, id, user), id) == Some(user),
        forall|other: ObjectId|
            other != id ==> find_user(replace_user(users, id, user), other) == find_user(users, other),
{
    let after = replace_user(users, id, user);
    if has_user(users, id) {
        let i = user_position(users, id);
        assert(after[i] == user);
        lemma_user_position_unique(users, i);
        assert forall|a: int, b: int| 0 <= a < b < after.len() implies (#[trigger] after[a]).id != (
        #[trigger] after[b]).id by {
            assert(users[a].id != users[b].id);
            assert(after[a].id == users[a].id);
            assert(after[b].id == users[b].id);
        }
        assert forall|a: int, b: int| 0 <= a < b < after.len() implies (#[trigger] after[a]).email != (
        #[trigger] after[b]).email by {
            assert(users[a].email != users[b].email);
            assert(users[a].id != users[b].id);
            if a == i {
                assert(users[b].id != id);
                assert(users[b].email != user.email);
            } else if b == i {
                assert(users[a].id != id);
                assert(users[a].email != user.email);
            }
        }
        assert forall|a: int| 0 <= a < after.len() implies account_wf(#[trigger] after[a]) by {
            if a != i {
                assert(after[a] == users[a]);
            }
        }
        lemma_user_position_unique(after, i);
        assert forall|other: ObjectId| other != id implies find_user(after, other) == find_user(users, other) by {
            if has_user(users, other) {
                let k = user_position(users, other);
                assert(k != i);
                assert(after[k] == users[k]);
                lemma_user_position_unique(after, k);
            } else if has_user(after, other) {
                let k = user_position(after, other);
                assert(after[k].id == other);
                assert(k != i);
                assert(users[k].id == other);
            }
        }
    } else {
        assert(after == users);
    }
}

/// What storing a new account answers: its email address must be free, and
/// so must its identifier.
pub open spec fn create_outcome(users: Seq<UserView>, user: UserView) -> Result<(), ErrorView> {
    if has_email(users, user.email) {
        free_email_verdict(true)
    } else if has_user(users, user.id) {
        Err(internal(DUPLICATE_ID@))
    } else {
        Ok(())
    }
}

/// What a change of email address answers: no other account may have the
/// new address.
pub open spec fn email_update_outcome(users: Seq<UserView>, id: ObjectId, email: Seq<char>) -> Result<(), ErrorView> {
    free_email_verdict(has_user(users, id) && email_taken_by_other(users, id, email))
}

/// What setting the token version answers: the version of an account never
/// goes back.
pub open spec fn token_version_outcome(users: Seq<UserView>, id: ObjectId, token_version: int) -> Result<
    (),
    ErrorView,
> {
    version_step_verdict(token_version_of(users, id), token_version)
}

/// The accounts in memory. They are always valid.
pub struct UserRepository {
    users: Vec<User>,
}

impl View for UserRepository {
    type V = Seq<UserView>;

    closed spec fn view(&self) -> Seq<UserView> {
        users_view(self.users@)
    }
}

impl UserRepository {
    #[verifier::type_invariant]
    pub open spec fn inv(&self) -> bool {
        users_wf(self@)
    }

    /// No accounts.
    pub fn new() -> (r: UserRepository)
        ensures
            r@ == Seq::<UserView>::empty(),
    {
        let users: Vec<User> = Vec::new();
        proof {
            assert(users_view(users@) =~= Seq::<UserView>::empty());
        }
        UserRepository { users }
    }

    /// How many accounts there are.
    pub fn len(&self) -> (r: usize)
        ensures
            r == self@.len(),
    {
        self.users.len()
    }

    fn position(&self, id: &ObjectId) -> (r: Option<usize>)
        ensures
            users_wf(self@),
            self@ == users_view(self.users@),
            r is Some <==> has_user(self@, *id),
            r matches Some(i) ==> i < self.users.len() && i == user_position(self@, *id)
                && find_user(self@, *id) == Some(self.users@[i as int]@) && !email_taken_by_other(
                self@,
                *id,
                self@[i as int].email,
            ),
    {
        proof {
            use_type_invariant(self);
        }
        let mut i: usize = 0;
        while i < self.users.len()
            invariant
                i <= self.users.len(),
                self@ == users_view(self.users@),
                users_wf(self@),
                forall|j: int| 0 <= j < i ==> (#[trigger] self@[j]).id != *id,
            decreases self.users.len() - i,
        {
            if self.users[i].id().same_as(id) {
                proof {
                    assert(self@[i as int].id == *id);
                    lemma_user_position_unique(self@, i as int);
                    lemma_own_email_not_taken(self@, i as int);
                }
                return Some(i);
            }
            i += 1;
        }
        None
    }

    /// Takes the records out, leaving no accounts behind.
    fn take(&mut self) -> (r: Vec<User>)
        ensures
            users_view(r@) == old(self)@,
            users_wf(old(self)@),
            final(self)@.len() == 0,
    {
        proof {
            use_type_invariant(&*self);
        }
        let mut users: Vec<User> = Vec::new();
        proof {
            assert(users_view(users@) =~= Seq::<UserView>::empty());
        }
        core::mem::swap(&mut self.users, &mut users);
        users
    }

    fn email_position(&self, email: &str) -> (r: Option<usize>)
        ensures
            users_wf(self@),
            self@ == users_view(self.users@),
            r is Some <==> has_email(self@, email@),
            r matches Some(i) ==> i < self.users.len() && self@[i as int].email == email@,
    {
        proof {
            use_type_invariant(self);
        }
        let wanted = email.to_owned();
        let mut i: usize = 0;
        while i < self.users.len()
            invariant
                i <= self.users.len(),
                wanted@ == email@,
                self@ == users_view(self.users@),
                users_wf(self@),
                forall|j: int| 0 <= j < i ==> (#[trigger] self@[j]).email != email@,
            decreases self.users.len() - i,
        {
            if self.users[i].email().to_owned().eq(&wanted) {
                proof {
                    assert(self@[i as int].email == email@);
                }
                return Some(i);
            }
            i += 1;
        }
        None
    }

    /// Puts one account in the place of the one with the same identifier.
    fn replace(&mut self, i: usize, user: User)
        requires
            i < old(self)@.len(),
            old(self)@[i as int].id == user@.id,
            !email_taken_by_other(old(self)@, user@.id, user@.email),
        ensures
            final(self)@ == replace_user(old(self)@, user@.id, user@),
            final(self)@ == old(self)@.update(i as int, user@),
    {
        proof {
            use_type_invariant(&user);
        }
        let mut users = self.take();
        proof {
            lemma_user_position_unique(old(self)@, i as int);
            lemma_replace_user_wf(old(self)@, user@.id, user@);
            assert(users_view(users@.update(i as int, user)) =~= old(self)@.update(i as int, user@));
        }
        users.set(i, user);
        self.users = users;
    }

    /// The account with this identifier, if there is one.
    pub fn find_by_id(&self, id: &ObjectId) -> (r: Result<Option<User>, AppError>)
        ensures
            r matches Ok(found) && match found {
                Some(u) => find_user(self@, *id) == Some(u@),
                None => find_user(self@, *id) is None,
            },
    {
        match self.position(id) {
            Some(i) => Ok(Some(self.users[i].clone())),
            None => Ok(None),
        }
    }

    /// The account with this email address, if there is one.
    pub fn find_by_email(&self, email: &str) -> (r: Result<Option<User>, AppError>)
        ensures
            r matches Ok(found) && match found {
                Some(u) => u@.email == email@ && find_user(self@, u@.id) == Some(u@),
                None => !has_email(self@, email@),
            },
    {
        match self.email_position(email) {
            Some(i) => {
                proof {
                    lemma_user_position_unique(self@, i as int);
                }
                Ok(Some(self.users[i].clone()))
            },
            None => Ok(None),
        }
    }

    /// Every account, in stored order.
    pub fn find_all(&self) -> (r: Result<Vec<User>, AppError>)
        ensures
            r matches Ok(all) && users_view(all@) == self@,
    {
        let mut out: Vec<User> = Vec::new();
        let mut i: usize = 0;
        while i < self.users.len()
            invariant
                i <= self.users.len(),
                users_view(out@) == users_view(self.users@).take(i as int),
            decreases self.users.len() - i,
        {
            let user = self.users[i].clone();
            proof {
                let all = users_view(self.users@);
                assert(user@ == all[i as int]);
                assert(users_view(out@.push(user)) =~= users_view(out@).push(user@));
                assert(all.take(i as int).push(all[i as int]) =~= all.take(i + 1));
            }
            out.push(user);
            i += 1;
        }
        proof {
            assert(users_view(self.users@).take(self.users.len() as int) =~= self@);
        }
        Ok(out)
    }

    /// Removes the account with this identifier, if there is one.
    pub fn delete_by_id(&mut self, id: &ObjectId) -> (r: Result<(), AppError>)
        ensures
            r is Ok,
            final(self)@ == without_user(old(self)@, *id),
    {
        match self.position(id) {
            Some(i) => {
                let mut users = self.take();
                proof {
                    let after = old(self)@.remove(i as int);
                    assert(users_view(users@.remove(i as int)) =~= after);
                    assert forall|a: int, b: int| 0 <= a < b < after.len() implies (#[trigger] after[a]).id != (
                    #[trigger] after[b]).id by {
                        let a0 = if a < i { a } else { a + 1 };
                        let b0 = if b < i { b } else { b + 1 };
                        assert(old(self)@[a0].id != old(self)@[b0].id);
                    }
                    assert forall|a: int, b: int| 0 <= a < b < after.len() implies (#[trigger] after[a]).email != (
                    #[trigger] after[b]).email by {
                        let a0 = if a < i { a } else { a + 1 };
                        let b0 = if b < i { b } else { b + 1 };
                        assert(old(self)@[a0].email != old(self)@[b0].email);
                    }
                    assert forall|a: int| 0 <= a < after.len() implies account_wf(#[trigger] after[a]) by {
                        let a0 = if a < i { a } else { a + 1 };
                        assert(account_wf(old(self)@[a0]));
                    }
                }
                users.remove(i);
                self.users = users;
            },
            None => {},
        }
        Ok(())
    }

    /// Stores a new account. An email address that is taken is a conflict,
    /// an identifier that is taken is a storage failure, and either changes
    /// nothing.
    pub fn create(&mut self, user: &User) -> (r: Result<(), AppError>)
        ensures
            outcome(r) == create_outcome(old(self)@, user@),
            final(self)@ == (if create_outcome(old(self)@, user@) is Ok {
                old(self)@.push(user@)
            } else {
                old(self)@
            }),
    {
        check_email_free(self.email_position(user.email()).is_some())?;
        if self.position(&user.id()).is_some() {
            return Err(AppError::internal(DUPLICATE_ID));
        }
        let copy = user.clone();
        proof {
            use_type_invariant(&copy);
        }
        let mut users = self.take();
        proof {
            let after = old(self)@.push(copy@);
            assert(users_view(users@.push(copy)) =~= after);
            assert forall|a: int, b: int| 0 <= a < b < after.len() implies (#[trigger] after[a]).id != (
            #[trigger] after[b]).id by {
                if b < old(self)@.len() {
                    assert(old(self)@[a].id != old(self)@[b].id);
                } else {
                    assert(old(self)@[a].id != user@.id);
                }
            }
            assert forall|a: int, b: int| 0 <= a < b < after.len() implies (#[trigger] after[a]).email != (
            #[trigger] after[b]).email by {
                if b < old(self)@.len() {
                    assert(old(self)@[a].email != old(self)@[b].email);
                } else {
                    assert(old(self)@[a].email != user@.email);
                }
            }
            assert forall|a: int| 0 <= a < after.len() implies account_wf(#[trigger] after[a]) by {
                if a < old(self)@.len() {
                    assert(account_wf(old(self)@[a]));
                }
            }
        }
        users.push(copy);
        self.users = users;
        Ok(())
    }

    /// Grants or withdraws the administrator role where the account exists.
    pub fn set_admin(&mut self, id: &ObjectId, is_admin: bool) -> (r: Result<(), AppError>)
        ensures
            r is Ok,
            final(self)@ == set_admin_flag(old(self)@, *id, is_admin),
    {
        match self.position(id) {
            Some(i) => {
                let u = &self.users[i];
                let updated = User::assemble(
                    u.id(),
                    u.email().to_owned(),
                    u.username().to_owned(),
                    u.password_hash().to_owned(),
                    is_admin,
                    u.token_version(),
                    copy_ids(u.borrowed_books()),
                );
                self.replace(i, updated);
            },
            None => {},
        }
        Ok(())
    }

    /// Sets the email address where the account exists. An address that
    /// another account has is a conflict and changes nothing.
    pub fn update_email(&mut self, id: &ObjectId, new_email: &str) -> (r: Result<(), AppError>)
        ensures
            outcome(r) == email_update_outcome(old(self)@, *id, new_email@),
            final(self)@ == (if email_update_outcome(old(self)@, *id, new_email@) is Ok {
                set_email(old(self)@, *id, new_email@)
            } else {
                old(self)@
            }),
    {
        match self.position(id) {
            Some(i) => {
                match self.email_position(new_email) {
                    Some(k) => {
                        proof {
                            lemma_user_position_unique(self@, k as int);
                            lemma_own_email_not_taken(self@, i as int);
                            assert(k != i ==> self@[k as int].id != *id);
                        }
                        check_email_free(k != i)?;
                    },
                    None => {
                        proof {
                            if email_taken_by_other(self@, *id, new_email@) {
                                let w = choose|w: int|
                                    0 <= w < self@.len() && (#[trigger] self@[w]).email == new_email@ && self@[w].id
                                        != *id;
                                assert(self@[w].email == new_email@);
                            }
                        }
                    },
                }
                let u = &self.users[i];
                let updated = User::assemble(
                    u.id(),
                    new_email.to_owned(),
                    u.username().to_owned(),
                    u.password_hash().to_owned(),
                    u.is_admin(),
                    u.token_version(),
                    copy_ids(u.borrowed_books()),
                );
                self.replace(i, updated);
            },
            None => {},
        }
        Ok(())
    }

    /// Sets the user name where the account exists.
    pub fn update_username(&mut self, id: &ObjectId, new_username: &str) -> (r: Result<(), AppError>)
        ensures
            r is Ok,
            final(self)@ == set_username(old(self)@, *id, new_username@),
    {
        match self.position(id) {
            Some(i) => {
                let u = &self.users[i];
                let updated = User::assemble(
                    u.id(),
                    u.email().to_owned(),
                    new_username.to_owned(),
                    u.password_hash().to_owned(),
                    u.is_admin(),
                    u.token_version(),
                    copy_ids(u.borrowed_books()),
                );
                self.replace(i, updated);
            },
            None => {},
        }
        Ok(())
    }

    /// Sets the password credential where the account exists.
    pub fn update_password(&mut self, id: &ObjectId, password_hash: &str) -> (r: Result<(), AppError>)
        ensures
            r is Ok,
            final(self)@ == set_password_hash(old(self)@, *id, password_hash@),
    {
        match self.position(id) {
            Some(i) => {
                let u = &self.users[i];
                let updated = User::assemble(
                    u.id(),
                    u.email().to_owned(),
                    u.username().to_owned(),
                    password_hash.to_owned(),
                    u.is_admin(),
                    u.token_version(),
                    copy_ids(u.borrowed_books()),
                );
                self.replace(i, updated);
            },
            None => {},
        }
        Ok(())
    }

    /// Sets the token version where the account exists. A version below the
    /// stored one is refused and changes nothing.
    pub fn update_token_version(&mut self, id: &ObjectId, token_version: i32) -> (r: Result<(), AppError>)
        ensures
            outcome(r) == token_version_outcome(old(self)@, *id, token_version as int),
            final(self)@ == (if token_version_outcome(old(self)@, *id, token_version as int) is Ok {
                set_token_version(old(self)@, *id, token_version as int)
            } else {
                old(self)@
            }),
    {
        match self.position(id) {
            Some(i) => {
                let u = &self.users[i];
                check_version_step(Some(u.token_version()), token_version)?;
                let updated = User::assemble(
                    u.id(),
                    u.email().to_owned(),
                    u.username().to_owned(),
                    u.password_hash().to_owned(),
                    u.is_admin(),
                    token_version,
                    copy_ids(u.borrowed_books()),
                );
                self.replace(i, updated);
            },
            None => {},
        }
        Ok(())
    }

    fn write_loans(&mut self, i: usize, borrowed: Vec<ObjectId>)
        requires
            i < old(self)@.len(),
            loans_wf(borrowed@),
        ensures
            final(self)@ == replace_user(
                old(self)@,
                old(self)@[i as int].id,
                old(self)@[i as int].with_borrowed(borrowed@),
            ),
    {
        proof {
            use_type_invariant(&*self);
            lemma_own_email_not_taken(self@, i as int);
        }
        let u = &self.users[i];
        let updated = User::assemble(
            u.id(),
            u.email().to_owned(),
            u.username().to_owned(),
            u.password_hash().to_owned(),
            u.is_admin(),
            u.token_version(),
            borrowed,
        );
        self.replace(i, updated);
    }

    /// Records that an account holds one more book: the account must exist,
    /// must not hold the book already, and must hold fewer than eight books.
    /// A refused call changes nothing.
    pub fn add_borrowed_book(&mut self, user_id: &ObjectId, book_id: &ObjectId) -> (r: Result<(), AppError>)
        ensures
            final(self)@ == registry_add(old(self)@, *user_id, *book_id),
            outcome(r) == add_loan_outcome(old(self)@, *user_id, *book_id),
    {
        let i = match self.position(user_id) {
            Some(i) => i,
            None => {
                return Err(AppError::not_found(USER_NOT_FOUND));
            },
        };
        let mut borrowed = copy_ids(self.users[i].borrowed_books());
        match check_new_loan(&borrowed, book_id) {
            Ok(()) => {},
            Err(e) => {
                return Err(e);
            },
        }
        borrowed.push(*book_id);
        proof {
            let before = self@[i as int].borrowed;
            assert(borrowed@ == before.push(*book_id));
            assert forall|a: int, b: int| 0 <= a < b < borrowed@.len() implies borrowed@[a] != borrowed@[b] by {
                if b < before.len() {
                    assert(before[a] != before[b]);
                } else {
                    assert(before.contains(before[a]));
                }
            }
        }
        self.write_loans(i, borrowed);
        Ok(())
    }

    /// The guarded update of the registry: removes the book from the
    /// account's list where the account holds it, and says how many records
    /// it changed.
    fn pull_where_held(&mut self, user_id: &ObjectId, book_id: &ObjectId) -> (modified: u64)
        ensures
            final(self)@ == registry_remove(old(self)@, *user_id, *book_id),
            modified == (if holds(old(self)@, *user_id, *book_id) { 1u64 } else { 0u64 }),
    {
        let i = match self.position(user_id) {
            Some(i) => i,
            None => {
                return 0;
            },
        };
        let mut borrowed = copy_ids(self.users[i].borrowed_books());
        match position_of(&borrowed, book_id) {
            Some(k) => {
                proof {
                    let before = borrowed@;
                    let k0 = before.index_of(*book_id);
                    assert(before[k0] == *book_id);
                    assert(k0 == k);
                    assert(without_loan(before, *book_id) == before.remove(k as int));
                    let after = before.remove(k as int);
                    assert forall|a: int, b: int| 0 <= a < b < after.len() implies after[a] != after[b] by {
                        let a0 = if a < k { a } else { a + 1 };
                        let b0 = if b < k { b } else { b + 1 };
                        assert(before[a0] != before[b0]);
                    }
                }
                borrowed.remove(k);
                self.write_loans(i, borrowed);
                1
            },
            None => 0,
        }
    }

    /// Records that an account gives a book back: succeeds exactly when the
    /// account holds the book, and otherwise changes nothing.
    pub fn remove_borrowed_book(&mut self, user_id: &ObjectId, book_id: &ObjectId) -> (r: Result<(), AppError>)
        ensures
            final(self)@ == registry_remove(old(self)@, *user_id, *book_id),
            outcome(r) == remove_loan_outcome(old(self)@, *user_id, *book_id),
    {
        let modified = self.pull_where_held(user_id, book_id);
        loan_removal_outcome(modified)
    }
}

} // verus!
