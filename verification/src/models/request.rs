//! The bodies of the requests, and the rules their fields must meet.

use crate::constants::{
    EMPTY_AUTHOR, EMPTY_TITLE, FIELD_AUTHOR, FIELD_EMAIL, FIELD_NEW_PASSWORD, FIELD_PASSWORD, FIELD_TITLE,
    FIELD_USERNAME, INVALID_EMAIL_FORMAT, INVALID_USERNAME_LENGTH, PASSWORD_TOO_SHORT,
};
use vstd::prelude::*;

verus! {

/// Whether a text is an email address, as `validator` judges it.
pub uninterp spec fn email_is_valid(s: Seq<char>) -> bool;

/// Whether a count of characters lies within the bounds that are given.
pub open spec fn length_ok(len: nat, min: Option<u64>, max: Option<u64>) -> bool {
    &&& min matches Some(m) ==> len >= m
    &&& max matches Some(m) ==> len <= m
}

/// `validator::ValidateEmail::validate_email` on a `&str`.
///
/// The verdict depends on the text alone; the contract gives it a name and
/// claims nothing else of it.
#[verifier::external_body]
fn valid_email(s: &str) -> (r: bool)
    ensures
        r == email_is_valid(s@),
{
    validator::ValidateEmail::validate_email(&s)
}

/// `validator::ValidateLength::validate_length` on a `str`, with no exact
/// length asked for.
///
/// The contract claims that the text passes exactly when its number of
/// characters is at least the lower bound and at most the upper bound,
/// where each is given.
#[verifier::external_body]
fn length_within(s: &str, min: Option<u64>, max: Option<u64>) -> (r: bool)
    ensures
        r == length_ok(s@.len(), min, max),
{
    validator::ValidateLength::validate_length(s, min, max, None)
}

/// A field that breaks its rule, and the message that says so.
#[derive(Debug, PartialEq, Eq)]
pub struct FieldError {
    pub field: String,
    pub message: String,
}

/// A broken rule as a plain value.
pub struct Violation {
    pub field: Seq<char>,
    pub message: Seq<char>,
}

impl View for FieldError {
    type V = Violation;

    open spec fn view(&self) -> Violation {
        Violation { field: self.field@, message: self.message@ }
    }
}

pub open spec fn errors_view(errors: Seq<FieldError>) -> Seq<Violation> {
    errors.map_values(|e: FieldError| e@)
}

/// Nothing where the rule is met, and the one violation where it is not.
pub open spec fn rule(ok: bool, field: Seq<char>, message: Seq<char>) -> Seq<Violation> {
    if ok {
        Seq::empty()
    } else {
        seq![Violation { field, message }]
    }
}

/// An email address must be one.
pub open spec fn email_rule(email: Seq<char>) -> Seq<Violation> {
    rule(email_is_valid(email), FIELD_EMAIL@, INVALID_EMAIL_FORMAT@)
}

/// A user name has three to thirty characters.
pub open spec fn username_rule(username: Seq<char>) -> Seq<Violation> {
    rule(3 <= username.len() <= 30, FIELD_USERNAME@, INVALID_USERNAME_LENGTH@)
}

/// A password has at least eight characters.
pub open spec fn password_rule(field: Seq<char>, password: Seq<char>) -> Seq<Violation> {
    rule(password.len() >= 8, field, PASSWORD_TOO_SHORT@)
}

/// A title is not empty.
pub open spec fn title_rule(title: Seq<char>) -> Seq<Violation> {
    rule(title.len() >= 1, FIELD_TITLE@, EMPTY_TITLE@)
}

/// An author is not empty.
pub open spec fn author_rule(author: Seq<char>) -> Seq<Violation> {
    rule(author.len() >= 1, FIELD_AUTHOR@, EMPTY_AUTHOR@)
}

/// A rule on a field that may be absent binds only where it is present.
pub open spec fn when_present(field: Option<String>, rule: spec_fn(Seq<char>) -> Seq<Violation>) -> Seq<Violation> {
    match field {
        Some(value) => rule(value@),
        None => Seq::empty(),
    }
}

/// Records the violation of a rule, given whether the rule is met.
pub fn record(ok: bool, field: &str, message: &str, errors: &mut Vec<FieldError>)
    ensures
        errors_view(final(errors)@) == errors_view(old(errors)@) + rule(ok, field@, message@),
{
    if !ok {
        let error = FieldError { field: field.to_owned(), message: message.to_owned() };
        proof {
            assert(errors_view(errors@.push(error)) =~= errors_view(errors@) + rule(ok, field@, message@));
        }
        errors.push(error);
    } else {
        proof {
            assert(errors_view(errors@) =~= errors_view(errors@) + rule(ok, field@, message@));
        }
    }
}

fn check_email(email: &str, errors: &mut Vec<FieldError>)
    ensures
        errors_view(final(errors)@) == errors_view(old(errors)@) + email_rule(email@),
{
    record(valid_email(email), FIELD_EMAIL, INVALID_EMAIL_FORMAT, errors);
}

fn check_username(username: &str, errors: &mut Vec<FieldError>)
    ensures
        errors_view(final(errors)@) == errors_view(old(errors)@) + username_rule(username@),
{
    record(length_within(username, Some(3), Some(30)), FIELD_USERNAME, INVALID_USERNAME_LENGTH, errors);
}

fn check_password(field: &str, password: &str, errors: &mut Vec<FieldError>)
    ensures
        errors_view(final(errors)@) == errors_view(old(errors)@) + password_rule(field@, password@),
{
    record(length_within(password, Some(8), None), field, PASSWORD_TOO_SHORT, errors);
}

fn check_title(title: &str, errors: &mut Vec<FieldError>)
    ensures
        errors_view(final(errors)@) == errors_view(old(errors)@) + title_rule(title@),
{
    record(length_within(title, Some(1), None), FIELD_TITLE, EMPTY_TITLE, errors);
}

fn check_author(author: &str, errors: &mut Vec<FieldError>)
    ensures
        errors_view(final(errors)@) == errors_view(old(errors)@) + author_rule(author@),
{
    record(length_within(author, Some(1), None), FIELD_AUTHOR, EMPTY_AUTHOR, errors);
}

fn no_errors() -> (r: Vec<FieldError>)
    ensures
        errors_view(r@) == Seq::<Violation>::empty(),
{
    let r: Vec<FieldError> = Vec::new();
    proof {
        assert(errors_view(r@) =~= Seq::<Violation>::empty());
    }
    r
}

#[derive(Debug, PartialEq, Eq)]
pub struct RegisterRequest {
    pub email: String,
    pub username: String,
    pub password: String,
}

impl RegisterRequest {
    pub open spec fn violations(&self) -> Seq<Violation> {
        email_rule(self.email@) + username_rule(self.username@) + password_rule(FIELD_PASSWORD@, self.password@)
    }

    /// The rules the request breaks, field by field; none where it is valid.
    pub fn validate(&self) -> (r: Vec<FieldError>)
        ensures
            errors_view(r@) == self.violations(),
    {
        let mut errors = no_errors();
        check_email(self.email.as_str(), &mut errors);
        check_username(self.username.as_str(), &mut errors);
        check_password(FIELD_PASSWORD, self.password.as_str(), &mut errors);
        proof {
            assert(errors_view(errors@) =~= self.violations());
        }
        errors
    }
}

#[derive(Debug, PartialEq, Eq)]
pub struct LoginRequest {
    pub email: String,
    pub password: String,
}

impl LoginRequest {
    pub open spec fn violations(&self) -> Seq<Violation> {
        email_rule(self.email@)
    }

    /// The rules the request breaks; none where it is valid.
    pub fn validate(&self) -> (r: Vec<FieldError>)
        ensures
            errors_view(r@) == self.violations(),
    {
        let mut errors = no_errors();
        check_email(self.email.as_str(), &mut errors);
        proof {
            assert(errors_view(errors@) =~= self.violations());
        }
        errors
    }
}

#[derive(Debug, PartialEq, Eq)]
pub struct UpdateEmailRequest {
    pub email: String,
}

impl UpdateEmailRequest {
    pub open spec fn violations(&self) -> Seq<Violation> {
        email_rule(self.email@)
    }

    /// The rules the request breaks; none where it is valid.
    pub fn validate(&self) -> (r: Vec<FieldError>)
        ensures
            errors_view(r@) == self.violations(),
    {
        let mut errors = no_errors();
        check_email(self.email.as_str(), &mut errors);
        proof {
            assert(errors_view(errors@) =~= self.violations());
        }
        errors
    }
}

#[derive(Debug, PartialEq, Eq)]
pub struct UpdateUsernameRequest {
    pub username: String,
}

impl UpdateUsernameRequest {
    pub open spec fn violations(&self) -> Seq<Violation> {
        username_rule(self.username@)
    }

    /// The rules the request breaks; none where it is valid.
    pub fn validate(&self) -> (r: Vec<FieldError>)
        ensures
            errors_view(r@) == self.violations(),
    {
        let mut errors = no_errors();
        check_username(self.username.as_str(), &mut errors);
        proof {
            assert(errors_view(errors@) =~= self.violations());
        }
        errors
    }
}

#[derive(Debug, PartialEq, Eq)]
pub struct UpdatePasswordRequest {
    pub old_password: String,
    pub new_password: String,
}

impl UpdatePasswordRequest {
    pub open spec fn violations(&self) -> Seq<Violation> {
        password_rule(FIELD_NEW_PASSWORD@, self.new_password@)
    }

    /// The rules the request breaks; none where it is valid.
    pub fn validate(&self) -> (r: Vec<FieldError>)
        ensures
            errors_view(r@) == self.violations(),
    {
        let mut errors = no_errors();
        check_password(FIELD_NEW_PASSWORD, self.new_password.as_str(), &mut errors);
        proof {
            assert(errors_view(errors@) =~= self.violations());
        }
        errors
    }
}

#[derive(Debug, PartialEq, Eq)]
pub struct CreateUserRequest {
    pub email: String,
    pub username: String,
    pub password: String,
    pub is_admin: bool,
}

impl CreateUserRequest {
    pub open spec fn violations(&self) -> Seq<Violation> {
        email_rule(self.email@) + username_rule(self.username@) + password_rule(FIELD_PASSWORD@, self.password@)
    }

    /// The rules the request breaks, field by field; none where it is valid.
    pub fn validate(&self) -> (r: Vec<FieldError>)
        ensures
            errors_view(r@) == self.violations(),
    {
        let mut errors = no_errors();
        check_email(self.email.as_str(), &mut errors);
        check_username(self.username.as_str(), &mut errors);
        check_password(FIELD_PASSWORD, self.password.as_str(), &mut errors);
        proof {
            assert(errors_view(errors@) =~= self.violations());
        }
        errors
    }
}

#[derive(Debug, PartialEq, Eq)]
pub struct UpdateUserRequest {
    pub email: Option<String>,
    pub username: Option<String>,
    pub password: Option<String>,
}

impl UpdateUserRequest {
    pub open spec fn violations(&self) -> Seq<Violation> {
        when_present(self.email, |s: Seq<char>| email_rule(s)) + when_present(
            self.username,
            |s: Seq<char>| username_rule(s),
        ) + when_present(self.password, |s: Seq<char>| password_rule(FIELD_PASSWORD@, s))
    }

    /// The rules the request breaks, field by field; an absent field breaks
    /// none.
    pub fn validate(&self) -> (r: Vec<FieldError>)
        ensures
            errors_view(r@) == self.violations(),
    {
        let mut errors = no_errors();
        if let Some(email) = &self.email {
            check_email(email.as_str(), &mut errors);
        }
        if let Some(username) = &self.username {
            check_username(username.as_str(), &mut errors);
        }
        if let Some(password) = &self.password {
            check_password(FIELD_PASSWORD, password.as_str(), &mut errors);
        }
        proof {
            assert(errors_view(errors@) =~= self.violations());
        }
        errors
    }
}

#[derive(Debug, PartialEq, Eq)]
pub struct SetRoleRequest {
    pub is_admin: bool,
}

#[derive(Debug, PartialEq, Eq)]
pub struct CreateBookRequest {
    pub title: String,
    pub author: String,
}

impl CreateBookRequest {
    pub open spec fn violations(&self) -> Seq<Violation> {
        title_rule(self.title@) + author_rule(self.author@)
    }

    /// The rules the request breaks, field by field; none where it is valid.
    pub fn validate(&self) -> (r: Vec<FieldError>)
        ensures
            errors_view(r@) == self.violations(),
    {
        let mut errors = no_errors();
        check_title(self.title.as_str(), &mut errors);
        check_author(self.author.as_str(), &mut errors);
        proof {
            assert(errors_view(errors@) =~= self.violations());
        }
        errors
    }
}

#[derive(Debug, PartialEq, Eq)]
pub struct UpdateBookRequest {
    pub title: Option<String>,
    pub author: Option<String>,
    pub stock: Option<i32>,
}

impl UpdateBookRequest {
    pub open spec fn violations(&self) -> Seq<Violation> {
        when_present(self.title, |s: Seq<char>| title_rule(s)) + when_present(
            self.author,
            |s: Seq<char>| author_rule(s),
        )
    }

    /// The rules the request breaks, field by field; an absent field breaks
    /// none.
    pub fn validate(&self) -> (r: Vec<FieldError>)
        ensures
            errors_view(r@) == self.violations(),
    {
        let mut errors = no_errors();
        if let Some(title) = &self.title {
            check_title(title.as_str(), &mut errors);
        }
        if let Some(author) = &self.author {
            check_author(author.as_str(), &mut errors);
        }
        proof {
            assert(errors_view(errors@) =~= self.violations());
        }
        errors
    }
}

} // verus!
