//! Sessions without a revocation list: a token carries the version of the
//! account it was issued for, and is good only while the account still has
//! that version.

use crate::constants::{
    AUTH_REQUIRED, EXPIRY_OUT_OF_RANGE, INVALID_USER_ID, LOGOUT_SUCCESS, PASSWORD_UPDATED, SECONDS_PER_HOUR,
    TOKEN_BLACKLISTED, TOKEN_EXPIRED, TOKEN_VERSION_OVERFLOW, USER_NOT_FOUND,
};
use crate::database::users::{
    lemma_own_email_not_taken, lemma_replace_user_wf, lemma_user_position_unique, set_password_hash, set_token_version,
    token_version_of, user_position, users_wf, UserRepository,
};
use crate::errors::{bad_request, internal, not_found, outcome, unauthorized, AppError, ErrorView};
use crate::models::response::Response;
use crate::models::user::{User, UserView};
use crate::oid::{encode_hex, parse_id, ObjectId};
use vstd::prelude::*;

verus! {

/// The account a request was made for, once its token has been accepted.
#[derive(Debug, PartialEq, Eq)]
pub struct AuthenticatedUser {
    pub user_id: String,
}

/// What a token says: whose it is, until when it is good, and which version
/// of the account it was issued for.
#[derive(Debug, PartialEq, Eq)]
pub struct Claims {
    /// The account's identifier in hexadecimal.
    pub sub: String,
    /// The second, counted from the epoch, at which the token expires.
    pub exp: i64,
    pub token_version: i32,
}

/// A token's claims as a plain value.
pub struct ClaimsView {
    pub sub: Seq<char>,
    pub exp: int,
    pub token_version: int,
}

impl View for Claims {
    type V = ClaimsView;

    open spec fn view(&self) -> ClaimsView {
        ClaimsView { sub: self.sub@, exp: self.exp as int, token_version: self.token_version as int }
    }
}

/// The claims of a token issued for an account at a given second, good for
/// a number of hours.
pub open spec fn claims_for(user: UserView, now: int, hours: int) -> ClaimsView {
    ClaimsView { sub: encode_hex(user.id@), exp: now + hours * SECONDS_PER_HOUR, token_version: user.token_version }
}

/// Whether the lifetime in seconds and the expiry both fit the stored
/// integer.
pub open spec fn expiry_fits(now: int, hours: int) -> bool {
    &&& i64::MIN <= hours * SECONDS_PER_HOUR <= i64::MAX
    &&& i64::MIN <= now + hours * SECONDS_PER_HOUR <= i64::MAX
}

/// Issues the claims of a token for an account: its identifier, the expiry
/// and the account's current version. Fails only where the lifetime or the
/// expiry does not fit the stored integer.
pub fn issue_claims(user: &User, now: i64, hours: i64) -> (r: Result<Claims, AppError>)
    ensures
        match r {
            Ok(claims) => expiry_fits(now as int, hours as int) && claims@ == claims_for(
                user@,
                now as int,
                hours as int,
            ),
            Err(e) => !expiry_fits(now as int, hours as int) && e@ == internal(EXPIRY_OUT_OF_RANGE@),
        },
{
    let span = match hours.checked_mul(SECONDS_PER_HOUR) {
        Some(span) => span,
        None => {
            return Err(AppError::internal(EXPIRY_OUT_OF_RANGE));
        },
    };
    let exp = match now.checked_add(span) {
        Some(exp) => exp,
        None => {
            return Err(AppError::internal(EXPIRY_OUT_OF_RANGE));
        },
    };
    Ok(Claims { sub: user.id().to_hex(), exp, token_version: user.token_version() })
}

/// Whether a token is still good at a given second.
pub open spec fn expiry_verdict(exp: int, now: int) -> Result<(), ErrorView> {
    if now < exp {
        Ok(())
    } else {
        Err(unauthorized(TOKEN_EXPIRED@))
    }
}

/// Whether a token's version is the one the account has now. A token for an
/// account that is gone is refused, and so is one with any other version.
pub open spec fn version_verdict(token_version: int, stored: Option<int>) -> Result<(), ErrorView> {
    match stored {
        None => Err(unauthorized(AUTH_REQUIRED@)),
        Some(current) => if token_version == current {
            Ok(())
        } else {
            Err(unauthorized(TOKEN_BLACKLISTED@))
        },
    }
}

pub fn check_expiry(exp: i64, now: i64) -> (r: Result<(), AppError>)
    ensures
        outcome(r) == expiry_verdict(exp as int, now as int),
{
    if now < exp {
        Ok(())
    } else {
        Err(AppError::unauthorized(TOKEN_EXPIRED))
    }
}

pub fn check_token_version(token_version: i32, stored: Option<i32>) -> (r: Result<(), AppError>)
    ensures
        outcome(r) == version_verdict(
            token_version as int,
            match stored {
                Some(v) => Some(v as int),
                None => None,
            },
        ),
{
    match stored {
        None => Err(AppError::unauthorized(AUTH_REQUIRED)),
        Some(current) => if token_version == current {
            Ok(())
        } else {
            Err(AppError::unauthorized(TOKEN_BLACKLISTED))
        },
    }
}

/// What the service makes of a token whose signature is good: it must not
/// have expired, must name an account, and must carry the version that the
/// account has now.
pub open spec fn token_verdict(users: Seq<UserView>, claims: ClaimsView, now: int) -> Result<(), ErrorView> {
    if expiry_verdict(claims.exp, now) is Err {
        expiry_verdict(claims.exp, now)
    } else {
        match parse_id(claims.sub) {
            None => Err(unauthorized(AUTH_REQUIRED@)),
            Some(id) => version_verdict(claims.token_version, token_version_of(users, id)),
        }
    }
}

/// Accepts or refuses a token whose signature has been verified. An
/// accepted token gives the account it names.
pub fn authenticate(claims: &Claims, now: i64, user_repo: &UserRepository) -> (r: Result<AuthenticatedUser, AppError>)
    ensures
        match r {
            Ok(user) => token_verdict(user_repo@, claims@, now as int) is Ok && user.user_id@ == claims.sub@,
            Err(e) => token_verdict(user_repo@, claims@, now as int) == Err::<(), _>(e@),
        },
{
    check_expiry(claims.exp, now)?;
    let id = match ObjectId::parse_str(claims.sub.as_str()) {
        Some(id) => id,
        None => {
            return Err(AppError::unauthorized(AUTH_REQUIRED));
        },
    };
    let stored = match user_repo.find_by_id(&id)? {
        Some(user) => Some(user.token_version()),
        None => None,
    };
    check_token_version(claims.token_version, stored)?;
    Ok(AuthenticatedUser { user_id: claims.sub.clone() })
}

/// The version after a revocation: one more. It fails only where the
/// counter cannot grow.
pub fn next_token_version(current: i32) -> (r: Result<i32, AppError>)
    ensures
        match r {
            Ok(next) => next == current + 1,
            Err(e) => current == i32::MAX && e@ == internal(TOKEN_VERSION_OVERFLOW@),
        },
{
    match current.checked_add(1) {
        Some(next) => Ok(next),
        None => Err(AppError::internal(TOKEN_VERSION_OVERFLOW)),
    }
}

/// What revoking the tokens of an account answers: the identifier must be
/// well formed, the account must exist, and its counter must be able to
/// grow.
pub open spec fn revoke_outcome(users: Seq<UserView>, user_id: Seq<char>) -> Result<(), ErrorView> {
    match parse_id(user_id) {
        None => Err(bad_request(INVALID_USER_ID@)),
        Some(id) => match token_version_of(users, id) {
            None => Err(not_found(USER_NOT_FOUND@)),
            Some(current) => if current < i32::MAX {
                Ok(())
            } else {
                Err(internal(TOKEN_VERSION_OVERFLOW@))
            },
        },
    }
}

/// The accounts after revoking the tokens of one of them: its version is one
/// more where the revocation succeeds, and nothing changes where it fails.
pub open spec fn revoke_users(users: Seq<UserView>, user_id: Seq<char>) -> Seq<UserView> {
    if revoke_outcome(users, user_id) is Ok {
        let id = parse_id(user_id).unwrap();
        set_token_version(users, id, token_version_of(users, id).unwrap() + 1)
    } else {
        users
    }
}

fn revoke(user_repo: &mut UserRepository, user_id: &str) -> (r: Result<ObjectId, AppError>)
    ensures
        final(user_repo)@ == revoke_users(old(user_repo)@, user_id@),
        match r {
            Ok(id) => revoke_outcome(old(user_repo)@, user_id@) is Ok && parse_id(user_id@) == Some(id),
            Err(e) => revoke_outcome(old(user_repo)@, user_id@) == Err::<(), _>(e@),
        },
{
    let id = match ObjectId::parse_str(user_id) {
        Some(id) => id,
        None => {
            return Err(AppError::bad_request(INVALID_USER_ID));
        },
    };
    let user = match user_repo.find_by_id(&id)? {
        Some(user) => user,
        None => {
            return Err(AppError::not_found(USER_NOT_FOUND));
        },
    };
    let next = next_token_version(user.token_version())?;
    user_repo.update_token_version(&id, next)?;
    Ok(id)
}

/// Logs an account out: its version grows by one, so that every token
/// issued for it before is refused from now on.
pub fn logout(user_repo: &mut UserRepository, user: &AuthenticatedUser) -> (r: Result<Response<()>, AppError>)
    ensures
        final(user_repo)@ == revoke_users(old(user_repo)@, user.user_id@),
        match r {
            Ok(response) => revoke_outcome(old(user_repo)@, user.user_id@) is Ok && response.msg@
                == LOGOUT_SUCCESS@ && response.data is None,
            Err(e) => revoke_outcome(old(user_repo)@, user.user_id@) == Err::<(), _>(e@),
        },
{
    revoke(user_repo, user.user_id.as_str())?;
    Ok(Response::message(LOGOUT_SUCCESS))
}

/// The accounts after a change of password: the tokens of the account are
/// revoked, and where that succeeds the new credential is stored.
pub open spec fn change_password_users(users: Seq<UserView>, user_id: Seq<char>, password_hash: Seq<char>) -> Seq<
    UserView,
> {
    if revoke_outcome(users, user_id) is Ok {
        set_password_hash(revoke_users(users, user_id), parse_id(user_id).unwrap(), password_hash)
    } else {
        users
    }
}

/// Stores a new password credential for an account and revokes every token
/// issued for it before, so that other sessions must log in again.
pub fn change_password(user_repo: &mut UserRepository, user: &AuthenticatedUser, password_hash: &str) -> (r: Result<
    Response<()>,
    AppError,
>)
    ensures
        final(user_repo)@ == change_password_users(old(user_repo)@, user.user_id@, password_hash@),
        match r {
            Ok(response) => revoke_outcome(old(user_repo)@, user.user_id@) is Ok && response.msg@
                == PASSWORD_UPDATED@ && response.data is None,
            Err(e) => revoke_outcome(old(user_repo)@, user.user_id@) == Err::<(), _>(e@),
        },
{
    let id = revoke(user_repo, user.user_id.as_str())?;
    user_repo.update_password(&id, password_hash)?;
    Ok(Response::message(PASSWORD_UPDATED))
}

/// Once the tokens of an account are revoked, no token issued for it before
/// is accepted again, at whatever second it is shown: a token carries the
/// version that the account had at the latest when it was revoked, and the
/// account's version is now greater.
pub proof fn lemma_revocation_refuses_earlier_tokens(users: Seq<UserView>, user_id: Seq<char>, claims: ClaimsView, now: int)
    requires
        users_wf(users),
        revoke_outcome(users, user_id) is Ok,
        claims.sub == user_id,
        claims.token_version <= token_version_of(users, parse_id(user_id).unwrap()).unwrap(),
    ensures
        token_verdict(revoke_users(users, user_id), claims, now) is Err,
        token_version_of(revoke_users(users, user_id), parse_id(user_id).unwrap()) == Some(
            token_version_of(users, parse_id(user_id).unwrap()).unwrap() + 1,
        ),
{
    let id = parse_id(user_id).unwrap();
    let i = user_position(users, id);
    assert(users[i].id == id);
    lemma_user_position_unique(users, i);
    lemma_own_email_not_taken(users, i);
    lemma_replace_user_wf(users, id, users[i].with_token_version(users[i].token_version + 1));
}

} // verus!
