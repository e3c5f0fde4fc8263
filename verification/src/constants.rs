//! Names of the stored collections and the messages the service answers with.

use vstd::prelude::*;

verus! {

pub const COLLECTION_USERS: &'static str = "users";

pub const COLLECTION_BOOKS: &'static str = "books";

pub const DEFAULT_JWT_EXP_HOURS: i64 = 24;

pub const SECONDS_PER_HOUR: i64 = 3600;

/// The most books one account may hold at a time.
pub const MAX_BORROWED_BOOKS: usize = 8;

pub const INVALID_EMAIL_FORMAT: &'static str = "invalid email format";

pub const INVALID_USERNAME_LENGTH: &'static str = "username must be 3-30 characters";

pub const PASSWORD_TOO_SHORT: &'static str = "password must be at least 8 characters";

pub const EMPTY_TITLE: &'static str = "title must not be empty";

pub const EMPTY_AUTHOR: &'static str = "author must not be empty";

pub const FIELD_EMAIL: &'static str = "email";

pub const FIELD_USERNAME: &'static str = "username";

pub const FIELD_PASSWORD: &'static str = "password";

pub const FIELD_NEW_PASSWORD: &'static str = "new_password";

pub const FIELD_TITLE: &'static str = "title";

pub const FIELD_AUTHOR: &'static str = "author";

pub const BOOKS_FETCHED: &'static str = "successfully fetched books";

pub const BOOK_INFO_FETCHED: &'static str = "successfully fetched book info";

pub const BOOK_BORROWED: &'static str = "successfully borrowed book";

pub const BOOK_RETURNED: &'static str = "successfully returned book";

pub const LOGOUT_SUCCESS: &'static str = "successfully logged out";

pub const PASSWORD_UPDATED: &'static str = "successfully updated password";

pub const BOOK_NOT_FOUND: &'static str = "book not found";

pub const EMAIL_ALREADY_EXISTS: &'static str = "email already registered";

pub const TOKEN_VERSION_DECREASE: &'static str = "token version must not decrease";

pub const BOOK_ALREADY_EXISTS: &'static str = "book already exists";

pub const USER_NOT_FOUND: &'static str = "user not found";

pub const EXPIRY_OUT_OF_RANGE: &'static str = "token expiry is out of range";

pub const TOKEN_EXPIRED: &'static str = "token has expired";

pub const AUTH_REQUIRED: &'static str = "authentication required";

pub const TOKEN_BLACKLISTED: &'static str = "token has been blacklisted";

pub const INVALID_USER_ID: &'static str = "invalid user id";

pub const INVALID_BOOK_ID: &'static str = "invalid book id";

pub const INTERNAL_SERVER_ERROR: &'static str = "internal server error";

pub const NO_STOCK_AVAILABLE: &'static str = "no stock available";

pub const ALREADY_BORROWED: &'static str = "already borrowed";

pub const BORROW_LIMIT_REACHED: &'static str = "borrow limit reached";

pub const NOT_BORROWED_BY_USER: &'static str = "book not borrowed by user";

pub const NEGATIVE_STOCK: &'static str = "stock must not be negative";

pub const STOCK_OVERFLOW: &'static str = "stock cannot grow any further";

pub const TOKEN_VERSION_OVERFLOW: &'static str = "token version cannot grow any further";

pub const DUPLICATE_ID: &'static str = "a record with this id already exists";

pub const STOCK_NOT_RESTORED: &'static str =
    "book was returned but its stock could not be updated; the catalog record may be inconsistent";

} // verus!
