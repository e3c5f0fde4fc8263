//! The catalog queries and the two lending requests.

use crate::auth::AuthenticatedUser;
use crate::constants::{
    BOOKS_FETCHED, BOOK_BORROWED, BOOK_INFO_FETCHED, BOOK_NOT_FOUND, BOOK_RETURNED, INVALID_BOOK_ID, INVALID_USER_ID,
};
use crate::database::books::{find_book, titled, written_by, BookRepository};
use crate::database::users::UserRepository;
use crate::errors::{bad_request, not_found, AppError, ErrorView};
use crate::lending::{
    borrow, borrow_books, borrow_outcome, borrow_users, give_back, return_books, return_outcome, return_users,
};
use crate::models::book::BookView;
use crate::models::response::{infos_view, shown, BookDetail, BookInfo, Response, ShownBook};
use crate::models::user::UserView;
use crate::oid::{parse_id, ObjectId};
use vstd::prelude::*;

verus! {

/// An answer without data, as a plain value: its message, or the error.
pub open spec fn reply(r: Result<Response<()>, AppError>) -> Result<Seq<char>, ErrorView> {
    match r {
        Ok(response) => Ok(response.msg@),
        Err(e) => Err(e@),
    }
}

/// An answer that lists books, as a plain value.
pub open spec fn listing(r: Result<Response<Vec<BookInfo>>, AppError>) -> Result<(Seq<char>, Seq<ShownBook>), ErrorView> {
    match r {
        Ok(response) => match response.data {
            Some(infos) => Ok((response.msg@, infos_view(infos@))),
            None => Ok((response.msg@, Seq::empty())),
        },
        Err(e) => Err(e@),
    }
}

/// Every book of the catalog, in catalog order.
pub fn get_all_books(book_repo: &BookRepository) -> (r: Result<Response<Vec<BookInfo>>, AppError>)
    ensures
        r matches Ok(response) && response.data is Some,
        listing(r) == Ok::<_, ErrorView>((BOOKS_FETCHED@, book_repo@.map_values(|b: BookView| shown(b)))),
{
    let books = book_repo.find_all()?;
    Ok(Response::with_data(BOOKS_FETCHED, BookInfo::list(&books)))
}

/// The books with exactly this title, in catalog order.
pub fn get_books_by_title(book_repo: &BookRepository, title: &str) -> (r: Result<
    Response<Vec<BookInfo>>,
    AppError,
>)
    ensures
        r matches Ok(response) && response.data is Some,
        listing(r) == Ok::<_, ErrorView>(
            (BOOKS_FETCHED@, book_repo@.filter(titled(title@)).map_values(|b: BookView| shown(b))),
        ),
{
    let books = book_repo.find_by_title(title)?;
    Ok(Response::with_data(BOOKS_FETCHED, BookInfo::list(&books)))
}

/// The books by exactly this author, in catalog order.
pub fn get_books_by_author(book_repo: &BookRepository, author: &str) -> (r: Result<
    Response<Vec<BookInfo>>,
    AppError,
>)
    ensures
        r matches Ok(response) && response.data is Some,
        listing(r) == Ok::<_, ErrorView>(
            (BOOKS_FETCHED@, book_repo@.filter(written_by(author@)).map_values(|b: BookView| shown(b))),
        ),
{
    let books = book_repo.find_by_author(author)?;
    Ok(Response::with_data(BOOKS_FETCHED, BookInfo::list(&books)))
}

/// What asking for one book answers: the identifier must be well formed and
/// the catalog must have the book.
pub open spec fn book_page(books: Seq<BookView>, id: Seq<char>) -> Result<ShownBook, ErrorView> {
    match parse_id(id) {
        None => Err(bad_request(INVALID_BOOK_ID@)),
        Some(book_id) => match find_book(books, book_id) {
            None => Err(not_found(BOOK_NOT_FOUND@)),
            Some(book) => Ok(shown(book)),
        },
    }
}

/// One book, by its identifier in hexadecimal.
pub fn get_book_by_id(book_repo: &BookRepository, id: &str) -> (r: Result<Response<BookDetail>, AppError>)
    ensures
        match r {
            Ok(response) => {
                &&& response.msg@ == BOOK_INFO_FETCHED@
                &&& response.data matches Some(detail) && book_page(book_repo@, id@) == Ok::<_, ErrorView>(detail@)
            },
            Err(e) => book_page(book_repo@, id@) == Err::<ShownBook, _>(e@),
        },
{
    let object_id = match ObjectId::parse_str(id) {
        Some(object_id) => object_id,
        None => {
            return Err(AppError::bad_request(INVALID_BOOK_ID));
        },
    };
    let book = match book_repo.find_by_id(&object_id)? {
        Some(book) => book,
        None => {
            return Err(AppError::not_found(BOOK_NOT_FOUND));
        },
    };
    Ok(Response::with_data(BOOK_INFO_FETCHED, BookDetail::of(&book)))
}

/// The two identifiers of a lending request, where both are well formed:
/// the account's and the book's.
pub open spec fn lending_ids(user_id: Seq<char>, id: Seq<char>) -> Option<(ObjectId, ObjectId)> {
    match (parse_id(id), parse_id(user_id)) {
        (Some(book), Some(user)) => Some((user, book)),
        _ => None,
    }
}

/// The error for a lending request whose identifiers are not both well
/// formed: the book's is looked at first.
pub open spec fn lending_ids_error(user_id: Seq<char>, id: Seq<char>) -> ErrorView {
    if parse_id(id) is None {
        bad_request(INVALID_BOOK_ID@)
    } else {
        bad_request(INVALID_USER_ID@)
    }
}

/// What a request to borrow answers.
pub open spec fn borrow_reply(books: Seq<BookView>, users: Seq<UserView>, user_id: Seq<char>, id: Seq<char>) -> Result<
    Seq<char>,
    ErrorView,
> {
    match lending_ids(user_id, id) {
        None => Err(lending_ids_error(user_id, id)),
        Some((user, book)) => match borrow_outcome(books, users, user, book) {
            Ok(_) => Ok(BOOK_BORROWED@),
            Err(e) => Err(e),
        },
    }
}

/// What a request to return answers.
pub open spec fn return_reply(books: Seq<BookView>, users: Seq<UserView>, user_id: Seq<char>, id: Seq<char>) -> Result<
    Seq<char>,
    ErrorView,
> {
    match lending_ids(user_id, id) {
        None => Err(lending_ids_error(user_id, id)),
        Some((user, book)) => match return_outcome(books, users, user, book) {
            Ok(_) => Ok(BOOK_RETURNED@),
            Err(e) => Err(e),
        },
    }
}

/// The account and the book of a lending request, where both identifiers
/// are well formed; the book's is looked at first.
pub fn lending_request_ids(user: &AuthenticatedUser, id: &str) -> (r: Result<(ObjectId, ObjectId), AppError>)
    ensures
        match r {
            Ok(ids) => lending_ids(user.user_id@, id@) == Some(ids),
            Err(e) => lending_ids(user.user_id@, id@) is None && e@ == lending_ids_error(user.user_id@, id@),
        },
{
    let object_id = match ObjectId::parse_str(id) {
        Some(object_id) => object_id,
        None => {
            return Err(AppError::bad_request(INVALID_BOOK_ID));
        },
    };
    let user_id = match ObjectId::parse_str(user.user_id.as_str()) {
        Some(user_id) => user_id,
        None => {
            return Err(AppError::bad_request(INVALID_USER_ID));
        },
    };
    Ok((user_id, object_id))
}

/// Lends the book with this identifier to the authenticated account. A
/// malformed identifier is refused before any record is touched; otherwise
/// the records change as a borrow changes them.
pub fn borrow_book(
    user: &AuthenticatedUser,
    book_repo: &mut BookRepository,
    user_repo: &mut UserRepository,
    id: &str,
) -> (r: Result<Response<()>, AppError>)
    ensures
        reply(r) == borrow_reply(old(book_repo)@, old(user_repo)@, user.user_id@, id@),
        r matches Ok(response) ==> response.data is None,
        match lending_ids(user.user_id@, id@) {
            Some((user_id, book_id)) => {
                &&& final(book_repo)@ == borrow_books(old(book_repo)@, old(user_repo)@, user_id, book_id)
                &&& final(user_repo)@ == borrow_users(old(book_repo)@, old(user_repo)@, user_id, book_id)
            },
            None => final(book_repo)@ == old(book_repo)@ && final(user_repo)@ == old(user_repo)@,
        },
{
    let ids = lending_request_ids(user, id)?;
    borrow(book_repo, user_repo, &ids.0, &ids.1)?;
    Ok(Response::message(BOOK_BORROWED))
}

/// Takes the book with this identifier back from the authenticated account.
/// A malformed identifier is refused before any record is touched;
/// otherwise the records change as a return changes them.
pub fn return_book(
    user: &AuthenticatedUser,
    book_repo: &mut BookRepository,
    user_repo: &mut UserRepository,
    id: &str,
) -> (r: Result<Response<()>, AppError>)
    ensures
        reply(r) == return_reply(old(book_repo)@, old(user_repo)@, user.user_id@, id@),
        r matches Ok(response) ==> response.data is None,
        match lending_ids(user.user_id@, id@) {
            Some((user_id, book_id)) => {
                &&& final(book_repo)@ == return_books(old(book_repo)@, old(user_repo)@, user_id, book_id)
                &&& final(user_repo)@ == return_users(old(user_repo)@, user_id, book_id)
            },
            None => final(book_repo)@ == old(book_repo)@ && final(user_repo)@ == old(user_repo)@,
        },
{
    let ids = lending_request_ids(user, id)?;
    give_back(book_repo, user_repo, &ids.0, &ids.1)?;
    Ok(Response::message(BOOK_RETURNED))
}

} // verus!
