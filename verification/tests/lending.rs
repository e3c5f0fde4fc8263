use book_lending::auth::AuthenticatedUser;
use book_lending::database::books::BookRepository;
use book_lending::database::users::UserRepository;
use book_lending::errors::{AppError, ErrorKind};
use book_lending::handlers::book::{borrow_book, return_book};
use book_lending::lending::{
    borrow, borrow_start, borrow_step, give_back, return_start, return_step, BorrowAction, BorrowStage, ReturnAction,
    ReturnStage,
};
use book_lending::models::response::Response;
use book_lending::models::user::User;
use book_lending::oid::ObjectId;

fn id(last: u8) -> ObjectId {
    ObjectId::from_bytes([0, 0, 0, 0, 0, 0, 0, 0, 0, 0, 0, last])
}

fn account(users: &mut UserRepository, last: u8) -> ObjectId {
    let user = User::new(
        id(last),
        format!("reader{}@example.com", last),
        format!("reader{}", last),
        String::from("hash"),
        false,
    );
    assert_eq!(users.create(&user), Ok(()));
    id(last)
}

fn book(books: &mut BookRepository, last: u8, stock: i32) -> ObjectId {
    let created = books
        .create_with_id(id(last), &format!("Title {}", last), &format!("Author {}", last))
        .unwrap();
    assert_eq!(created.stock, 0);
    assert_eq!(books.update_stock(&created.id, stock), Ok(()));
    created.id
}

fn stock(books: &BookRepository, book: &ObjectId) -> i32 {
    books.find_by_id(book).unwrap().unwrap().stock
}

fn borrowed(users: &UserRepository, user: &ObjectId) -> Vec<ObjectId> {
    users.find_by_id(user).unwrap().unwrap().borrowed_books().clone()
}

fn holders(users: &UserRepository, book: &ObjectId) -> i32 {
    let mut n = 0;
    for user in users.find_all().unwrap() {
        if user.borrowed_books().contains(book) {
            n += 1;
        }
    }
    n
}

#[test]
fn last_copy_goes_to_one_account_and_comes_back() {
    let mut books = BookRepository::new();
    let mut users = UserRepository::new();
    let item = book(&mut books, 100, 1);
    let a = account(&mut users, 1);
    let b = account(&mut users, 2);

    assert_eq!(borrow(&mut books, &mut users, &a, &item), Ok(()));
    assert_eq!(stock(&books, &item), 0);
    assert_eq!(borrowed(&users, &a), vec![item]);

    assert_eq!(
        borrow(&mut books, &mut users, &b, &item),
        Err(AppError::BadRequest(String::from("no stock available")))
    );
    assert_eq!(stock(&books, &item), 0);
    assert_eq!(borrowed(&users, &b), Vec::<ObjectId>::new());

    assert_eq!(give_back(&mut books, &mut users, &a, &item), Ok(()));
    assert_eq!(stock(&books, &item), 1);
    assert_eq!(borrowed(&users, &a), Vec::<ObjectId>::new());
}

#[test]
fn ninth_borrow_is_refused_and_stock_is_restored() {
    let mut books = BookRepository::new();
    let mut users = UserRepository::new();
    let reader = account(&mut users, 1);
    for n in 0..8u8 {
        let item = book(&mut books, 100 + n, 1);
        assert_eq!(borrow(&mut books, &mut users, &reader, &item), Ok(()));
    }
    assert_eq!(borrowed(&users, &reader).len(), 8);

    let ninth = book(&mut books, 200, 5);
    let result = borrow(&mut books, &mut users, &reader, &ninth);
    assert_eq!(result, Err(AppError::BadRequest(String::from("borrow limit reached"))));
    assert_eq!(stock(&books, &ninth), 5);
    assert_eq!(borrowed(&users, &reader).len(), 8);
    assert!(!borrowed(&users, &reader).contains(&ninth));
}

#[test]
fn borrowing_without_stock_fails_and_changes_nothing() {
    let mut books = BookRepository::new();
    let mut users = UserRepository::new();
    let item = book(&mut books, 100, 0);
    let reader = account(&mut users, 1);
    let result = borrow(&mut books, &mut users, &reader, &item);
    assert_eq!(result, Err(AppError::BadRequest(String::from("no stock available"))));
    assert_eq!(stock(&books, &item), 0);
    assert_eq!(borrowed(&users, &reader), Vec::<ObjectId>::new());
}

#[test]
fn borrowing_a_book_the_catalog_lacks_fails_for_want_of_stock() {
    let mut books = BookRepository::new();
    let mut users = UserRepository::new();
    let reader = account(&mut users, 1);
    let result = borrow(&mut books, &mut users, &reader, &id(77));
    assert_eq!(result, Err(AppError::BadRequest(String::from("no stock available"))));
    assert_eq!(books.len(), 0);
    assert_eq!(borrowed(&users, &reader), Vec::<ObjectId>::new());
}

#[test]
fn borrowing_a_held_book_again_fails_and_changes_nothing() {
    let mut books = BookRepository::new();
    let mut users = UserRepository::new();
    let item = book(&mut books, 100, 3);
    let reader = account(&mut users, 1);
    assert_eq!(borrow(&mut books, &mut users, &reader, &item), Ok(()));
    let result = borrow(&mut books, &mut users, &reader, &item);
    assert_eq!(result, Err(AppError::BadRequest(String::from("already borrowed"))));
    assert_eq!(stock(&books, &item), 2);
    assert_eq!(borrowed(&users, &reader), vec![item]);
}

#[test]
fn borrowing_for_an_unknown_account_restores_the_stock() {
    let mut books = BookRepository::new();
    let mut users = UserRepository::new();
    let item = book(&mut books, 100, 2);
    let result = borrow(&mut books, &mut users, &id(9), &item);
    assert_eq!(result, Err(AppError::NotFound(String::from("user not found"))));
    assert_eq!(stock(&books, &item), 2);
    assert_eq!(users.len(), 0);
}

#[test]
fn returning_a_book_that_is_not_held_fails_and_leaves_the_stock() {
    let mut books = BookRepository::new();
    let mut users = UserRepository::new();
    let item = book(&mut books, 100, 4);
    let reader = account(&mut users, 1);
    let result = give_back(&mut books, &mut users, &reader, &item);
    assert_eq!(result, Err(AppError::BadRequest(String::from("book not borrowed by user"))));
    assert_eq!(stock(&books, &item), 4);

    let nobody = give_back(&mut books, &mut users, &id(9), &item);
    assert_eq!(nobody, Err(AppError::BadRequest(String::from("book not borrowed by user"))));
    assert_eq!(stock(&books, &item), 4);
}

#[test]
fn return_reports_a_storage_failure_when_the_stock_cannot_grow() {
    let mut books = BookRepository::new();
    let mut users = UserRepository::new();
    let item = book(&mut books, 100, 1);
    let reader = account(&mut users, 1);
    assert_eq!(borrow(&mut books, &mut users, &reader, &item), Ok(()));
    assert_eq!(books.update_stock(&item, i32::MAX), Ok(()));

    let result = give_back(&mut books, &mut users, &reader, &item);
    let error = result.unwrap_err();
    assert_eq!(error.kind(), ErrorKind::Internal);
    assert_eq!(
        error.message(),
        "book was returned but its stock could not be updated; the catalog record may be inconsistent"
    );
    assert_eq!(stock(&books, &item), i32::MAX);
    assert_eq!(borrowed(&users, &reader), Vec::<ObjectId>::new());
}

#[test]
fn returning_a_book_that_left_the_catalog_succeeds() {
    let mut books = BookRepository::new();
    let mut users = UserRepository::new();
    let item = book(&mut books, 100, 1);
    let reader = account(&mut users, 1);
    assert_eq!(borrow(&mut books, &mut users, &reader, &item), Ok(()));
    assert_eq!(books.delete_by_id(&item), Ok(()));
    assert_eq!(give_back(&mut books, &mut users, &reader, &item), Ok(()));
    assert_eq!(books.len(), 0);
    assert_eq!(borrowed(&users, &reader), Vec::<ObjectId>::new());
}

#[test]
fn stock_plus_holders_stays_the_same_through_successful_calls() {
    let mut books = BookRepository::new();
    let mut users = UserRepository::new();
    let item = book(&mut books, 100, 3);
    let other = book(&mut books, 101, 2);
    let a = account(&mut users, 1);
    let b = account(&mut users, 2);
    let c = account(&mut users, 3);

    assert_eq!(borrow(&mut books, &mut users, &a, &item), Ok(()));
    assert_eq!(stock(&books, &item), 3 - holders(&users, &item));
    assert_eq!(borrow(&mut books, &mut users, &b, &item), Ok(()));
    assert_eq!(stock(&books, &item), 3 - holders(&users, &item));
    assert_eq!(borrow(&mut books, &mut users, &b, &other), Ok(()));
    assert_eq!(stock(&books, &item), 1);
    assert_eq!(holders(&users, &item), 2);
    assert_eq!(stock(&books, &other), 1);
    assert_eq!(give_back(&mut books, &mut users, &a, &item), Ok(()));
    assert_eq!(borrow(&mut books, &mut users, &c, &item), Ok(()));
    assert_eq!(borrow(&mut books, &mut users, &a, &item), Ok(()));
    assert_eq!(stock(&books, &item), 0);
    assert_eq!(holders(&users, &item), 3);
    assert_eq!(give_back(&mut books, &mut users, &b, &item), Ok(()));
    assert_eq!(give_back(&mut books, &mut users, &c, &item), Ok(()));
    assert_eq!(give_back(&mut books, &mut users, &a, &item), Ok(()));
    assert_eq!(stock(&books, &item), 3);
    assert_eq!(holders(&users, &item), 0);
    assert_eq!(stock(&books, &other), 2 - holders(&users, &other));
}

#[test]
fn borrow_request_answers_with_the_success_message() {
    let mut books = BookRepository::new();
    let mut users = UserRepository::new();
    let item = book(&mut books, 100, 1);
    let reader = account(&mut users, 1);
    let user = AuthenticatedUser { user_id: reader.to_hex() };

    let answer = borrow_book(&user, &mut books, &mut users, &item.to_hex());
    assert_eq!(answer, Ok(Response { msg: String::from("successfully borrowed book"), data: None }));
    assert_eq!(stock(&books, &item), 0);
    assert_eq!(borrowed(&users, &reader), vec![item]);

    let answer = return_book(&user, &mut books, &mut users, &item.to_hex());
    assert_eq!(answer, Ok(Response { msg: String::from("successfully returned book"), data: None }));
    assert_eq!(stock(&books, &item), 1);
    assert_eq!(borrowed(&users, &reader), Vec::<ObjectId>::new());
}

#[test]
fn lending_requests_refuse_malformed_identifiers() {
    let mut books = BookRepository::new();
    let mut users = UserRepository::new();
    let item = book(&mut books, 100, 1);
    let reader = account(&mut users, 1);
    let user = AuthenticatedUser { user_id: reader.to_hex() };
    let stranger = AuthenticatedUser { user_id: String::from("not-an-id") };

    assert_eq!(
        borrow_book(&user, &mut books, &mut users, "xyz"),
        Err(AppError::BadRequest(String::from("invalid book id")))
    );
    assert_eq!(
        borrow_book(&stranger, &mut books, &mut users, &item.to_hex()),
        Err(AppError::BadRequest(String::from("invalid user id")))
    );
    assert_eq!(
        borrow_book(&stranger, &mut books, &mut users, "xyz"),
        Err(AppError::BadRequest(String::from("invalid book id")))
    );
    assert_eq!(
        return_book(&user, &mut books, &mut users, "0123"),
        Err(AppError::BadRequest(String::from("invalid book id")))
    );
    assert_eq!(
        return_book(&stranger, &mut books, &mut users, &item.to_hex()),
        Err(AppError::BadRequest(String::from("invalid user id")))
    );
    assert_eq!(stock(&books, &item), 1);
    assert_eq!(borrowed(&users, &reader), Vec::<ObjectId>::new());
}

#[test]
fn return_request_for_a_book_not_held_is_a_bad_request() {
    let mut books = BookRepository::new();
    let mut users = UserRepository::new();
    let item = book(&mut books, 100, 1);
    let reader = account(&mut users, 1);
    let user = AuthenticatedUser { user_id: reader.to_hex() };
    let answer = return_book(&user, &mut books, &mut users, &item.to_hex());
    assert_eq!(answer, Err(AppError::BadRequest(String::from("book not borrowed by user"))));
    assert_eq!(stock(&books, &item), 1);
}

#[test]
fn borrow_saga_walks_its_stages() {
    let (stage, action) = borrow_start();
    assert_eq!(stage, BorrowStage::Initiated);
    assert_eq!(action, BorrowAction::DecrementStock);

    let (stage, action) = borrow_step(BorrowStage::Initiated, Ok(()));
    assert_eq!(stage, BorrowStage::StockAdjusted);
    assert_eq!(action, BorrowAction::AddLoan);

    let (stage, action) = borrow_step(BorrowStage::StockAdjusted, Ok(()));
    assert_eq!(stage, BorrowStage::Registered);
    assert_eq!(action, BorrowAction::Finish(Ok(())));
}

#[test]
fn borrow_saga_rejects_when_the_first_step_fails() {
    let failure = AppError::BadRequest(String::from("no stock available"));
    let (stage, action) = borrow_step(BorrowStage::Initiated, Err(failure.clone()));
    assert_eq!(stage, BorrowStage::Rejected);
    assert_eq!(action, BorrowAction::Finish(Err(failure)));
}

#[test]
fn borrow_saga_compensates_when_the_second_step_fails() {
    let domain = AppError::BadRequest(String::from("borrow limit reached"));
    let (stage, action) = borrow_step(BorrowStage::StockAdjusted, Err(domain.clone()));
    assert_eq!(stage, BorrowStage::CompensatedRollback);
    assert_eq!(action, BorrowAction::RestoreStock(domain));

    let transport = AppError::Internal(String::from("connection reset"));
    let (stage, action) = borrow_step(BorrowStage::StockAdjusted, Err(transport.clone()));
    assert_eq!(stage, BorrowStage::CompensatedRollback);
    assert_eq!(action, BorrowAction::RestoreStock(transport));
}

#[test]
fn finished_borrow_stays_where_it_is() {
    let late = AppError::Internal(String::from("late"));
    for stage in [BorrowStage::Registered, BorrowStage::CompensatedRollback, BorrowStage::Rejected] {
        assert_eq!(borrow_step(stage, Ok(())), (stage, BorrowAction::Finish(Ok(()))));
        assert_eq!(borrow_step(stage, Err(late.clone())), (stage, BorrowAction::Finish(Err(late.clone()))));
    }
}

#[test]
fn return_saga_walks_its_stages() {
    let (stage, action) = return_start();
    assert_eq!(stage, ReturnStage::Initiated);
    assert_eq!(action, ReturnAction::RemoveLoan);

    let (stage, action) = return_step(ReturnStage::Initiated, Ok(()));
    assert_eq!(stage, ReturnStage::LoanRemoved);
    assert_eq!(action, ReturnAction::IncrementStock);

    let (stage, action) = return_step(ReturnStage::LoanRemoved, Ok(()));
    assert_eq!(stage, ReturnStage::Completed);
    assert_eq!(action, ReturnAction::Finish(Ok(())));
}

#[test]
fn return_saga_stops_before_the_stock_when_the_loan_is_missing() {
    let failure = AppError::BadRequest(String::from("book not borrowed by user"));
    let (stage, action) = return_step(ReturnStage::Initiated, Err(failure.clone()));
    assert_eq!(stage, ReturnStage::Rejected);
    assert_eq!(action, ReturnAction::Finish(Err(failure)));
}

#[test]
fn return_saga_reports_an_internal_error_when_the_stock_step_fails() {
    let transport = AppError::NotFound(String::from("whatever the store said"));
    let (stage, action) = return_step(ReturnStage::LoanRemoved, Err(transport));
    assert_eq!(stage, ReturnStage::StockNotRestored);
    assert_eq!(
        action,
        ReturnAction::Finish(Err(AppError::Internal(String::from(
            "book was returned but its stock could not be updated; the catalog record may be inconsistent"
        ))))
    );
}

#[test]
fn finished_return_stays_where_it_is() {
    let late = AppError::Internal(String::from("late"));
    for stage in [ReturnStage::Completed, ReturnStage::StockNotRestored, ReturnStage::Rejected] {
        assert_eq!(return_step(stage, Ok(())), (stage, ReturnAction::Finish(Ok(()))));
        assert_eq!(return_step(stage, Err(late.clone())), (stage, ReturnAction::Finish(Err(late.clone()))));
    }
}
