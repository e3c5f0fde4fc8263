//! Borrowing and returning a book: two records change, first one, then the
//! other, and a failed second step is compensated where it can be.
//!
//! The steps are decided here and performed by whoever holds the records:
//! `borrow_step` and `return_step` take the stage a lending event is in and
//! the result of the action just performed, and give the next stage and the
//! action to perform. `borrow` and `give_back` run the steps on the records
//! in memory.

use crate::constants::{NOT_BORROWED_BY_USER, NO_STOCK_AVAILABLE, STOCK_NOT_RESTORED};
use crate::database::books::{
    book_position, can_increment, catalog_wf, ledger_decrement, ledger_increment, lemma_position_unique,
    lemma_replace_wf, stock_of, BookRepository,
};
use crate::database::users::{add_loan_outcome, holds, registry_add, registry_remove, UserRepository};
use crate::errors::{bad_request, internal, outcome, AppError, ErrorView};
use crate::models::book::BookView;
use crate::models::user::UserView;
use crate::oid::ObjectId;
use vstd::prelude::*;

verus! {

/// Where a borrow stands.
#[derive(Clone, Copy, Debug, PartialEq, Eq, Structural)]
pub enum BorrowStage {
    /// Nothing has been done.
    Initiated,
    /// A copy has been taken from the stock.
    StockAdjusted,
    /// The loan is recorded: the borrow succeeded.
    Registered,
    /// Recording the loan failed and the copy is being put back: the
    /// borrow failed.
    CompensatedRollback,
    /// No copy could be taken: the borrow failed with nothing done.
    Rejected,
}

/// What to do next in a borrow.
#[derive(Debug, PartialEq, Eq)]
pub enum BorrowAction {
    /// Take a copy from the stock, if one is left.
    DecrementStock,
    /// Record the loan on the account.
    AddLoan,
    /// Put the copy back, once, and then answer with this error whether or
    /// not that worked.
    RestoreStock(AppError),
    /// Answer.
    Finish(Result<(), AppError>),
}

/// A borrow action as a plain value.
pub enum BorrowActionView {
    DecrementStock,
    AddLoan,
    RestoreStock(ErrorView),
    Finish(Result<(), ErrorView>),
}

impl View for BorrowAction {
    type V = BorrowActionView;

    open spec fn view(&self) -> BorrowActionView {
        match self {
            BorrowAction::DecrementStock => BorrowActionView::DecrementStock,
            BorrowAction::AddLoan => BorrowActionView::AddLoan,
            BorrowAction::RestoreStock(e) => BorrowActionView::RestoreStock(e@),
            BorrowAction::Finish(r) => BorrowActionView::Finish(outcome(*r)),
        }
    }
}

/// The borrow saga: stock first, registry second, and a failed second step
/// puts the copy back. A finished borrow stays where it is.
pub open spec fn borrow_transition(stage: BorrowStage, event: Result<(), ErrorView>) -> (
    BorrowStage,
    BorrowActionView,
) {
    match (stage, event) {
        (BorrowStage::Initiated, Ok(_)) => (BorrowStage::StockAdjusted, BorrowActionView::AddLoan),
        (BorrowStage::Initiated, Err(e)) => (BorrowStage::Rejected, BorrowActionView::Finish(Err(e))),
        (BorrowStage::StockAdjusted, Ok(_)) => (BorrowStage::Registered, BorrowActionView::Finish(Ok(()))),
        (BorrowStage::StockAdjusted, Err(e)) => (
            BorrowStage::CompensatedRollback,
            BorrowActionView::RestoreStock(e),
        ),
        (done, event) => (done, BorrowActionView::Finish(event)),
    }
}

/// The stage a borrow starts in, and its first action.
pub fn borrow_start() -> (r: (BorrowStage, BorrowAction))
    ensures
        r.0 == BorrowStage::Initiated,
        r.1@ == BorrowActionView::DecrementStock,
{
    (BorrowStage::Initiated, BorrowAction::DecrementStock)
}

/// The next stage of a borrow and the action to perform, given the result of
/// the action just performed.
pub fn borrow_step(stage: BorrowStage, event: Result<(), AppError>) -> (r: (BorrowStage, BorrowAction))
    ensures
        (r.0, r.1@) == borrow_transition(stage, outcome(event)),
{
    match stage {
        BorrowStage::Initiated => match event {
            Ok(()) => (BorrowStage::StockAdjusted, BorrowAction::AddLoan),
            Err(e) => (BorrowStage::Rejected, BorrowAction::Finish(Err(e))),
        },
        BorrowStage::StockAdjusted => match event {
            Ok(()) => (BorrowStage::Registered, BorrowAction::Finish(Ok(()))),
            Err(e) => (BorrowStage::CompensatedRollback, BorrowAction::RestoreStock(e)),
        },
        BorrowStage::Registered => (BorrowStage::Registered, BorrowAction::Finish(event)),
        BorrowStage::CompensatedRollback => (BorrowStage::CompensatedRollback, BorrowAction::Finish(event)),
        BorrowStage::Rejected => (BorrowStage::Rejected, BorrowAction::Finish(event)),
    }
}

/// Where a return stands.
#[derive(Clone, Copy, Debug, PartialEq, Eq, Structural)]
pub enum ReturnStage {
    /// Nothing has been done.
    Initiated,
    /// The loan has left the account's list.
    LoanRemoved,
    /// The copy is back in the stock: the return succeeded.
    Completed,
    /// The loan is gone but the stock could not be raised: the return
    /// failed and the catalog counts one copy too few.
    StockNotRestored,
    /// The account does not hold the book: the return failed with nothing
    /// done.
    Rejected,
}

/// What to do next in a return.
#[derive(Debug, PartialEq, Eq)]
pub enum ReturnAction {
    /// Remove the loan from the account, if it is there.
    RemoveLoan,
    /// Put the copy back into the stock.
    IncrementStock,
    /// Answer.
    Finish(Result<(), AppError>),
}

/// A return action as a plain value.
pub enum ReturnActionView {
    RemoveLoan,
    IncrementStock,
    Finish(Result<(), ErrorView>),
}

impl View for ReturnAction {
    type V = ReturnActionView;

    open spec fn view(&self) -> ReturnActionView {
        match self {
            ReturnAction::RemoveLoan => ReturnActionView::RemoveLoan,
            ReturnAction::IncrementStock => ReturnActionView::IncrementStock,
            ReturnAction::Finish(r) => ReturnActionView::Finish(outcome(*r)),
        }
    }
}

/// The return saga: registry first, stock second. A failed first step stops
/// the return before the stock is touched; a failed second step is reported
/// as a storage failure, whatever it was, and is not compensated. A finished
/// return stays where it is.
pub open spec fn return_transition(stage: ReturnStage, event: Result<(), ErrorView>) -> (
    ReturnStage,
    ReturnActionView,
) {
    match (stage, event) {
        (ReturnStage::Initiated, Ok(_)) => (ReturnStage::LoanRemoved, ReturnActionView::IncrementStock),
        (ReturnStage::Initiated, Err(e)) => (ReturnStage::Rejected, ReturnActionView::Finish(Err(e))),
        (ReturnStage::LoanRemoved, Ok(_)) => (ReturnStage::Completed, ReturnActionView::Finish(Ok(()))),
        (ReturnStage::LoanRemoved, Err(_)) => (
            ReturnStage::StockNotRestored,
            ReturnActionView::Finish(Err(internal(STOCK_NOT_RESTORED@))),
        ),
        (done, event) => (done, ReturnActionView::Finish(event)),
    }
}

/// The stage a return starts in, and its first action.
pub fn return_start() -> (r: (ReturnStage, ReturnAction))
    ensures
        r.0 == ReturnStage::Initiated,
        r.1@ == ReturnActionView::RemoveLoan,
{
    (ReturnStage::Initiated, ReturnAction::RemoveLoan)
}

/// The next stage of a return and the action to perform, given the result of
/// the action just performed.
pub fn return_step(stage: ReturnStage, event: Result<(), AppError>) -> (r: (ReturnStage, ReturnAction))
    ensures
        (r.0, r.1@) == return_transition(stage, outcome(event)),
{
    match stage {
        ReturnStage::Initiated => match event {
            Ok(()) => (ReturnStage::LoanRemoved, ReturnAction::IncrementStock),
            Err(e) => (ReturnStage::Rejected, ReturnAction::Finish(Err(e))),
        },
        ReturnStage::LoanRemoved => match event {
            Ok(()) => (ReturnStage::Completed, ReturnAction::Finish(Ok(()))),
            Err(_) => (
                ReturnStage::StockNotRestored,
                ReturnAction::Finish(Err(AppError::internal(STOCK_NOT_RESTORED))),
            ),
        },
        ReturnStage::Completed => (ReturnStage::Completed, ReturnAction::Finish(event)),
        ReturnStage::StockNotRestored => (ReturnStage::StockNotRestored, ReturnAction::Finish(event)),
        ReturnStage::Rejected => (ReturnStage::Rejected, ReturnAction::Finish(event)),
    }
}

/// What a borrow answers: it needs a copy in stock, an account that exists,
/// does not hold the book and holds fewer than eight.
pub open spec fn borrow_outcome(books: Seq<BookView>, users: Seq<UserView>, user: ObjectId, book: ObjectId) -> Result<
    (),
    ErrorView,
> {
    if stock_of(books, book) <= 0 {
        Err(bad_request(NO_STOCK_AVAILABLE@))
    } else {
        add_loan_outcome(users, user, book)
    }
}

/// The catalog after a borrow: one copy less where the borrow succeeds, and
/// unchanged where it fails.
pub open spec fn borrow_books(books: Seq<BookView>, users: Seq<UserView>, user: ObjectId, book: ObjectId) -> Seq<
    BookView,
> {
    if borrow_outcome(books, users, user, book) is Ok {
        ledger_decrement(books, book)
    } else {
        books
    }
}

/// The accounts after a borrow: the book joins the account's list where the
/// borrow succeeds, and nothing changes where it fails.
pub open spec fn borrow_users(books: Seq<BookView>, users: Seq<UserView>, user: ObjectId, book: ObjectId) -> Seq<
    UserView,
> {
    if borrow_outcome(books, users, user, book) is Ok {
        registry_add(users, user, book)
    } else {
        users
    }
}

/// What a return answers: the account must hold the book, and the stock
/// must be able to take the copy back.
pub open spec fn return_outcome(books: Seq<BookView>, users: Seq<UserView>, user: ObjectId, book: ObjectId) -> Result<
    (),
    ErrorView,
> {
    if !holds(users, user, book) {
        Err(bad_request(NOT_BORROWED_BY_USER@))
    } else if !can_increment(books, book) {
        Err(internal(STOCK_NOT_RESTORED@))
    } else {
        Ok(())
    }
}

/// The catalog after a return: one copy more where the account held the
/// book, and untouched where it did not.
pub open spec fn return_books(books: Seq<BookView>, users: Seq<UserView>, user: ObjectId, book: ObjectId) -> Seq<
    BookView,
> {
    if holds(users, user, book) {
        ledger_increment(books, book)
    } else {
        books
    }
}

/// The accounts after a return: the book leaves the account's list where the
/// account held it.
pub open spec fn return_users(users: Seq<UserView>, user: ObjectId, book: ObjectId) -> Seq<UserView> {
    registry_remove(users, user, book)
}

/// Putting a copy back undoes taking it.
pub proof fn lemma_increment_undoes_decrement(books: Seq<BookView>, id: ObjectId)
    requires
        catalog_wf(books),
        stock_of(books, id) > 0,
    ensures
        can_increment(ledger_decrement(books, id), id),
        ledger_increment(ledger_decrement(books, id), id) == books,
{
    let i = book_position(books, id);
    let stock = stock_of(books, id);
    assert(books[i].id == id);
    lemma_position_unique(books, i);
    let taken = ledger_decrement(books, id);
    lemma_replace_wf(books, id, books[i].with_stock(stock - 1));
    assert(taken == books.update(i, books[i].with_stock(stock - 1)));
    lemma_position_unique(taken, i);
    assert(ledger_increment(taken, id) =~= books);
}

/// How many steps a borrow in this stage can still take.
pub open spec fn borrow_steps_left(stage: BorrowStage) -> nat {
    match stage {
        BorrowStage::Initiated => 2,
        BorrowStage::StockAdjusted => 1,
        _ => 0,
    }
}

/// What holds of a borrow in each stage: which action is pending, and what
/// has become of the records since the borrow began.
pub open spec fn borrow_progress(
    books0: Seq<BookView>,
    users0: Seq<UserView>,
    user: ObjectId,
    book: ObjectId,
    stage: BorrowStage,
    action: BorrowActionView,
    books: Seq<BookView>,
    users: Seq<UserView>,
) -> bool {
    match stage {
        BorrowStage::Initiated => {
            &&& action == BorrowActionView::DecrementStock
            &&& books == books0
            &&& users == users0
        },
        BorrowStage::StockAdjusted => {
            &&& action == BorrowActionView::AddLoan
            &&& stock_of(books0, book) > 0
            &&& books == ledger_decrement(books0, book)
            &&& users == users0
        },
        BorrowStage::Registered => {
            &&& action == BorrowActionView::Finish(Ok(()))
            &&& borrow_outcome(books0, users0, user, book) is Ok
            &&& books == ledger_decrement(books0, book)
            &&& users == registry_add(users0, user, book)
        },
        BorrowStage::CompensatedRollback => {
            &&& stock_of(books0, book) > 0
            &&& add_loan_outcome(users0, user, book) matches Err(e) && action == BorrowActionView::RestoreStock(e)
            &&& books == ledger_decrement(books0, book)
            &&& users == users0
        },
        BorrowStage::Rejected => {
            &&& action == BorrowActionView::Finish(Err(bad_request(NO_STOCK_AVAILABLE@)))
            &&& stock_of(books0, book) <= 0
            &&& books == books0
            &&& users == users0
        },
    }
}

/// Lends a book to an account. The stock is lowered first; where the loan
/// cannot be recorded, the copy is put back and the registry's error is
/// returned. A failed borrow leaves every record as it was.
pub fn borrow(
    book_repo: &mut BookRepository,
    user_repo: &mut UserRepository,
    user_id: &ObjectId,
    book_id: &ObjectId,
) -> (r: Result<(), AppError>)
    ensures
        outcome(r) == borrow_outcome(old(book_repo)@, old(user_repo)@, *user_id, *book_id),
        final(book_repo)@ == borrow_books(old(book_repo)@, old(user_repo)@, *user_id, *book_id),
        final(user_repo)@ == borrow_users(old(book_repo)@, old(user_repo)@, *user_id, *book_id),
{
    proof {
        use_type_invariant(&*book_repo);
    }
    let start = borrow_start();
    let mut stage = start.0;
    let mut action = start.1;
    loop
        invariant
            catalog_wf(old(book_repo)@),
            borrow_progress(
                old(book_repo)@,
                old(user_repo)@,
                *user_id,
                *book_id,
                stage,
                action@,
                book_repo@,
                user_repo@,
            ),
        decreases borrow_steps_left(stage),
    {
        let event = match action {
            BorrowAction::DecrementStock => book_repo.borrow_book(book_id),
            BorrowAction::AddLoan => user_repo.add_borrowed_book(user_id, book_id),
            BorrowAction::RestoreStock(e) => {
                proof {
                    lemma_increment_undoes_decrement(old(book_repo)@, *book_id);
                }
                let _ = book_repo.return_book(book_id);
                return Err(e);
            },
            BorrowAction::Finish(result) => {
                return result;
            },
        };
        let next = borrow_step(stage, event);
        stage = next.0;
        action = next.1;
    }
}

/// How many steps a return in this stage can still take.
pub open spec fn return_steps_left(stage: ReturnStage) -> nat {
    match stage {
        ReturnStage::Initiated => 2,
        ReturnStage::LoanRemoved => 1,
        _ => 0,
    }
}

/// What holds of a return in each stage: which action is pending, and what
/// has become of the records since the return began.
pub open spec fn return_progress(
    books0: Seq<BookView>,
    users0: Seq<UserView>,
    user: ObjectId,
    book: ObjectId,
    stage: ReturnStage,
    action: ReturnActionView,
    books: Seq<BookView>,
    users: Seq<UserView>,
) -> bool {
    match stage {
        ReturnStage::Initiated => {
            &&& action == ReturnActionView::RemoveLoan
            &&& books == books0
            &&& users == users0
        },
        ReturnStage::LoanRemoved => {
            &&& action == ReturnActionView::IncrementStock
            &&& holds(users0, user, book)
            &&& books == books0
            &&& users == registry_remove(users0, user, book)
        },
        ReturnStage::Completed => {
            &&& action == ReturnActionView::Finish(Ok(()))
            &&& holds(users0, user, book)
            &&& can_increment(books0, book)
            &&& books == ledger_increment(books0, book)
            &&& users == registry_remove(users0, user, book)
        },
        ReturnStage::StockNotRestored => {
            &&& action == ReturnActionView::Finish(Err(internal(STOCK_NOT_RESTORED@)))
            &&& holds(users0, user, book)
            &&& !can_increment(books0, book)
            &&& books == books0
            &&& users == registry_remove(users0, user, book)
        },
        ReturnStage::Rejected => {
            &&& action == ReturnActionView::Finish(Err(bad_request(NOT_BORROWED_BY_USER@)))
            &&& !holds(users0, user, book)
            &&& books == books0
            &&& users == users0
        },
    }
}

/// Takes a book back from an account. The loan is removed first; where the
/// account does not hold the book, the stock is never touched. Where the
/// stock cannot be raised afterwards, the loan stays removed and the call
/// reports a storage failure.
pub fn give_back(
    book_repo: &mut BookRepository,
    user_repo: &mut UserRepository,
    user_id: &ObjectId,
    book_id: &ObjectId,
) -> (r: Result<(), AppError>)
    ensures
        outcome(r) == return_outcome(old(book_repo)@, old(user_repo)@, *user_id, *book_id),
        final(book_repo)@ == return_books(old(book_repo)@, old(user_repo)@, *user_id, *book_id),
        final(user_repo)@ == return_users(old(user_repo)@, *user_id, *book_id),
{
    let start = return_start();
    let mut stage = start.0;
    let mut action = start.1;
    loop
        invariant
            return_progress(
                old(book_repo)@,
                old(user_repo)@,
                *user_id,
                *book_id,
                stage,
                action@,
                book_repo@,
                user_repo@,
            ),
        decreases return_steps_left(stage),
    {
        let event = match action {
            ReturnAction::RemoveLoan => user_repo.remove_borrowed_book(user_id, book_id),
            ReturnAction::IncrementStock => book_repo.return_book(book_id),
            ReturnAction::Finish(result) => {
                return result;
            },
        };
        let next = return_step(stage, event);
        stage = next.0;
        action = next.1;
    }
}

} // verus!
