//! What holds of every run of borrows and returns.

use crate::constants::{
    ALREADY_BORROWED, BORROW_LIMIT_REACHED, MAX_BORROWED_BOOKS, NOT_BORROWED_BY_USER, NO_STOCK_AVAILABLE,
};
use crate::database::books::{
    book_position, catalog_wf, decrement_outcome, has_book, ledger_decrement, ledger_increment, lemma_position_unique,
    lemma_replace_wf, stock_of,
};
use crate::database::users::{
    find_user, holds, lemma_own_email_not_taken, lemma_replace_user_wf, lemma_user_position_unique,
    registry_remove, user_position, users_wf,
};
use crate::errors::{bad_request, ErrorView};
use crate::lending::{
    borrow_books, borrow_outcome, borrow_users, lemma_increment_undoes_decrement, return_books, return_outcome,
    return_users,
};
use crate::models::book::BookView;
use crate::models::user::{loans_wf, UserView};
use crate::oid::ObjectId;
use crate::rules::without_loan;
use vstd::prelude::*;

verus! {

/// The records of the service: the catalog and the accounts.
pub struct Library {
    pub books: Seq<BookView>,
    pub users: Seq<UserView>,
}

impl Library {
    pub open spec fn wf(self) -> bool {
        catalog_wf(self.books) && users_wf(self.users)
    }
}

/// A call of the lending service.
pub enum LendingCall {
    Borrow { user: ObjectId, book: ObjectId },
    Return { user: ObjectId, book: ObjectId },
}

/// What a call answers.
pub open spec fn call_outcome(library: Library, call: LendingCall) -> Result<(), ErrorView> {
    match call {
        LendingCall::Borrow { user, book } => borrow_outcome(library.books, library.users, user, book),
        LendingCall::Return { user, book } => return_outcome(library.books, library.users, user, book),
    }
}

/// The records after a call.
pub open spec fn after_call(library: Library, call: LendingCall) -> Library {
    match call {
        LendingCall::Borrow { user, book } => Library {
            books: borrow_books(library.books, library.users, user, book),
            users: borrow_users(library.books, library.users, user, book),
        },
        LendingCall::Return { user, book } => Library {
            books: return_books(library.books, library.users, user, book),
            users: return_users(library.users, user, book),
        },
    }
}

/// The records after a sequence of calls, one after the other.
pub open spec fn after_calls(library: Library, calls: Seq<LendingCall>) -> Library
    decreases calls.len(),
{
    if calls.len() == 0 {
        library
    } else {
        after_call(after_calls(library, calls.drop_last()), calls.last())
    }
}

/// Whether every call of a sequence succeeds, one after the other.
pub open spec fn all_succeed(library: Library, calls: Seq<LendingCall>) -> bool
    decreases calls.len(),
{
    calls.len() == 0 || (all_succeed(library, calls.drop_last()) && call_outcome(
        after_calls(library, calls.drop_last()),
        calls.last(),
    ) is Ok)
}

/// How many accounts hold a book.
pub open spec fn holders(users: Seq<UserView>, book: ObjectId) -> nat
    decreases users.len(),
{
    if users.len() == 0 {
        0
    } else {
        holders(users.drop_last(), book) + if users.last().borrowed.contains(book) {
            1nat
        } else {
            0nat
        }
    }
}

/// The copies of a book that the records account for: those in stock and
/// those on loan.
pub open spec fn copies(library: Library, book: ObjectId) -> int {
    stock_of(library.books, book) + holders(library.users, book)
}

proof fn lemma_holders_update(users: Seq<UserView>, i: int, user: UserView, book: ObjectId)
    requires
        0 <= i < users.len(),
    ensures
        holders(users.update(i, user), book) == holders(users, book) - (if users[i].borrowed.contains(book) {
            1int
        } else {
            0int
        }) + (if user.borrowed.contains(book) {
            1int
        } else {
            0int
        }),
    decreases users.len(),
{
    let after = users.update(i, user);
    if i == users.len() - 1 {
        assert(after.drop_last() =~= users.drop_last());
    } else {
        assert(after.drop_last() =~= users.drop_last().update(i, user));
        lemma_holders_update(users.drop_last(), i, user, book);
    }
}

/// A valid list of loans without one of its books is valid, lacks that book,
/// and holds the others as before.
pub proof fn lemma_without_loan(borrowed: Seq<ObjectId>, book: ObjectId)
    requires
        loans_wf(borrowed),
        borrowed.contains(book),
    ensures
        loans_wf(without_loan(borrowed, book)),
        !without_loan(borrowed, book).contains(book),
        without_loan(borrowed, book).len() == borrowed.len() - 1,
        forall|other: ObjectId| other != book ==> without_loan(borrowed, book).contains(other) == borrowed.contains(other),
{
    let k = borrowed.index_of(book);
    let after = borrowed.remove(k);
    assert(borrowed[k] == book);
    assert forall|a: int, b: int| 0 <= a < after.len() && 0 <= b < after.len() && a != b implies after[a] != after[b] by {
        let a0 = if a < k { a } else { a + 1 };
        let b0 = if b < k { b } else { b + 1 };
        assert(borrowed[a0] != borrowed[b0]);
    }
    if after.contains(book) {
        let a = choose|a: int| 0 <= a < after.len() && after[a] == book;
        let a0 = if a < k { a } else { a + 1 };
        assert(borrowed[a0] == book);
        assert(borrowed[a0] != borrowed[k]);
    }
    assert forall|other: ObjectId| other != book implies after.contains(other) == borrowed.contains(other) by {
        if borrowed.contains(other) {
            let j = choose|j: int| 0 <= j < borrowed.len() && borrowed[j] == other;
            let j1 = if j < k { j } else { j - 1 };
            assert(after[j1] == other);
        }
        if after.contains(other) {
            let a = choose|a: int| 0 <= a < after.len() && after[a] == other;
            let a0 = if a < k { a } else { a + 1 };
            assert(borrowed[a0] == other);
        }
    }
}

/// A valid list of loans with a book it lacks, below the limit, is valid.
pub proof fn lemma_with_loan(borrowed: Seq<ObjectId>, book: ObjectId)
    requires
        loans_wf(borrowed),
        !borrowed.contains(book),
        borrowed.len() < MAX_BORROWED_BOOKS,
    ensures
        loans_wf(borrowed.push(book)),
        forall|other: ObjectId| borrowed.push(book).contains(other) == (other == book || borrowed.contains(other)),
{
    let after = borrowed.push(book);
    assert forall|a: int, b: int| 0 <= a < after.len() && 0 <= b < after.len() && a != b implies after[a] != after[b] by {
        if a < borrowed.len() && b < borrowed.len() {
            assert(borrowed[a] != borrowed[b]);
        } else if a < borrowed.len() {
            assert(borrowed.contains(borrowed[a]));
        } else {
            assert(borrowed.contains(borrowed[b]));
        }
    }
    assert forall|other: ObjectId| after.contains(other) == (other == book || borrowed.contains(other)) by {
        if borrowed.contains(other) {
            let j = choose|j: int| 0 <= j < borrowed.len() && borrowed[j] == other;
            assert(after[j] == other);
        }
        if other == book {
            assert(after[borrowed.len() as int] == book);
        }
        if after.contains(other) {
            let a = choose|a: int| 0 <= a < after.len() && after[a] == other;
            if a < borrowed.len() {
                assert(borrowed[a] == other);
            }
        }
    }
}

/// Valid records stay valid through every call, whether it succeeds or
/// fails: no book occurs twice in an account's list, no account holds more
/// than eight, and no stock is negative.
pub proof fn lemma_call_keeps_valid(library: Library, call: LendingCall)
    requires
        library.wf(),
    ensures
        after_call(library, call).wf(),
        forall|book: ObjectId| has_book(after_call(library, call).books, book) == has_book(library.books, book),
{
    let books = library.books;
    let users = library.users;
    match call {
        LendingCall::Borrow { user, book } => {
            if borrow_outcome(books, users, user, book) is Ok {
                let i = book_position(books, book);
                assert(books[i].id == book);
                lemma_position_unique(books, i);
                lemma_replace_wf(books, book, books[i].with_stock(books[i].stock - 1));
                let u = find_user(users, user).unwrap();
                let j = user_position(users, user);
                assert(users[j].id == user);
                lemma_user_position_unique(users, j);
                lemma_with_loan(u.borrowed, book);
                lemma_own_email_not_taken(users, j);
                lemma_replace_user_wf(users, user, u.with_borrowed(u.borrowed.push(book)));
                lemma_same_books(books, ledger_decrement(books, book), book);
            }
        },
        LendingCall::Return { user, book } => {
            if holds(users, user, book) {
                let u = find_user(users, user).unwrap();
                let j = user_position(users, user);
                assert(users[j].id == user);
                lemma_user_position_unique(users, j);
                lemma_without_loan(u.borrowed, book);
                lemma_own_email_not_taken(users, j);
                lemma_replace_user_wf(users, user, u.with_borrowed(without_loan(u.borrowed, book)));
                if has_book(books, book) && stock_of(books, book) < i32::MAX {
                    let i = book_position(books, book);
                    assert(books[i].id == book);
                    lemma_position_unique(books, i);
                    lemma_replace_wf(books, book, books[i].with_stock(books[i].stock + 1));
                }
                lemma_same_books(books, ledger_increment(books, book), book);
            }
        },
    }
}

/// A change of one book's stock adds no book and removes none.
proof fn lemma_same_books(books: Seq<BookView>, after: Seq<BookView>, id: ObjectId)
    requires
        catalog_wf(books),
        after == books || (has_book(books, id) && exists|stock: int|
            0 <= stock <= i32::MAX && after == books.update(
                book_position(books, id),
                books[book_position(books, id)].with_stock(stock),
            )),
    ensures
        forall|other: ObjectId| has_book(after, other) == has_book(books, other),
{
    assert forall|other: ObjectId| has_book(after, other) == has_book(books, other) by {
        if after != books {
            let i = book_position(books, id);
            if has_book(books, other) {
                let k = book_position(books, other);
                assert(after[k].id == other);
            }
            if has_book(after, other) {
                let k = book_position(after, other);
                assert(after[k].id == other);
                assert(books[k].id == other);
            }
        }
    }
}

/// A successful call neither makes nor loses a copy of any book of the
/// catalog: what it takes from the stock it adds to the loans, and back.
pub proof fn lemma_call_conserves_copies(library: Library, call: LendingCall, book: ObjectId)
    requires
        library.wf(),
        has_book(library.books, book),
        call_outcome(library, call) is Ok,
    ensures
        copies(after_call(library, call), book) == copies(library, book),
{
    let books = library.books;
    let users = library.users;
    match call {
        LendingCall::Borrow { user, book: taken } => {
            let i = book_position(books, taken);
            assert(books[i].id == taken);
            lemma_position_unique(books, i);
            lemma_replace_wf(books, taken, books[i].with_stock(books[i].stock - 1));
            let u = find_user(users, user).unwrap();
            let j = user_position(users, user);
            assert(users[j].id == user);
            lemma_user_position_unique(users, j);
            lemma_with_loan(u.borrowed, taken);
            lemma_holders_update(users, j, u.with_borrowed(u.borrowed.push(taken)), book);
        },
        LendingCall::Return { user, book: given } => {
            let u = find_user(users, user).unwrap();
            let j = user_position(users, user);
            assert(users[j].id == user);
            lemma_user_position_unique(users, j);
            lemma_without_loan(u.borrowed, given);
            lemma_holders_update(users, j, u.with_borrowed(without_loan(u.borrowed, given)), book);
            if has_book(books, given) {
                let i = book_position(books, given);
                assert(books[i].id == given);
                lemma_position_unique(books, i);
                lemma_replace_wf(books, given, books[i].with_stock(books[i].stock + 1));
            }
        },
    }
}

/// After any sequence of successful borrows and returns, the stock of a book
/// of the catalog is what it was at the start, less the accounts that have
/// come to hold it: stock and holders together never change. Where no
/// account held the book at the start, the stock is the first stock less
/// the number of accounts that hold the book now.
pub proof fn lemma_stock_matches_loans(library: Library, calls: Seq<LendingCall>, book: ObjectId)
    requires
        library.wf(),
        has_book(library.books, book),
        all_succeed(library, calls),
    ensures
        after_calls(library, calls).wf(),
        has_book(after_calls(library, calls).books, book),
        copies(after_calls(library, calls), book) == copies(library, book),
        holders(library.users, book) == 0 ==> stock_of(after_calls(library, calls).books, book) == stock_of(
            library.books,
            book,
        ) - holders(after_calls(library, calls).users, book),
    decreases calls.len(),
{
    if calls.len() > 0 {
        lemma_stock_matches_loans(library, calls.drop_last(), book);
        let before = after_calls(library, calls.drop_last());
        lemma_call_keeps_valid(before, calls.last());
        lemma_call_conserves_copies(before, calls.last(), book);
    }
}

/// A return undoes a borrow: after a successful borrow, the same account can
/// return the book, and the records are then what they were before the
/// borrow.
pub proof fn lemma_return_undoes_borrow(library: Library, user: ObjectId, book: ObjectId)
    requires
        library.wf(),
        call_outcome(library, LendingCall::Borrow { user, book }) is Ok,
    ensures
        call_outcome(after_call(library, LendingCall::Borrow { user, book }), LendingCall::Return { user, book }) is Ok,
        after_call(after_call(library, LendingCall::Borrow { user, book }), LendingCall::Return { user, book })
            == library,
{
    let books = library.books;
    let users = library.users;
    let lent = after_call(library, LendingCall::Borrow { user, book });
    lemma_increment_undoes_decrement(books, book);
    let j = user_position(users, user);
    assert(users[j].id == user);
    lemma_user_position_unique(users, j);
    let u = users[j];
    let held = u.borrowed.push(book);
    lemma_with_loan(u.borrowed, book);
    lemma_own_email_not_taken(users, j);
    lemma_replace_user_wf(users, user, u.with_borrowed(held));
    assert(lent.users == users.update(j, u.with_borrowed(held)));
    lemma_user_position_unique(lent.users, j);
    assert(held.contains(book)) by {
        assert(held[u.borrowed.len() as int] == book);
    }
    let k = held.index_of(book);
    assert(held[k] == book);
    if k < u.borrowed.len() {
        assert(u.borrowed[k] == book);
        assert(u.borrowed.contains(book));
    }
    assert(held.remove(k) =~= u.borrowed);
    assert(registry_remove(lent.users, user, book) =~= users);
}

/// Of two attempts to take the last copy of a book, the first succeeds and
/// the second fails: the guarded decrement never lowers the stock below
/// zero.
pub proof fn lemma_last_copy_is_taken_once(books: Seq<BookView>, book: ObjectId)
    requires
        catalog_wf(books),
        stock_of(books, book) == 1,
    ensures
        decrement_outcome(books, book) is Ok,
        stock_of(ledger_decrement(books, book), book) == 0,
        decrement_outcome(ledger_decrement(books, book), book) == Err::<(), ErrorView>(
            bad_request(NO_STOCK_AVAILABLE@),
        ),
        ledger_decrement(ledger_decrement(books, book), book) == ledger_decrement(books, book),
{
    let i = book_position(books, book);
    assert(books[i].id == book);
    lemma_position_unique(books, i);
    lemma_replace_wf(books, book, books[i].with_stock(0));
}

/// Borrowing a book without stock fails with "no stock available" and
/// changes nothing.
pub proof fn lemma_borrow_without_stock(library: Library, user: ObjectId, book: ObjectId)
    requires
        stock_of(library.books, book) == 0,
    ensures
        borrow_outcome(library.books, library.users, user, book) == Err::<(), ErrorView>(
            bad_request(NO_STOCK_AVAILABLE@),
        ),
        after_call(library, LendingCall::Borrow { user, book }) == library,
{
}

/// Borrowing a book that the account holds already fails and changes
/// nothing; where a copy is in stock, the error is "already borrowed".
pub proof fn lemma_borrow_held_book(library: Library, user: ObjectId, book: ObjectId)
    requires
        holds(library.users, user, book),
    ensures
        borrow_outcome(library.books, library.users, user, book) is Err,
        stock_of(library.books, book) > 0 ==> borrow_outcome(library.books, library.users, user, book) == Err::<
            (),
            ErrorView,
        >(bad_request(ALREADY_BORROWED@)),
        after_call(library, LendingCall::Borrow { user, book }) == library,
{
}

/// An account that holds eight books cannot borrow a ninth: the call fails
/// and changes nothing, the stock of the ninth book included; where a copy
/// is in stock and the account does not hold the book, the error is "borrow
/// limit reached".
pub proof fn lemma_borrow_over_limit(library: Library, user: ObjectId, book: ObjectId)
    requires
        find_user(library.users, user) matches Some(u) && u.borrowed.len() >= MAX_BORROWED_BOOKS,
    ensures
        borrow_outcome(library.books, library.users, user, book) is Err,
        stock_of(library.books, book) > 0 && !holds(library.users, user, book) ==> borrow_outcome(
            library.books,
            library.users,
            user,
            book,
        ) == Err::<(), ErrorView>(bad_request(BORROW_LIMIT_REACHED@)),
        after_call(library, LendingCall::Borrow { user, book }) == library,
{
}

/// Returning a book that the account does not hold fails with "book not
/// borrowed by user" and changes nothing: the stock is not raised.
pub proof fn lemma_return_unheld_book(library: Library, user: ObjectId, book: ObjectId)
    requires
        !holds(library.users, user, book),
    ensures
        return_outcome(library.books, library.users, user, book) == Err::<(), ErrorView>(
            bad_request(NOT_BORROWED_BY_USER@),
        ),
        after_call(library, LendingCall::Return { user, book }) == library,
{
}

} // verus!
