//! The decisions of the stock ledger and the loan registry, on plain values.
//! Whatever stores the records asks these functions what an update meant.

use crate::constants::{
    ALREADY_BORROWED, BORROW_LIMIT_REACHED, EMAIL_ALREADY_EXISTS, MAX_BORROWED_BOOKS, NEGATIVE_STOCK,
    NOT_BORROWED_BY_USER, NO_STOCK_AVAILABLE, TOKEN_VERSION_DECREASE,
};
use crate::errors::{bad_request, conflict, outcome, AppError, ErrorView};
use crate::oid::ObjectId;
use vstd::prelude::*;

verus! {

/// What a guarded decrement meant: it took a copy exactly when it changed a
/// record.
pub open spec fn decrement_verdict(modified_count: u64) -> Result<(), ErrorView> {
    if modified_count == 0 {
        Err(bad_request(NO_STOCK_AVAILABLE@))
    } else {
        Ok(())
    }
}

/// What a guarded removal of a loan meant: the book was held exactly when a
/// record changed.
pub open spec fn removal_verdict(modified_count: u64) -> Result<(), ErrorView> {
    if modified_count == 0 {
        Err(bad_request(NOT_BORROWED_BY_USER@))
    } else {
        Ok(())
    }
}

/// Whether an account that holds `borrowed` may take `book` as well: not a
/// book it holds already, and not a ninth one.
pub open spec fn new_loan_verdict(borrowed: Seq<ObjectId>, book: ObjectId) -> Result<(), ErrorView> {
    if borrowed.contains(book) {
        Err(bad_request(ALREADY_BORROWED@))
    } else if borrowed.len() >= MAX_BORROWED_BOOKS {
        Err(bad_request(BORROW_LIMIT_REACHED@))
    } else {
        Ok(())
    }
}

/// Whether a count of copies may be stored: it must not be negative.
pub open spec fn restock_verdict(stock: int) -> Result<(), ErrorView> {
    if stock < 0 {
        Err(bad_request(NEGATIVE_STOCK@))
    } else {
        Ok(())
    }
}

/// Whether an email address may be given to an account: no other account
/// may have it.
pub open spec fn free_email_verdict(taken: bool) -> Result<(), ErrorView> {
    if taken {
        Err(conflict(EMAIL_ALREADY_EXISTS@))
    } else {
        Ok(())
    }
}

/// Whether a token version may replace the stored one: the version of an
/// account never goes back.
pub open spec fn version_step_verdict(current: Option<int>, next: int) -> Result<(), ErrorView> {
    match current {
        Some(stored) => if next < stored {
            Err(bad_request(TOKEN_VERSION_DECREASE@))
        } else {
            Ok(())
        },
        None => Ok(()),
    }
}

/// A list of loans without one book; unchanged where the book is not in it.
pub open spec fn without_loan(borrowed: Seq<ObjectId>, book: ObjectId) -> Seq<ObjectId> {
    if borrowed.contains(book) {
        borrowed.remove(borrowed.index_of(book))
    } else {
        borrowed
    }
}

/// What the guarded decrement of a stock answers, from the number of
/// records it changed.
pub fn stock_decrement_outcome(modified_count: u64) -> (r: Result<(), AppError>)
    ensures
        outcome(r) == decrement_verdict(modified_count),
{
    if modified_count == 0 {
        Err(AppError::bad_request(NO_STOCK_AVAILABLE))
    } else {
        Ok(())
    }
}

/// What the guarded removal of a loan answers, from the number of records
/// it changed.
pub fn loan_removal_outcome(modified_count: u64) -> (r: Result<(), AppError>)
    ensures
        outcome(r) == removal_verdict(modified_count),
{
    if modified_count == 0 {
        Err(AppError::bad_request(NOT_BORROWED_BY_USER))
    } else {
        Ok(())
    }
}

/// Refuses a negative count of copies.
pub fn check_restock(stock: i32) -> (r: Result<(), AppError>)
    ensures
        outcome(r) == restock_verdict(stock as int),
{
    if stock < 0 {
        Err(AppError::bad_request(NEGATIVE_STOCK))
    } else {
        Ok(())
    }
}

/// Refuses an email address that another account has.
pub fn check_email_free(taken: bool) -> (r: Result<(), AppError>)
    ensures
        outcome(r) == free_email_verdict(taken),
{
    if taken {
        Err(AppError::conflict(EMAIL_ALREADY_EXISTS))
    } else {
        Ok(())
    }
}

/// Refuses a token version below the stored one; anything goes where no
/// version is stored.
pub fn check_version_step(current: Option<i32>, next: i32) -> (r: Result<(), AppError>)
    ensures
        outcome(r) == version_step_verdict(
            match current {
                Some(stored) => Some(stored as int),
                None => None,
            },
            next as int,
        ),
{
    match current {
        Some(stored) => if next < stored {
            Err(AppError::bad_request(TOKEN_VERSION_DECREASE))
        } else {
            Ok(())
        },
        None => Ok(()),
    }
}

/// The place of an identifier in a list, if it occurs there.
pub fn position_of(ids: &Vec<ObjectId>, id: &ObjectId) -> (r: Option<usize>)
    ensures
        r is Some <==> ids@.contains(*id),
        r matches Some(i) ==> i < ids.len() && ids@[i as int] == *id && forall|j: int|
            0 <= j < i ==> ids@[j] != *id,
{
    let mut i: usize = 0;
    while i < ids.len()
        invariant
            i <= ids.len(),
            forall|j: int| 0 <= j < i ==> ids@[j] != *id,
        decreases ids.len() - i,
    {
        if ids[i].same_as(id) {
            return Some(i);
        }
        i += 1;
    }
    None
}

/// Refuses a loan of a book that is in the list already, and a loan to a
/// list of eight or more.
pub fn check_new_loan(borrowed: &Vec<ObjectId>, book: &ObjectId) -> (r: Result<(), AppError>)
    ensures
        outcome(r) == new_loan_verdict(borrowed@, *book),
{
    if position_of(borrowed, book).is_some() {
        return Err(AppError::bad_request(ALREADY_BORROWED));
    }
    if borrowed.len() >= MAX_BORROWED_BOOKS {
        return Err(AppError::bad_request(BORROW_LIMIT_REACHED));
    }
    Ok(())
}

} // verus!
