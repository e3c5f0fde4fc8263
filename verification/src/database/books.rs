//! The catalog and its stock ledger.

use crate::constants::{BOOK_ALREADY_EXISTS, DUPLICATE_ID, NO_STOCK_AVAILABLE, STOCK_OVERFLOW};
use crate::errors::{bad_request, conflict, internal, outcome, AppError, ErrorView};
use crate::models::book::{Book, BookView};
use crate::oid::ObjectId;
use crate::rules::{check_restock, restock_verdict, stock_decrement_outcome};
use vstd::prelude::*;

verus! {

/// A catalog is valid when no identifier occurs twice in it and every count
/// of available copies is at least zero and fits the stored integer.
pub open spec fn catalog_wf(books: Seq<BookView>) -> bool {
    &&& forall|i: int, j: int|
        0 <= i < j < books.len() ==> (#[trigger] books[i]).id != (#[trigger] books[j]).id
    &&& forall|i: int| 0 <= i < books.len() ==> 0 <= (#[trigger] books[i]).stock <= i32::MAX
}

pub open spec fn has_book(books: Seq<BookView>, id: ObjectId) -> bool {
    exists|i: int| 0 <= i < books.len() && (#[trigger] books[i]).id == id
}

/// The place of the book with this identifier, where there is one.
pub open spec fn book_position(books: Seq<BookView>, id: ObjectId) -> int {
    choose|i: int| 0 <= i < books.len() && (#[trigger] books[i]).id == id
}

pub open spec fn find_book(books: Seq<BookView>, id: ObjectId) -> Option<BookView> {
    if has_book(books, id) {
        Some(books[book_position(books, id)])
    } else {
        None
    }
}

/// The available copies of a book; zero for a book the catalog lacks.
pub open spec fn stock_of(books: Seq<BookView>, id: ObjectId) -> int {
    match find_book(books, id) {
        Some(b) => b.stock,
        None => 0,
    }
}

/// The catalog with one book replaced; unchanged where the book is absent.
pub open spec fn replace_book(books: Seq<BookView>, id: ObjectId, book: BookView) -> Seq<BookView> {
    if has_book(books, id) {
        books.update(book_position(books, id), book)
    } else {
        books
    }
}

/// The catalog with another count of copies for one book; unchanged where the
/// book is absent.
pub open spec fn set_stock(books: Seq<BookView>, id: ObjectId, stock: int) -> Seq<BookView> {
    match find_book(books, id) {
        Some(b) => replace_book(books, id, b.with_stock(stock)),
        None => books,
    }
}

pub open spec fn set_title(books: Seq<BookView>, id: ObjectId, title: Seq<char>) -> Seq<BookView> {
    match find_book(books, id) {
        Some(b) => replace_book(books, id, b.with_title(title)),
        None => books,
    }
}

pub open spec fn set_author(books: Seq<BookView>, id: ObjectId, author: Seq<char>) -> Seq<BookView> {
    match find_book(books, id) {
        Some(b) => replace_book(books, id, b.with_author(author)),
        None => books,
    }
}

/// The catalog without the book; unchanged where the book is absent.
pub open spec fn without_book(books: Seq<BookView>, id: ObjectId) -> Seq<BookView> {
    if has_book(books, id) {
        books.remove(book_position(books, id))
    } else {
        books
    }
}

/// The guarded decrement: one copy less where the book has a copy left.
pub open spec fn ledger_decrement(books: Seq<BookView>, id: ObjectId) -> Seq<BookView> {
    if stock_of(books, id) > 0 {
        set_stock(books, id, stock_of(books, id) - 1)
    } else {
        books
    }
}

/// The increment fails only where the count would no longer fit.
pub open spec fn can_increment(books: Seq<BookView>, id: ObjectId) -> bool {
    stock_of(books, id) < i32::MAX
}

/// The increment: one copy more; nothing for a book the catalog lacks.
pub open spec fn ledger_increment(books: Seq<BookView>, id: ObjectId) -> Seq<BookView> {
    if can_increment(books, id) {
        set_stock(books, id, stock_of(books, id) + 1)
    } else {
        books
    }
}

pub open spec fn titled(title: Seq<char>) -> spec_fn(BookView) -> bool {
    |b: BookView| b.title == title
}

pub open spec fn written_by(author: Seq<char>) -> spec_fn(BookView) -> bool {
    |b: BookView| b.author == author
}

/// Whether the catalog holds a book with this title by this author.
pub open spec fn has_work(books: Seq<BookView>, title: Seq<char>, author: Seq<char>) -> bool {
    exists|i: int| 0 <= i < books.len() && (#[trigger] books[i]).title == title && books[i].author == author
}

/// A book as it enters the catalog: no copy is available yet.
pub open spec fn new_book(id: ObjectId, title: Seq<char>, author: Seq<char>) -> BookView {
    BookView { id, title, author, stock: 0 }
}

/// What entering a book under a given identifier does to the catalog, and
/// what it answers: a second book with the same title and author is a
/// conflict, an identifier that is taken is a storage failure, and otherwise
/// the book is appended with no copy available.
pub open spec fn create_effect(books: Seq<BookView>, id: ObjectId, title: Seq<char>, author: Seq<char>) -> (
    Seq<BookView>,
    Result<BookView, ErrorView>,
) {
    if has_work(books, title, author) {
        (books, Err(conflict(BOOK_ALREADY_EXISTS@)))
    } else if has_book(books, id) {
        (books, Err(internal(DUPLICATE_ID@)))
    } else {
        (books.push(new_book(id, title, author)), Ok(new_book(id, title, author)))
    }
}

pub open spec fn created(r: Result<Book, AppError>) -> Result<BookView, ErrorView> {
    match r {
        Ok(book) => Ok(book@),
        Err(e) => Err(e@),
    }
}

pub open spec fn books_view(books: Seq<Book>) -> Seq<BookView> {
    books.map_values(|b: Book| b@)
}

/// In a valid catalog an identifier names one place only.
pub proof fn lemma_position_unique(books: Seq<BookView>, i: int)
    requires
        catalog_wf(books),
        0 <= i < books.len(),
    ensures
        has_book(books, books[i].id),
        book_position(books, books[i].id) == i,
        find_book(books, books[i].id) == Some(books[i]),
        stock_of(books, books[i].id) == books[i].stock,
{
    let j = book_position(books, books[i].id);
    assert(books[j].id == books[i].id);
    if i < j {
        assert(books[i].id != books[j].id);
    } else if j < i {
        assert(books[j].id != books[i].id);
    }
}

/// Replacing a book by one with the same identifier and a valid count keeps
/// the catalog valid, and the book is found again at its place.
pub proof fn lemma_replace_wf(books: Seq<BookView>, id: ObjectId, book: BookView)
    requires
        catalog_wf(books),
        book.id == id,
        0 <= book.stock <= i32::MAX,
    ensures
        catalog_wf(replace_book(books, id, book)),
        has_book(replace_book(books, id, book), id) == has_book(books, id),
        has_book(books, id) ==> find_book(replace_book(books, id, book), id) == Some(book),
        forall|other: ObjectId| other != id ==> find_book(replace_book(books, id, book), other) == find_book(books, other),
{
    let after = replace_book(books, id, book);
    if has_book(books, id) {
        let i = book_position(books, id);
        assert(after[i] == book);
        assert forall|a: int, b: int| 0 <= a < b < after.len() implies (#[trigger] after[a]).id != (#[trigger] after[b]).id by {
            assert(books[a].id != books[b].id);
            assert(after[a].id == books[a].id);
            assert(after[b].id == books[b].id);
        }
        assert(catalog_wf(after));
        lemma_position_unique(after, i);
        assert forall|other: ObjectId| other != id implies find_book(after, other) == find_book(books, other) by {
            if has_book(books, other) {
                let k = book_position(books, other);
                assert(k != i);
                assert(after[k] == books[k]);
                lemma_position_unique(after, k);
            } else if has_book(after, other) {
                let k = book_position(after, other);
                assert(after[k].id == other);
                assert(k != i);
                assert(books[k].id == other);
            }
        }
    } else {
        assert(after == books);
    }
}

/// The catalog in memory. It is always valid.
pub struct BookRepository {
    books: Vec<Book>,
}

impl View for BookRepository {
    type V = Seq<BookView>;

    closed spec fn view(&self) -> Seq<BookView> {
        books_view(self.books@)
    }
}

impl BookRepository {
    #[verifier::type_invariant]
    pub open spec fn inv(&self) -> bool {
        catalog_wf(self@)
    }

    /// An empty catalog.
    pub fn new() -> (r: BookRepository)
        ensures
            r@ == Seq::<BookView>::empty(),
    {
        let books: Vec<Book> = Vec::new();
        proof {
            assert(books_view(books@) =~= Seq::<BookView>::empty());
        }
        BookRepository { books }
    }

    /// How many books the catalog holds.
    pub fn len(&self) -> (r: usize)
        ensures
            r == self@.len(),
    {
        self.books.len()
    }

    fn position(&self, id: &ObjectId) -> (r: Option<usize>)
        ensures
            catalog_wf(self@),
            self@ == books_view(self.books@),
            r is Some <==> has_book(self@, *id),
            r matches Some(i) ==> i < self.books.len() && i == book_position(self@, *id)
                && find_book(self@, *id) == Some(self.books@[i as int]@),
    {
        proof {
            use_type_invariant(self);
        }
        let mut i: usize = 0;
        while i < self.books.len()
            invariant
                i <= self.books.len(),
                self@ == books_view(self.books@),
                catalog_wf(self@),
                forall|j: int| 0 <= j < i ==> (#[trigger] self@[j]).id != *id,
            decreases self.books.len() - i,
        {
            if self.books[i].id.same_as(id) {
                proof {
                    assert(self@[i as int].id == *id);
                    lemma_position_unique(self@, i as int);
                }
                return Some(i);
            }
            i += 1;
        }
        None
    }

    /// Takes the records out, leaving an empty catalog behind.
    fn take(&mut self) -> (r: Vec<Book>)
        ensures
            books_view(r@) == old(self)@,
            catalog_wf(old(self)@),
            final(self)@.len() == 0,
    {
        proof {
            use_type_invariant(&*self);
        }
        let mut books: Vec<Book> = Vec::new();
        proof {
            assert(books_view(books@) =~= Seq::<BookView>::empty());
        }
        core::mem::swap(&mut self.books, &mut books);
        books
    }

    /// Puts one book in the place of the one with the same identifier.
    fn replace(&mut self, i: usize, book: Book)
        requires
            i < old(self)@.len(),
            old(self)@[i as int].id == book.id,
            0 <= book.stock,
        ensures
            final(self)@ == replace_book(old(self)@, book.id, book@),
            final(self)@ == old(self)@.update(i as int, book@),
    {
        let mut books = self.take();
        proof {
            lemma_position_unique(old(self)@, i as int);
            lemma_replace_wf(old(self)@, book.id, book@);
            assert(books_view(books@.update(i as int, book)) =~= old(self)@.update(i as int, book@));
        }
        books.set(i, book);
        self.books = books;
    }

    /// The book with this identifier, if the catalog has it.
    pub fn find_by_id(&self, id: &ObjectId) -> (r: Result<Option<Book>, AppError>)
        ensures
            r matches Ok(found) && match found {
                Some(b) => find_book(self@, *id) == Some(b@),
                None => find_book(self@, *id) is None,
            },
    {
        match self.position(id) {
            Some(i) => Ok(Some(self.books[i].clone())),
            None => Ok(None),
        }
    }

    /// Every book, in catalog order.
    pub fn find_all(&self) -> (r: Result<Vec<Book>, AppError>)
        ensures
            r matches Ok(all) && books_view(all@) == self@,
    {
        let mut out: Vec<Book> = Vec::new();
        let mut i: usize = 0;
        while i < self.books.len()
            invariant
                i <= self.books.len(),
                books_view(out@) == books_view(self.books@).take(i as int),
            decreases self.books.len() - i,
        {
            let book = self.books[i].clone();
            proof {
                let all = books_view(self.books@);
                assert(book@ == all[i as int]);
                assert(books_view(out@.push(book)) =~= books_view(out@).push(book@));
                assert(all.take(i as int).push(all[i as int]) =~= all.take(i + 1));
            }
            out.push(book);
            i += 1;
        }
        proof {
            assert(books_view(self.books@).take(self.books.len() as int) =~= self@);
        }
        Ok(out)
    }

    /// The books with exactly this title, in catalog order.
    pub fn find_by_title(&self, title: &str) -> (r: Result<Vec<Book>, AppError>)
        ensures
            r matches Ok(found) && books_view(found@) == self@.filter(titled(title@)),
    {
        let wanted = title.to_owned();
        let mut out: Vec<Book> = Vec::new();
        let mut i: usize = 0;
        proof {
            assert(self@.take(0) =~= Seq::<BookView>::empty());
            assert(self@.take(0).filter(titled(title@)).len() <= 0) by {
                self@.take(0).lemma_filter_len(titled(title@));
            }
            assert(books_view(out@) =~= self@.take(0).filter(titled(title@)));
        }
        while i < self.books.len()
            invariant
                i <= self.books.len(),
                wanted@ == title@,
                self@ == books_view(self.books@),
                books_view(out@) == self@.take(i as int).filter(titled(title@)),
            decreases self.books.len() - i,
        {
            proof {
                assert(self@.take(i as int).push(self@[i as int]) =~= self@.take(i + 1));
                self@.take(i as int).lemma_filter_push(self@[i as int], titled(title@));
            }
            if self.books[i].title.eq(&wanted) {
                let book = self.books[i].clone();
                proof {
                    assert(books_view(out@.push(book)) =~= books_view(out@).push(book@));
                }
                out.push(book);
            }
            i += 1;
        }
        proof {
            assert(self@.take(self.books.len() as int) =~= self@);
        }
        Ok(out)
    }

    /// The books by exactly this author, in catalog order.
    pub fn find_by_author(&self, author: &str) -> (r: Result<Vec<Book>, AppError>)
        ensures
            r matches Ok(found) && books_view(found@) == self@.filter(written_by(author@)),
    {
        let wanted = author.to_owned();
        let mut out: Vec<Book> = Vec::new();
        let mut i: usize = 0;
        proof {
            assert(self@.take(0) =~= Seq::<BookView>::empty());
            assert(self@.take(0).filter(written_by(author@)).len() <= 0) by {
                self@.take(0).lemma_filter_len(written_by(author@));
            }
            assert(books_view(out@) =~= self@.take(0).filter(written_by(author@)));
        }
        while i < self.books.len()
            invariant
                i <= self.books.len(),
                wanted@ == author@,
                self@ == books_view(self.books@),
                books_view(out@) == self@.take(i as int).filter(written_by(author@)),
            decreases self.books.len() - i,
        {
            proof {
                assert(self@.take(i as int).push(self@[i as int]) =~= self@.take(i + 1));
                self@.take(i as int).lemma_filter_push(self@[i as int], written_by(author@));
            }
            if self.books[i].author.eq(&wanted) {
                let book = self.books[i].clone();
                proof {
                    assert(books_view(out@.push(book)) =~= books_view(out@).push(book@));
                }
                out.push(book);
            }
            i += 1;
        }
        proof {
            assert(self@.take(self.books.len() as int) =~= self@);
        }
        Ok(out)
    }

    fn holds_work(&self, title: &str, author: &str) -> (r: bool)
        ensures
            r == has_work(self@, title@, author@),
    {
        let wanted_title = title.to_owned();
        let wanted_author = author.to_owned();
        let mut i: usize = 0;
        while i < self.books.len()
            invariant
                i <= self.books.len(),
                wanted_title@ == title@,
                wanted_author@ == author@,
                self@ == books_view(self.books@),
                forall|j: int| 0 <= j < i ==> !((#[trigger] self@[j]).title == title@ && self@[j].author == author@),
            decreases self.books.len() - i,
        {
            if self.books[i].title.eq(&wanted_title) && self.books[i].author.eq(&wanted_author) {
                proof {
                    assert(self@[i as int].title == title@ && self@[i as int].author == author@);
                }
                return true;
            }
            i += 1;
        }
        false
    }

    /// Enters a book under a given identifier.
    pub fn create_with_id(&mut self, id: ObjectId, title: &str, author: &str) -> (r: Result<Book, AppError>)
        ensures
            (final(self)@, created(r)) == create_effect(old(self)@, id, title@, author@),
    {
        if self.holds_work(title, author) {
            return Err(AppError::conflict(BOOK_ALREADY_EXISTS));
        }
        if self.position(&id).is_some() {
            return Err(AppError::internal(DUPLICATE_ID));
        }
        let book = Book { id, title: title.to_owned(), author: author.to_owned(), stock: 0 };
        let copy = book.clone();
        let mut books = self.take();
        proof {
            let after = old(self)@.push(book@);
            assert(books_view(books@.push(book)) =~= after);
            assert forall|a: int, b: int| 0 <= a < b < after.len() implies (#[trigger] after[a]).id != (
            #[trigger] after[b]).id by {
                if b < old(self)@.len() {
                    assert(old(self)@[a].id != old(self)@[b].id);
                } else {
                    assert(old(self)@[a].id != id);
                }
            }
        }
        books.push(book);
        self.books = books;
        Ok(copy)
    }

    /// Enters a book under a fresh identifier: for some identifier, the call
    /// does what entering the book under it does.
    pub fn create(&mut self, title: &str, author: &str) -> (r: Result<Book, AppError>)
        ensures
            exists|id: ObjectId| (final(self)@, created(r)) == #[trigger] create_effect(old(self)@, id, title@, author@),
    {
        self.create_with_id(ObjectId::new(), title, author)
    }

    /// Removes the book with this identifier, if the catalog has it.
    pub fn delete_by_id(&mut self, id: &ObjectId) -> (r: Result<(), AppError>)
        ensures
            r is Ok,
            final(self)@ == without_book(old(self)@, *id),
    {
        match self.position(id) {
            Some(i) => {
                let mut books = self.take();
                proof {
                    let after = old(self)@.remove(i as int);
                    assert(books_view(books@.remove(i as int)) =~= after);
                    assert forall|a: int, b: int| 0 <= a < b < after.len() implies (#[trigger] after[a]).id != (
                    #[trigger] after[b]).id by {
                        let a0 = if a < i { a } else { a + 1 };
                        let b0 = if b < i { b } else { b + 1 };
                        assert(old(self)@[a0].id != old(self)@[b0].id);
                    }
                    assert forall|a: int| 0 <= a < after.len() implies 0 <= (#[trigger] after[a]).stock <= i32::MAX by {
                        let a0 = if a < i { a } else { a + 1 };
                        assert(0 <= old(self)@[a0].stock <= i32::MAX);
                    }
                }
                books.remove(i);
                self.books = books;
            },
            None => {},
        }
        Ok(())
    }

    /// Sets the title of a book where the catalog has it.
    pub fn update_title(&mut self, id: &ObjectId, title: &str) -> (r: Result<(), AppError>)
        ensures
            r is Ok,
            final(self)@ == set_title(old(self)@, *id, title@),
    {
        match self.position(id) {
            Some(i) => {
                let old_book = &self.books[i];
                let book = Book {
                    id: old_book.id,
                    title: title.to_owned(),
                    author: old_book.author.clone(),
                    stock: old_book.stock,
                };
                proof {
                    assert(0 <= self@[i as int].stock);
                }
                self.replace(i, book);
            },
            None => {},
        }
        Ok(())
    }

    /// Sets the author of a book where the catalog has it.
    pub fn update_author(&mut self, id: &ObjectId, author: &str) -> (r: Result<(), AppError>)
        ensures
            r is Ok,
            final(self)@ == set_author(old(self)@, *id, author@),
    {
        match self.position(id) {
            Some(i) => {
                let old_book = &self.books[i];
                let book = Book {
                    id: old_book.id,
                    title: old_book.title.clone(),
                    author: author.to_owned(),
                    stock: old_book.stock,
                };
                proof {
                    assert(0 <= self@[i as int].stock);
                }
                self.replace(i, book);
            },
            None => {},
        }
        Ok(())
    }

    fn write_stock(&mut self, i: usize, stock: i32)
        requires
            i < old(self)@.len(),
            0 <= stock,
        ensures
            final(self)@ == set_stock(old(self)@, old(self)@[i as int].id, stock as int),
    {
        proof {
            use_type_invariant(&*self);
            lemma_position_unique(self@, i as int);
        }
        let old_book = &self.books[i];
        let book = Book {
            id: old_book.id,
            title: old_book.title.clone(),
            author: old_book.author.clone(),
            stock,
        };
        self.replace(i, book);
    }

    /// Sets the count of copies of a book where the catalog has it; a negative
    /// count is refused.
    pub fn update_stock(&mut self, id: &ObjectId, stock: i32) -> (r: Result<(), AppError>)
        ensures
            outcome(r) == restock_verdict(stock as int),
            final(self)@ == (if stock < 0 {
                old(self)@
            } else {
                set_stock(old(self)@, *id, stock as int)
            }),
    {
        check_restock(stock)?;
        match self.position(id) {
            Some(i) => {
                self.write_stock(i, stock);
            },
            None => {},
        }
        Ok(())
    }

    /// The guarded update of the ledger: takes one copy where one is left,
    /// and says how many records it changed.
    fn decrement_where_in_stock(&mut self, id: &ObjectId) -> (modified: u64)
        ensures
            final(self)@ == ledger_decrement(old(self)@, *id),
            modified == (if stock_of(old(self)@, *id) > 0 { 1u64 } else { 0u64 }),
    {
        match self.position(id) {
            Some(i) => {
                let stock = self.books[i].stock;
                if stock > 0 {
                    self.write_stock(i, stock - 1);
                    1
                } else {
                    0
                }
            },
            None => 0,
        }
    }

    /// Takes one copy of a book: succeeds exactly when a copy is left, and
    /// otherwise changes nothing.
    pub fn borrow_book(&mut self, id: &ObjectId) -> (r: Result<(), AppError>)
        ensures
            final(self)@ == ledger_decrement(old(self)@, *id),
            outcome(r) == decrement_outcome(old(self)@, *id),
    {
        let modified = self.decrement_where_in_stock(id);
        stock_decrement_outcome(modified)
    }

    /// Gives one copy of a book back. Nothing happens for a book the catalog
    /// lacks; the call fails, changing nothing, only where the count cannot
    /// grow.
    pub fn return_book(&mut self, id: &ObjectId) -> (r: Result<(), AppError>)
        ensures
            final(self)@ == ledger_increment(old(self)@, *id),
            outcome(r) == increment_outcome(old(self)@, *id),
    {
        match self.position(id) {
            Some(i) => {
                let stock = self.books[i].stock;
                if stock == i32::MAX {
                    return Err(AppError::internal(STOCK_OVERFLOW));
                }
                proof {
                    assert(0 <= self@[i as int].stock);
                }
                self.write_stock(i, stock + 1);
            },
            None => {},
        }
        Ok(())
    }
}

/// What the guarded decrement answers: success exactly when a copy is left.
pub open spec fn decrement_outcome(books: Seq<BookView>, id: ObjectId) -> Result<(), ErrorView> {
    if stock_of(books, id) > 0 {
        Ok(())
    } else {
        Err(bad_request(NO_STOCK_AVAILABLE@))
    }
}

/// What the increment answers: failure only where the count cannot grow.
pub open spec fn increment_outcome(books: Seq<BookView>, id: ObjectId) -> Result<(), ErrorView> {
    if can_increment(books, id) {
        Ok(())
    } else {
        Err(internal(STOCK_OVERFLOW@))
    }
}

} // verus!
