//! The shapes the service answers with.

use crate::database::books::books_view;
use crate::models::book::{Book, BookView};
use crate::oid::encode_hex;
use vstd::prelude::*;

verus! {

/// The envelope of every answer: a message and, where there is any, data.
#[derive(Debug, PartialEq, Eq)]
pub struct Response<T> {
    pub msg: String,
    pub data: Option<T>,
}

impl<T> Response<T> {
    /// An answer that carries data.
    pub fn with_data(msg: &str, data: T) -> (r: Response<T>)
        ensures
            r.msg@ == msg@,
            r.data == Some(data),
    {
        Response { msg: msg.to_owned(), data: Some(data) }
    }

    /// An answer that carries a message only.
    pub fn message(msg: &str) -> (r: Response<T>)
        ensures
            r.msg@ == msg@,
            r.data is None,
    {
        Response { msg: msg.to_owned(), data: None }
    }
}

#[derive(Debug, PartialEq, Eq)]
pub struct Token {
    pub token: String,
}

#[derive(Debug, PartialEq, Eq)]
pub struct AboutMe {
    pub email: String,
    pub username: String,
    pub borrowed_books: Vec<BookDetail>,
}

#[derive(Debug, PartialEq, Eq)]
pub struct UserInfo {
    pub id: String,
    pub email: String,
    pub username: String,
    pub is_admin: bool,
}

/// A book as a list of books shows it.
#[derive(Debug, PartialEq, Eq)]
pub struct BookInfo {
    pub id: String,
    pub title: String,
    pub author: String,
    pub stock: i32,
}

/// A book as its own page shows it.
#[derive(Debug, PartialEq, Eq)]
pub struct BookDetail {
    pub id: String,
    pub title: String,
    pub author: String,
    pub stock: i32,
}

/// A book as the service shows it: the identifier in hexadecimal, and the
/// title, author and stock as stored.
pub struct ShownBook {
    pub id: Seq<char>,
    pub title: Seq<char>,
    pub author: Seq<char>,
    pub stock: int,
}

/// How a stored book is shown.
pub open spec fn shown(book: BookView) -> ShownBook {
    ShownBook { id: encode_hex(book.id@), title: book.title, author: book.author, stock: book.stock }
}

impl View for BookInfo {
    type V = ShownBook;

    open spec fn view(&self) -> ShownBook {
        ShownBook { id: self.id@, title: self.title@, author: self.author@, stock: self.stock as int }
    }
}

impl View for BookDetail {
    type V = ShownBook;

    open spec fn view(&self) -> ShownBook {
        ShownBook { id: self.id@, title: self.title@, author: self.author@, stock: self.stock as int }
    }
}

pub open spec fn infos_view(infos: Seq<BookInfo>) -> Seq<ShownBook> {
    infos.map_values(|i: BookInfo| i@)
}

impl BookInfo {
    pub fn of(book: &Book) -> (r: BookInfo)
        ensures
            r@ == shown(book@),
    {
        BookInfo { id: book.id.to_hex(), title: book.title.clone(), author: book.author.clone(), stock: book.stock }
    }

    /// One entry per book, in the same order.
    pub fn list(books: &Vec<Book>) -> (r: Vec<BookInfo>)
        ensures
            infos_view(r@) == books_view(books@).map_values(|b: BookView| shown(b)),
    {
        let ghost want = books_view(books@).map_values(|b: BookView| shown(b));
        let mut out: Vec<BookInfo> = Vec::new();
        let mut i: usize = 0;
        while i < books.len()
            invariant
                i <= books.len(),
                want == books_view(books@).map_values(|b: BookView| shown(b)),
                infos_view(out@) == want.take(i as int),
            decreases books.len() - i,
        {
            let info = BookInfo::of(&books[i]);
            proof {
                assert(infos_view(out@.push(info)) =~= infos_view(out@).push(info@));
                assert(want.take(i as int).push(want[i as int]) =~= want.take(i + 1));
            }
            out.push(info);
            i += 1;
        }
        proof {
            assert(want.take(books.len() as int) =~= want);
        }
        out
    }
}

impl BookDetail {
    pub fn of(book: &Book) -> (r: BookDetail)
        ensures
            r@ == shown(book@),
    {
        BookDetail { id: book.id.to_hex(), title: book.title.clone(), author: book.author.clone(), stock: book.stock }
    }
}

} // verus!
