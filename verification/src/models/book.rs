//! A catalog item and its count of available copies.

use crate::oid::ObjectId;
use vstd::prelude::*;

verus! {

/// A catalog item.
#[derive(Debug, PartialEq, Eq)]
pub struct Book {
    pub id: ObjectId,
    pub title: String,
    pub author: String,
    /// How many copies are currently available.
    pub stock: i32,
}

/// A catalog item as a plain value.
pub struct BookView {
    pub id: ObjectId,
    pub title: Seq<char>,
    pub author: Seq<char>,
    pub stock: int,
}

impl BookView {
    /// The same item with another count of available copies.
    pub open spec fn with_stock(self, stock: int) -> BookView {
        BookView { stock, ..self }
    }

    pub open spec fn with_title(self, title: Seq<char>) -> BookView {
        BookView { title, ..self }
    }

    pub open spec fn with_author(self, author: Seq<char>) -> BookView {
        BookView { author, ..self }
    }
}

impl View for Book {
    type V = BookView;

    open spec fn view(&self) -> BookView {
        BookView { id: self.id, title: self.title@, author: self.author@, stock: self.stock as int }
    }
}

impl Clone for Book {
    fn clone(&self) -> (r: Book)
        ensures
            r@ == self@,
    {
        Book { id: self.id, title: self.title.clone(), author: self.author.clone(), stock: self.stock }
    }
}

} // verus!
