//! The table of contents: the navigation entries of a book, read from
//! whichever of the two EPUB navigation formats the book carries.

pub mod table_of_contents;
pub mod table_of_contents_item;
