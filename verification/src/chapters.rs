//! Chapters: the reconstructed tree of one chapter's markup, and the
//! chapter value that a reading session steps through.

pub mod chapter;
pub mod chapter_node;
