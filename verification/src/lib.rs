//! Turns snippet comments into formatted excerpts of source files.
//!
//! A snippet comment names a revision, a file and, if not the whole file is
//! meant, ranges of lines. [`Comment::from_latex_comment`] reads it,
//! [`Comment::get_text`] cuts the snippet from the text of the file, and
//! [`Text::get_latex`] renders it as a block whose line numbers are those of
//! the file.

pub mod chars;
pub mod comment;
pub mod config;
pub mod info_comment;
pub mod laws;
pub mod lines;
pub mod notice;
pub mod oid;
pub mod round_trip;
pub mod scope;
pub mod text;

pub use crate::comment::Comment;
pub use crate::config::Config;
pub use crate::info_comment::InfoCommentSyntax;
pub use crate::oid::Oid;
pub use crate::text::Text;
