//! A static blog generator over a repository's commit history.
//!
//! Commits whose summary line begins with the marker `"POST: "` become
//! published posts; every other commit is ignored.  The crate holds the
//! verified core of the pipeline: classifying commits, deriving short
//! identifiers and titles, splitting bodies into paragraphs, and rendering
//! the HTML pages and stylesheet.  Opening the repository, walking its
//! history and writing the output files is left to a thin binary around
//! this library.

pub mod ident;
pub mod site;
pub mod templates;
pub mod text;
