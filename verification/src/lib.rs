//! A document/knowledge-base management backend: users own folders and
//! documents arranged in a forest, classify documents with regex-matched
//! tags, group them into knowledge bases, and attach dialog sessions to
//! those knowledge bases.
//!
//! The store is an in-memory relational model; every operation on it is
//! verified. Transport, authentication and file storage are left to the
//! embedding application.

pub mod clock;
pub mod dialog;
pub mod doc;
pub mod error;
pub mod frame;
pub mod kb;
pub mod paging;
pub mod pattern;
pub mod records;
pub mod seqtools;
pub mod store;
pub mod strutil;
pub mod tag;
pub mod user;

use vstd::prelude::*;

verus! {

} // verus!
