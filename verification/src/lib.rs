//! A read-only projection engine over git repositories: it resolves a
//! reference and a path to a directory listing or a file, credits each
//! directory entry with the commit that brought its current content, and
//! produces commit logs and per-file patches. Around that it decides what a
//! request path means, what a page shows and how it is answered.
//!
//! Everything that decides or computes is verified. What lies outside is
//! reached through small trusted functions, each a call into git2, syntect,
//! comrak or the standard library: the object store in [`git`], paths and
//! text in [`text`], highlighting in [`highlight`], Markdown in [`readme`].
//! None of them is asked to promise what a repository holds; the verified
//! code is correct for whatever they return.

pub mod missing;
pub mod text;
pub mod oid;
pub mod diff;
pub mod commit;
pub mod git;
pub mod order;
pub mod kind;
pub mod repository;
pub mod tree;
pub mod mime;
pub mod route;
pub mod page;
pub mod user;
pub mod response;
pub mod view;
pub mod highlight;
pub mod readme;
