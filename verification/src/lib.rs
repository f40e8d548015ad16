//! A credential broker for bulk-updating many local clones of remote
//! repositories: remote URL parsing, a four-level credential cache, the
//! policy that decides which credential a clone may reuse, and the
//! classification of each clone's outcome.

pub mod config;
pub mod creds;
pub mod end;
pub mod git_cred;
pub mod git_url;
pub mod graph;
pub mod outcome;
pub mod prompt;
pub mod string_ops;
pub mod table;
