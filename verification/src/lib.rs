//! Deciding which commit-author email a repository should use: canonicalizing
//! its remote's locator into a stable key, testing that key against a
//! registry of remotes the user asked never to be prompted about, telling a
//! repository-local identity apart from an inherited one, and applying the
//! user's eventual choice. All I/O — finding the repository, reading and
//! writing configuration, showing the picker — stays outside; these modules
//! take plain values and state what they make of them.

pub mod config;
pub mod flow;
pub mod identity;
pub mod locator;
pub mod scp;
