//! Search for author and committer timestamps that give a commit a chosen
//! hash prefix, leaving every other byte of the commit untouched.

pub mod decimal;
pub mod estimate;
pub mod guarantees;
pub mod hash;
pub mod proposal;
pub mod search;
pub mod template;
