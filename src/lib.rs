//! A small local version-control engine: a repository descriptor, one
//! commit ledger per branch, and the staging / commit / restore / remove
//! rules that operate on them. File-system work is left to the caller,
//! which performs the copies and writes that the library plans.
//!
//! Once finalized, a descriptor or ledger takes no further change: every
//! operation that would change it returns `RepoError::Finalized` and leaves
//! it as it was.
pub mod branch_config;
pub mod commit;
pub mod config;
pub mod error;
pub mod paths;
pub mod repo;

pub use branch_config::BranchConfig;
pub use commit::Commit;
pub use error::RepoError;
pub use repo::Repo;
