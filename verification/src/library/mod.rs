pub mod branch;
pub mod commit;
pub mod error;
pub mod files;
pub mod snapshot_store;
pub mod vcs_repository;
