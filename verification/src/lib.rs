//! Verified decisions behind fetching, staging and rolling back image deployments.
pub mod cleanup;
pub mod digest;
pub mod error;
pub mod event;
pub mod fstab;
pub mod fstab_laws;
pub mod image;
pub mod inplace;
pub mod progress;
pub mod progress_laws;
pub mod pull;
pub mod rollback;
pub mod spec;
pub mod stage;
pub mod text;
