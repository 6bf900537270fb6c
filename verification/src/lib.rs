//! Verified core of a release-asset installer.
//!
//! The library resolves release tags, constructs download URLs, decides
//! between fresh install, no-op and upgrade from persisted version state,
//! plans archive extraction, and encodes the persisted state record.
//! Network and filesystem side effects are left to the embedding program.

pub mod assets;
pub mod errors;
pub mod extract;
pub mod plan;
pub mod progress;
pub mod retry;
pub mod state;
pub mod text;
pub mod urls;
