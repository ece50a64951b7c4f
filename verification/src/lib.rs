//! Versioned binary artifact management: semantic-version policy matching,
//! reconciliation of locally installed versions against a remote catalog,
//! and a crash-safe download/verify/extract pipeline with bounded retries.
//!
//! The crate is organised leaves-first:
//! - [`version`]: semantic versions with their precedence order,
//! - [`policy`]: version-constraint evaluation (range plus prerelease tag),
//! - [`manager`]: the per-component facade holding online/local version lists,
//! - [`pipeline`]: the staged download pipeline and its retry session,
//! - [`relay`]: the progress-relay decision logic.
//!
//! All disk and network work is driven from outside: the pipeline and the
//! relay are step functions from state and event to state and action, so a
//! host can perform the actions with whatever I/O stack it has.

pub mod manager;
pub mod pipeline;
pub mod policy;
pub mod relay;
pub mod version;
