//! The two platform families: a compatibility prefix rebuilt per run, and
//! the native platform reached through registry lookups.
use vstd::prelude::*;
use crate::identity::IdentityError;

pub mod linux;
pub mod windows;

verus! {

/// Fatal faults met while setting up a run.
#[derive(Debug, Clone, Copy, PartialEq, Eq, Structural)]
pub enum InitError {
    /// The compatibility data directory is not given.
    MissingCompatPrefix,
    /// The user's identity could not be had.
    Identity(IdentityError),
}

/// Relies on home::home_dir: the current user's home directory, when one
/// can be found. What it is depends on the environment, so nothing is
/// stated of it.
#[verifier::external_body]
pub(crate) fn home_dir() -> (r: Option<String>) {
    match home::home_dir() {
        Some(p) => Some(p.to_string_lossy().into_owned()),
        None => None,
    }
}

} // verus!
