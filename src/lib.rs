//! Keeps per-game configuration files alive across runs of a sandboxed
//! game: restores them before launch and backs them up after exit.
pub mod decimal;
pub mod expand;
pub mod identity;
pub mod mapping;
pub mod platform;
pub mod sync;
pub mod text;
