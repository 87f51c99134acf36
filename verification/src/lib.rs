//! A registry of uniquely identified kitties, each owned by exactly one account.
//!
//! Kitties are created, transferred between accounts and bred in pairs. Ownership
//! changes are gated by a reservation against an external balance ledger, and the
//! genome of a new kitty is drawn from an external randomness source.
pub mod config;
pub mod dna;
pub mod module;
pub mod ownership;
pub mod random;
pub mod registry;
pub mod runtime;
pub mod types;

pub use config::{InsufficientFunds, Trait};
pub use dna::{combine, combine_dna};
pub use module::Module;
pub use ownership::Ownership;
pub use random::random_value;
pub use registry::Registry;
pub use runtime::{run_to_block, AccountData, Record, Runtime};
pub use types::{AccountId, Balance, Error, Event, Kitty, KittyFamily, KittyIndex, KittyParent};
