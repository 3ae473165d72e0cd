//! The issuer's side of anonymous credentials: schemas, credential definitions, revocation
//! registries, offers and credentials, with contracts that say what each function makes.
//!
//! The signature scheme and the identifiers come from outside crates. What the library relies
//! on of them is stated in the contracts of its wrappers and in assumed specifications, most of
//! them in [`cl`]; everything else is proved. The functions are in [`issuer`]. What each of their
//! calls comes to is in [`outcomes`], and what holds of them taken together in [`laws`].
pub mod cl;
pub mod error;
pub mod helpers;
pub mod identifiers;
pub mod issuer;
pub mod laws;
pub mod names;
pub mod numbers;
pub mod outcomes;
pub mod points;
pub mod qualified;
pub mod tails;
pub mod types;
