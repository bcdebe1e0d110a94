//! Naming the future that an `async fn` returns.
//!
//! The runtime part of the library: the wrapper type [`Named`] that a named
//! future is stored in, and the layout queries that size its storage.
//! The planning part: the decisions that the `#[name_it]` and
//! `#[async_trait]` attribute expansions take, on a model of the item that
//! holds what they read of it.

pub mod async_trait;
pub mod elision;
pub mod errors;
pub mod guarantees;
pub mod laws;
mod layout;
pub mod name_it;
pub mod names;
mod named;
pub mod order;
pub mod signature;
pub mod types;
pub mod visibility;

pub use layout::{align_of_fut, size_of_fut, FutParams};
pub use named::Named;
