//! Client-side data-fidelity and synchronization core for a recipe/pantry
//! management frontend.
//!
//! The crate provides typed codecs for exact fractional quantities and
//! hour/minute/second durations, a classified error taxonomy for remote
//! calls together with the session-invalidation policy, and a paginated
//! list synchronizer with stale-response fencing.

pub mod api;
pub mod duration;
pub mod fraction;
pub mod helpers;
pub mod paged;
pub mod pantry;
pub mod query;
pub mod recipe;
pub mod stats;
pub mod text;
pub mod types;
pub mod urlquery;
pub mod user;
