//! Deterministic shard labels for cluster objects.

pub mod api;
pub mod decimal;
pub mod hash;
pub mod identity;
pub mod lifecycle;
pub mod object;
pub mod pointer;
pub mod reconcile;
pub mod shard;
pub mod text;
