//! Admission control for a multi-tenant gateway: quotas resolved from a
//! two-tier configuration, a fixed one-second window per counter, a local
//! limiter for when the shared counter store is out of reach, and usage
//! statistics.

pub mod error;
pub mod fraction;
pub mod limiter;
pub mod ratio;
pub mod statistician;
pub mod strategy;
pub mod text;
pub mod types;
pub mod v1;
pub mod window;
