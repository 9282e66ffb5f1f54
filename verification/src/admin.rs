//! Decision logic of the admin surface: readiness replies and metrics
//! update kinds. The HTTP endpoints themselves live outside the crate.

pub mod liveready;
pub mod metrics;
