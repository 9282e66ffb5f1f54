//! Metrics update kinds of the admin surface.
//!
//! The Prometheus registry, the channels that carry these updates and
//! the HTTP endpoint that reports them live outside the crate; here is
//! what an update is and under which label it is counted.

use vstd::prelude::*;
use vstd::string::StringExecFns;

verus! {

/// One countable request-served event of the running balancer.
#[derive(Debug, PartialEq, Eq, Structural, Clone, Copy)]
pub enum MetricsUpdate {
    /// An HTTP request completed.
    Http,
    /// A WebSocket request completed.
    Websocket,
    /// A cache-database request completed.
    Database,
}

impl MetricsUpdate {
    /// The label the update is counted under.
    pub fn label(&self) -> (r: String)
        ensures
            *self == MetricsUpdate::Http ==> r@ == "http"@,
            *self == MetricsUpdate::Websocket ==> r@ == "WebSocket"@,
            *self == MetricsUpdate::Database ==> r@ == "Database"@,
    {
        match self {
            MetricsUpdate::Http => String::from_str("http"),
            MetricsUpdate::Websocket => String::from_str("WebSocket"),
            MetricsUpdate::Database => String::from_str("Database"),
        }
    }
}

} // verus!
