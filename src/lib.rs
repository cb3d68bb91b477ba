//! Routing and tunnel-relay logic of a local proxy for AI completion requests.
//!
//! The proxy picks one of two upstream services by model name, checks the
//! optional bearer token of a request, and can expose the local endpoint
//! through a tunnel whose per-connection relay is described here as a state
//! machine.
pub mod endpoint;
pub mod proxy;
pub mod routing;
pub mod tunnel;
