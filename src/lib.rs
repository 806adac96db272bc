//! Request routing and worker-lifecycle bookkeeping for a multi-tenant edge
//! function host.
pub mod errors;
pub mod keyed;
pub mod loader;
pub mod permissions;
pub mod probe;
pub mod router;
pub mod store;
pub mod text;
pub mod workers;
