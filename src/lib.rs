//! Control plane of a load-balancing cluster: the registry through which worker
//! processes subscribe to backend-pool changes, the broadcast bookkeeping that
//! pushes those changes under a per-subscriber cap, the change-event wire frame,
//! the worker-side pool that applies events, and the worker launch bookkeeping.
pub mod registry;
pub mod wire;
pub mod pool;
pub mod manager;
