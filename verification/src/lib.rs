//! A block-oriented write engine: an order-preserving bounded task pool and
//! the writer state machine that sits on top of it, together with the typed
//! key-value adapter surface.

pub mod block_write;
pub mod error;
pub mod metadata;
pub mod pool;
pub mod session;
pub mod typed_kv;
