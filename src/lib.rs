//! A topic-based publish/subscribe broker: a registry of topics, namespaces,
//! subscribers and peer services; a dispatcher with an admission whitelist, an
//! in-memory FIFO and a subscriber cache; and an append-only log sink.

pub mod error;
pub mod ident;
pub mod types;
pub mod registry;
pub mod dispatcher;
pub mod logging;
