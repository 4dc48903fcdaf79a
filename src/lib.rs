pub mod client;
pub mod laws;
pub mod proto;
pub mod room;
pub mod server;
pub mod snapshot;
pub mod snapshot_resolver;
