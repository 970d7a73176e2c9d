//! Authoritative DNS for a small operator-managed zone: the wire codec, the
//! record store with its text datastore, the resolver and the decisions of
//! the request pipeline, each with its contract.

pub mod addr;
pub mod api;
pub mod clock;
pub mod codec_laws;
pub mod datastore;
pub mod ident;
pub mod laws;
pub mod metrics;
pub mod packet;
pub mod persistence;
pub mod query;
pub mod record;
pub mod server;
pub mod stage;
pub mod store;
pub mod text;
pub mod update;
