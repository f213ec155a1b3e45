//! Data plane of one node in a seven-node store of sensor records.
//!
//! Every record has one owner node, chosen from its location id, which keeps
//! the authoritative copy. The other six nodes each keep one fragment of a
//! Reed-Solomon encoding of the record, so that any four fragments rebuild it.

pub mod api;
pub mod codec;
pub mod conn_manager;
pub mod dto;
pub mod location_actor;
pub mod node;
pub mod outside;
pub mod root_actor;
pub mod text;
pub mod util;
