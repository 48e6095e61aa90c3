//! Constants of the OpenD protocol.
pub mod proto_ids;
