//! The protocol messages the client exchanges with OpenD, as plain values.
//! Each module mirrors one message file of the OpenD protocol; encoding to and
//! decoding from protobuf bytes happens where the codec lives, outside these
//! types.
pub mod init_connect;
pub mod keep_alive;
pub mod qot_common;
pub mod qot_get_market_state;
pub mod qot_sub;
pub mod qot_update_ticker;
