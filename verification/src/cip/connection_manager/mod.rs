//! Connection Manager object (class 0x06) requests: Forward Open, Large Forward
//! Open, and Forward Close.

mod forward_close;
mod forward_open;
mod params;
mod path;

pub use forward_close::{forward_close_bytes, ForwardCloseRequest};
pub use forward_open::{
    forward_open_bytes, forward_open_reply_ok, params_bytes, path_words, reply_shortfall, ForwardOpenRequest,
    ForwardOpenResponse,
};
pub use params::{
    config_segment, decode_params, decode_transport, encode_params, encode_transport, lemma_params_layout,
    lemma_params_round_trip, lemma_transport_layout,
    lemma_transport_round_trip, params_flags, wire_size_of, ConnectionConfig, ConnectionType, Direction, NetworkParams,
    Priority, SizeType, TransportClass, TransportTrigger, Trigger, MAX_CONFIG_DATA, MAX_SMALL_SIZE,
};
pub use path::{
    assembly_bytes, hex_byte, hex_words, key_bytes, lemma_hex_round_trip, lemma_join_paths, logical_bytes, path_text,
    port_bytes, route_bytes,
    route_tokens, ConnectionPath, ElectronicKey,
};

use vstd::prelude::*;

verus! {

/// Connection Manager object class ID.
pub const CLASS_ID: u16 = 0x06;

/// Forward Close service code.
pub const FORWARD_CLOSE: u8 = 0x4E;
/// Forward Open service code.
pub const FORWARD_OPEN: u8 = 0x54;
/// Large Forward Open service code.
pub const LARGE_FORWARD_OPEN: u8 = 0x5B;

} // verus!
