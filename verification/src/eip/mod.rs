//! EtherNet/IP encapsulation: the 24-byte encapsulation header and the common
//! packet format (CPF) items carried inside it.

mod cpf;
mod encaps;
mod sockaddr;

pub use cpf::{
    concat_parts, connected_fault, connected_packet_bytes, decode_connected, decode_connected_packet, decode_items,
    decode_packet, PacketFault,
    encode_connected_packet, item_bytes, lemma_connected_is_common_packet, lemma_connected_round_trip, item_views, items_bytes, lemma_packet_round_trip, packet_bytes, part_views,
    CommonPacket, CommonPacketItem, CommonPacketItemId, ConnectedPacket, ItemView,
};
pub use encaps::{
    decode_encaps, encaps_bytes, encaps_ok, lemma_encaps_round_trip, EncapsCommand, EncapsPacket, EncapsStatus,
    EncapsView, HEADER_SIZE,
};
pub use sockaddr::{
    address_text, decode_sockaddr, decode_sockaddr_spec, encode_sockaddr, lemma_sockaddr_round_trip, sockaddr_bytes, SocketAddress,
    SOCKADDR_SIZE,
};
