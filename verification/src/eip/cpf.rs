//! Common packet format: a count, then items of type, length, and data.

use vstd::prelude::*;
use vstd::std_specs::convert::FromSpecImpl;
use vstd::string::*;

use crate::error::{agrees, Error, Fault, Result};
use crate::text::{dec, hex, push_dec, push_hex};
use crate::wire::{
    from_le16, from_le32, get_u16_le, get_u32_le, le16, le32, lemma_le16, put_slice, put_u16_le,
    put_u32_le, truncated, try_get_u16_le, try_get_u32_le, try_get_vec,
};

verus! {

/// Common packet format item type IDs.
#[derive(Clone, Copy, PartialEq, Eq, Structural, Hash, PartialOrd, Ord, Default, Debug)]
pub struct CommonPacketItemId(pub u16);

/// The constants are the wire values: `CommonPacketItemId(CommonPacketItemId::X)` is the code `X`.
impl CommonPacketItemId {
    pub const NULL_ADDRESS: u16 = 0x0000;
    pub const LIST_IDENTITY: u16 = 0x000C;
    pub const CONNECTION_ADDRESS: u16 = 0x00A1;
    pub const CONNECTED_TRANSPORT_PACKET: u16 = 0x00B1;
    pub const UNCONNECTED_MESSAGE: u16 = 0x00B2;
    pub const O2T_SOCKADDR_INFO: u16 = 0x8000;
    pub const T2O_SOCKADDR_INFO: u16 = 0x8001;
    pub const SEQUENCED_ADDRESS: u16 = 0x8002;

    /// The name of a code this crate knows.
    pub open spec fn name_of(v: u16) -> Option<&'static str> {
        match v {
            0x0000 => Some("NULL_ADDRESS"),
            0x000C => Some("LIST_IDENTITY"),
            0x00A1 => Some("CONNECTION_ADDRESS"),
            0x00B1 => Some("CONNECTED_TRANSPORT_PACKET"),
            0x00B2 => Some("UNCONNECTED_MESSAGE"),
            0x8000 => Some("O2T_SOCKADDR_INFO"),
            0x8001 => Some("T2O_SOCKADDR_INFO"),
            0x8002 => Some("SEQUENCED_ADDRESS"),
            _ => None,
        }
    }

    /// Name of the code, if it is one this crate knows.
    pub fn name(self) -> (r: Option<&'static str>)
        ensures
            r == Self::name_of(self.0),
    {
        match self.0 {
            0x0000 => Some("NULL_ADDRESS"),
            0x000C => Some("LIST_IDENTITY"),
            0x00A1 => Some("CONNECTION_ADDRESS"),
            0x00B1 => Some("CONNECTED_TRANSPORT_PACKET"),
            0x00B2 => Some("UNCONNECTED_MESSAGE"),
            0x8000 => Some("O2T_SOCKADDR_INFO"),
            0x8001 => Some("T2O_SOCKADDR_INFO"),
            0x8002 => Some("SEQUENCED_ADDRESS"),
            _ => None,
        }
    }

    /// `NAME(0x..)` for a known code, `CommonPacketItemId(0x..)` otherwise.
    pub open spec fn display(self) -> Seq<char> {
        Self::display_name(self.0) + "(0x"@ + hex(self.0 as nat) + ")"@
    }

    /// The name of a known code, or the type's name.
    pub open spec fn display_name(v: u16) -> Seq<char> {
        match Self::name_of(v) {
            Some(n) => n@,
            None => "CommonPacketItemId"@,
        }
    }

    /// The code's name and value, e.g. `RED(0x1)`.
    pub fn to_string(&self) -> (r: String)
        ensures
            r@ == self.display(),
    {
        let ghost head = Self::display_name(self.0);
        let mut s = match self.name() {
            Some(n) => String::from_str(n),
            None => String::from_str("CommonPacketItemId"),
        };
        assert(s@ == head);
        s.append("(0x");
        push_hex(&mut s, self.0 as u64);
        s.append(")");
        assert(s@ =~= self.display());
        s
    }
}

impl From<u16> for CommonPacketItemId {
    fn from(v: u16) -> (r: Self) {
        Self(v)
    }
}

impl FromSpecImpl<u16> for CommonPacketItemId {
    open spec fn obeys_from_spec() -> bool {
        true
    }

    open spec fn from_spec(v: u16) -> Self {
        Self(v)
    }
}

impl From<CommonPacketItemId> for u16 {
    fn from(v: CommonPacketItemId) -> (r: u16) {
        v.0
    }
}

impl FromSpecImpl<CommonPacketItemId> for u16 {
    open spec fn obeys_from_spec() -> bool {
        true
    }

    open spec fn from_spec(v: CommonPacketItemId) -> Self {
        v.0
    }
}
/// One item: its type and its data.
#[derive(Debug, Clone, Default, PartialEq, Eq)]
pub struct CommonPacketItem {
    pub type_id: CommonPacketItemId,
    pub data: Vec<u8>,
}

/// What an item holds: its type and its data bytes.
pub type ItemView = (CommonPacketItemId, Seq<u8>);

impl View for CommonPacketItem {
    type V = ItemView;

    open spec fn view(&self) -> ItemView {
        (self.type_id, self.data@)
    }
}

/// The encoding of one item: type, data length (modulo 2^16), data.
pub open spec fn item_bytes(item: ItemView) -> Seq<u8> {
    le16(item.0.0) + le16(item.1.len() as u16) + item.1
}

/// The encodings of `items`, one after the other.
pub open spec fn items_bytes(items: Seq<ItemView>) -> Seq<u8>
    decreases items.len(),
{
    if items.len() == 0 {
        seq![]
    } else {
        item_bytes(items[0]) + items_bytes(items.drop_first())
    }
}

/// Adding an item at the end adds its encoding at the end.
pub proof fn lemma_items_bytes_push(items: Seq<ItemView>, item: ItemView)
    ensures
        items_bytes(items.push(item)) == items_bytes(items) + item_bytes(item),
    decreases items.len(),
{
    if items.len() == 0 {
        assert(items.push(item).drop_first() =~= Seq::<ItemView>::empty());
        assert(items_bytes(Seq::<ItemView>::empty()) =~= Seq::<u8>::empty());
        assert(items.push(item)[0] == item);
        assert(items_bytes(items.push(item)) =~= item_bytes(item) + Seq::<u8>::empty());
        assert(items_bytes(items) + item_bytes(item) =~= item_bytes(item));
    } else {
        lemma_items_bytes_push(items.drop_first(), item);
        assert(items.push(item).drop_first() =~= items.drop_first().push(item));
        assert(items_bytes(items.push(item)) =~= item_bytes(items[0]) + (items_bytes(items.drop_first()) + item_bytes(item)));
    }
}

/// The items of a packet, as their views.
pub open spec fn item_views(items: Seq<CommonPacketItem>) -> Seq<ItemView> {
    items.map_values(|i: CommonPacketItem| i@)
}

impl CommonPacketItem {
    pub fn new(type_id: CommonPacketItemId, data: Vec<u8>) -> (r: Self)
        ensures
            r@ == (type_id, data@),
    {
        Self { type_id, data }
    }

    /// A null address item: type 0, no data.
    pub fn null_address() -> (r: Self)
        ensures
            r@ == (CommonPacketItemId(CommonPacketItemId::NULL_ADDRESS), Seq::<u8>::empty()),
    {
        Self::new(CommonPacketItemId(CommonPacketItemId::NULL_ADDRESS), Vec::new())
    }

    pub fn unconnected_data(data: Vec<u8>) -> (r: Self)
        ensures
            r@ == (CommonPacketItemId(CommonPacketItemId::UNCONNECTED_MESSAGE), data@),
    {
        Self::new(CommonPacketItemId(CommonPacketItemId::UNCONNECTED_MESSAGE), data)
    }

    pub fn connected_data(data: Vec<u8>) -> (r: Self)
        ensures
            r@ == (CommonPacketItemId(CommonPacketItemId::CONNECTED_TRANSPORT_PACKET), data@),
    {
        Self::new(CommonPacketItemId(CommonPacketItemId::CONNECTED_TRANSPORT_PACKET), data)
    }

    /// A sequenced address item: connection ID, then sequence number.
    pub fn sequenced_address(connection_id: u32, sequence_number: u32) -> (r: Self)
        ensures
            r@ == (CommonPacketItemId(CommonPacketItemId::SEQUENCED_ADDRESS), le32(connection_id) + le32(sequence_number)),
    {
        let mut data: Vec<u8> = Vec::with_capacity(8);
        put_u32_le(&mut data, connection_id);
        put_u32_le(&mut data, sequence_number);
        assert(data@ =~= le32(connection_id) + le32(sequence_number));
        Self::new(CommonPacketItemId(CommonPacketItemId::SEQUENCED_ADDRESS), data)
    }

    /// Appends the item's encoding to `out`.
    pub fn encode_into(&self, out: &mut Vec<u8>)
        ensures
            final(out)@ == old(out)@ + item_bytes(self@),
    {
        put_u16_le(out, self.type_id.0);
        put_u16_le(out, self.data.len() as u16);
        put_slice(out, self.data.as_slice());
        assert(out@ =~= old(out)@ + item_bytes(self@));
    }

    /// A copy of the item.
    pub fn clone_item(&self) -> (r: Self)
        ensures
            r@ == self@,
    {
        Self { type_id: self.type_id, data: vstd::slice::slice_to_vec(self.data.as_slice()) }
    }

    pub fn encode(&self) -> (out: Vec<u8>)
        ensures
            out@ == item_bytes(self@),
    {
        let mut out: Vec<u8> = Vec::new();
        self.encode_into(&mut out);
        assert(out@ =~= item_bytes(self@));
        out
    }
}

/// A common packet format item list.
#[derive(Debug, Clone, Default, PartialEq, Eq)]
pub struct CommonPacket {
    pub items: Vec<CommonPacketItem>,
}

impl View for CommonPacket {
    type V = Seq<ItemView>;

    open spec fn view(&self) -> Seq<ItemView> {
        item_views(self.items@)
    }
}

/// The encoding of a packet: item count (modulo 2^16), then the items.
pub open spec fn packet_bytes(items: Seq<ItemView>) -> Seq<u8> {
    le16(items.len() as u16) + items_bytes(items)
}

/// Decoding at most `n` items from `s`; decoding stops early, without error,
/// when the input runs out between items. A header cut short is truncated;
/// data shorter than its announced length is invalid.
pub open spec fn decode_items(s: Seq<u8>, n: nat) -> core::result::Result<Seq<ItemView>, Fault>
    decreases n,
{
    if n == 0 || s.len() == 0 {
        Ok(seq![])
    } else if s.len() < 4 {
        Err(Fault::Truncated)
    } else {
        let len = from_le16(s.skip(2));
        if s.len() - 4 < len {
            Err(Fault::Invalid)
        } else {
            match decode_items(s.skip(4 + len), (n - 1) as nat) {
                Ok(rest) => Ok(seq![(CommonPacketItemId(from_le16(s)), s.subrange(4, 4 + len))] + rest),
                Err(f) => Err(f),
            }
        }
    }
}

/// Decoding a packet: the item count, then up to that many items; bytes
/// after the last item are ignored.
pub open spec fn decode_packet(s: Seq<u8>) -> core::result::Result<Seq<ItemView>, Fault> {
    if s.len() < 2 {
        Err(Fault::Truncated)
    } else {
        decode_items(s.skip(2), from_le16(s) as nat)
    }
}

impl CommonPacket {
    pub fn new(items: Vec<CommonPacketItem>) -> (r: Self)
        ensures
            r.items@ == items@,
    {
        Self { items }
    }

    pub fn encode(&self) -> (out: Vec<u8>)
        ensures
            out@ == packet_bytes(self@),
    {
        let mut out: Vec<u8> = Vec::new();
        put_u16_le(&mut out, self.items.len() as u16);
        let mut i: usize = 0;
        while i < self.items.len()
            invariant
                i <= self.items@.len(),
                out@ == le16(self.items@.len() as u16) + items_bytes(item_views(self.items@.take(i as int))),
            decreases self.items@.len() - i,
        {
            proof {
                lemma_items_bytes_push(item_views(self.items@.take(i as int)), self.items@[i as int]@);
                assert(item_views(self.items@.take(i as int)).push(self.items@[i as int]@)
                    =~= item_views(self.items@.take(i + 1)));
            }
            self.items[i].encode_into(&mut out);
            i = i + 1;
        }
        assert(self.items@.take(i as int) =~= self.items@);
        out
    }

    /// Decodes up to the item count; trailing bytes after the last item are ignored.
    pub fn decode(data: &[u8]) -> (r: Result<Self>)
        ensures
            agrees(r, decode_packet(data@)),
    {
        let mut buf = data;
        let count = match try_get_u16_le(&mut buf) {
            Ok(c) => c,
            Err(e) => return Err(e),
        };
        let mut items: Vec<CommonPacketItem> = Vec::new();
        let mut k: u16 = 0;
        let ghost start = buf@;
        proof {
            match decode_items(start, count as nat) {
                Ok(rest) => {
                    assert(item_views(items@) + rest =~= rest);
                },
                Err(_) => {},
            }
        }
        while k < count
            invariant
                k <= count,
                data@.len() >= 2,
                count == from_le16(data@),
                start == data@.skip(2),
                decode_items(start, count as nat) == (match decode_items(buf@, (count - k) as nat) {
                    Ok(rest) => Ok(item_views(items@) + rest),
                    Err(f) => Err(f),
                }),
            ensures
                k < count ==> buf@.len() == 0,
                decode_items(start, count as nat) == (match decode_items(buf@, (count - k) as nat) {
                    Ok(rest) => Ok(item_views(items@) + rest),
                    Err(f) => Err(f),
                }),
            decreases count - k,
        {
            if buf.len() == 0 {
                break;
            }
            let ghost before = buf@;
            let type_id = match try_get_u16_le(&mut buf) {
                Ok(t) => CommonPacketItemId(t),
                Err(e) => return Err(e),
            };
            let len = match try_get_u16_le(&mut buf) {
                Ok(l) => l as usize,
                Err(e) => return Err(e),
            };
            assert(buf@ =~= before.skip(4));
            assert(before.skip(2) =~= before.skip(2));
            let item_data = match try_get_vec(&mut buf, len) {
                Ok(v) => v,
                Err(_) => return Err(Error::InvalidPacket(String::from_str("common packet item is truncated"))),
            };
            assert(buf@ =~= before.skip(4 + len));
            assert(item_data@ =~= before.subrange(4, 4 + len));
            let ghost old_items = items@;
            items.push(CommonPacketItem { type_id, data: item_data });
            assert(item_views(items@) =~= item_views(old_items) + seq![(type_id, item_data@)]);
            proof {
                match decode_items(buf@, (count - k - 1) as nat) {
                    Ok(rest) => {
                        assert(item_views(old_items) + (seq![(type_id, item_data@)] + rest)
                            =~= item_views(items@) + rest);
                    },
                    Err(f) => {},
                }
            }
            k = k + 1;
        }
        proof {
            assert(item_views(items@) + Seq::<ItemView>::empty() =~= item_views(items@));
        }
        Ok(Self { items })
    }
}

/// The `n` item views of an encoded list decode back to themselves, with
/// `rest` following.
proof fn lemma_decode_items_bytes(items: Seq<ItemView>, rest: Seq<u8>)
    requires
        forall|i: int| 0 <= i < items.len() ==> #[trigger] items[i].1.len() <= 0xFFFF,
    ensures
        decode_items(items_bytes(items) + rest, items.len()) == Ok::<Seq<ItemView>, Fault>(items),
    decreases items.len(),
{
    if items.len() == 0 {
        assert(items =~= Seq::<ItemView>::empty());
    } else {
        let it = items[0];
        let tail = items.drop_first();
        let s = items_bytes(items) + rest;
        lemma_le16(it.0.0);
        lemma_le16(it.1.len() as u16);
        assert forall|i: int| 0 <= i < tail.len() implies #[trigger] tail[i].1.len() <= 0xFFFF by {
            assert(tail[i] == items[i + 1]);
        }
        lemma_decode_items_bytes(tail, rest);
        assert(s =~= le16(it.0.0) + le16(it.1.len() as u16) + it.1 + (items_bytes(tail) + rest));
        assert(s.skip(2).take(2) =~= le16(it.1.len() as u16));
        assert(s.take(2) =~= le16(it.0.0));
        assert(from_le16(s.skip(2)) == from_le16(le16(it.1.len() as u16)));
        assert(from_le16(s) == from_le16(le16(it.0.0)));
        assert(s.skip(4 + it.1.len() as int) =~= items_bytes(tail) + rest);
        assert(s.subrange(4, 4 + it.1.len() as int) =~= it.1);
        assert(seq![(CommonPacketItemId(it.0.0), it.1)] + tail =~= items);
    }
}

/// Decoding an encoded packet gives its items back, whatever follows, as long
/// as the item count and each item's length fit in 16 bits.
pub proof fn lemma_packet_round_trip(items: Seq<ItemView>, rest: Seq<u8>)
    requires
        items.len() <= 0xFFFF,
        forall|i: int| 0 <= i < items.len() ==> #[trigger] items[i].1.len() <= 0xFFFF,
    ensures
        decode_packet(packet_bytes(items) + rest) == Ok::<Seq<ItemView>, Fault>(items),
{
    let s = packet_bytes(items) + rest;
    lemma_le16(items.len() as u16);
    assert(s.take(2) =~= le16(items.len() as u16));
    assert(from_le16(s) == from_le16(le16(items.len() as u16)));
    assert(s.skip(2) =~= items_bytes(items) + rest);
    lemma_decode_items_bytes(items, rest);
}

/// An implicit (class 0/1) packet: sequenced address item plus connected data item.
#[derive(Debug, Clone, Copy, PartialEq, Eq)]
pub struct ConnectedPacket<'a> {
    pub connection_id: u32,
    pub sequence_number: u32,
    pub data: &'a [u8],
}

/// The encoding of an implicit packet: two items, a sequenced address item
/// (connection ID and sequence number) and a connected data item.
pub open spec fn connected_packet_bytes(connection_id: u32, sequence_number: u32, data: Seq<u8>) -> Seq<u8> {
    le16(2) + le16(0x8002) + le16(8) + le32(connection_id) + le32(sequence_number) + le16(0xB1)
        + le16(data.len() as u16) + data
}

/// Decoding an implicit packet: `(connection ID, sequence number, data)`.
/// Fewer than two items, an address item that is not an 8-byte sequenced
/// address, or a data item that is not connected data is invalid; input that
/// ends inside a field or the data is truncated. Bytes after the data are ignored.
pub open spec fn decode_connected(s: Seq<u8>) -> core::result::Result<(u32, u32, Seq<u8>), Fault> {
    if s.len() < 2 {
        Err(Fault::Truncated)
    } else if from_le16(s) < 2 {
        Err(Fault::Invalid)
    } else if s.len() < 6 {
        Err(Fault::Truncated)
    } else if from_le16(s.skip(2)) != 0x8002 || from_le16(s.skip(4)) != 8 {
        Err(Fault::Invalid)
    } else if s.len() < 16 {
        Err(Fault::Truncated)
    } else if from_le16(s.skip(14)) != 0xB1 {
        Err(Fault::Invalid)
    } else if s.len() < 18 || s.len() - 18 < from_le16(s.skip(16)) {
        Err(Fault::Truncated)
    } else {
        Ok((from_le32(s.skip(6)), from_le32(s.skip(10)), s.subrange(18, 18 + from_le16(s.skip(16)))))
    }
}

/// Why an implicit packet does not decode: a field cut short (its size and
/// the bytes left for it), or a bad count or item (the message).
pub ghost enum PacketFault {
    Short(usize, nat),
    Bad(Seq<char>),
}

/// The first problem [`decode_connected`] finds in `s`, as the decoder
/// reports it; `None` when `s` decodes.
pub open spec fn connected_fault(s: Seq<u8>) -> Option<PacketFault> {
    let n = s.len();
    if n < 2 {
        Some(PacketFault::Short(2, n))
    } else if from_le16(s) < 2 {
        Some(PacketFault::Bad("implicit packet has "@ + dec(from_le16(s) as nat) + " items, expected 2"@))
    } else if n < 4 {
        Some(PacketFault::Short(2, (n - 2) as nat))
    } else if n < 6 {
        Some(PacketFault::Short(2, (n - 4) as nat))
    } else if from_le16(s.skip(2)) != 0x8002 || from_le16(s.skip(4)) != 8 {
        Some(
            PacketFault::Bad(
                "implicit packet address item is "@ + CommonPacketItemId(from_le16(s.skip(2))).display() + " with length "@
                    + dec(from_le16(s.skip(4)) as nat),
            ),
        )
    } else if n < 10 {
        Some(PacketFault::Short(4, (n - 6) as nat))
    } else if n < 14 {
        Some(PacketFault::Short(4, (n - 10) as nat))
    } else if n < 16 {
        Some(PacketFault::Short(2, (n - 14) as nat))
    } else if from_le16(s.skip(14)) != 0xB1 {
        Some(PacketFault::Bad("implicit packet data item is "@ + CommonPacketItemId(from_le16(s.skip(14))).display()))
    } else if n < 18 {
        Some(PacketFault::Short(2, (n - 16) as nat))
    } else if n - 18 < from_le16(s.skip(16)) {
        Some(PacketFault::Short(from_le16(s.skip(16)) as usize, (n - 18) as nat))
    } else {
        None
    }
}

impl<'a> View for ConnectedPacket<'a> {
    type V = (u32, u32, Seq<u8>);

    open spec fn view(&self) -> (u32, u32, Seq<u8>) {
        (self.connection_id, self.sequence_number, self.data@)
    }
}

/// Decodes an implicit packet without allocating.
pub fn decode_connected_packet<'a>(buf: &'a [u8]) -> (r: Result<ConnectedPacket<'a>>)
    ensures
        agrees(r, decode_connected(buf@)),
        match connected_fault(buf@) {
            None => r is Ok,
            Some(PacketFault::Short(requested, available)) => r == Err::<ConnectedPacket<'a>, Error>(
                truncated(requested, available),
            ),
            Some(PacketFault::Bad(m)) => r matches Err(Error::InvalidPacket(x)) && x@ == m,
        },
{
    let orig = buf;
    let mut buf = buf;
    let count = match try_get_u16_le(&mut buf) {
        Ok(c) => c,
        Err(e) => return Err(e),
    };
    if count < 2 {
        let mut m = String::from_str("implicit packet has ");
        push_dec(&mut m, count as u64);
        m.append(" items, expected 2");
        return Err(Error::InvalidPacket(m));
    }
    let addr_type = match try_get_u16_le(&mut buf) {
        Ok(c) => c,
        Err(e) => return Err(e),
    };
    let addr_len = match try_get_u16_le(&mut buf) {
        Ok(c) => c,
        Err(e) => return Err(e),
    };
    assert(buf@ =~= orig@.skip(6));
    assert(orig@.skip(2).skip(2) =~= orig@.skip(4));
    if addr_type != CommonPacketItemId::SEQUENCED_ADDRESS || addr_len != 8 {
        let mut m = String::from_str("implicit packet address item is ");
        m.append(CommonPacketItemId(addr_type).to_string().as_str());
        m.append(" with length ");
        push_dec(&mut m, addr_len as u64);
        return Err(Error::InvalidPacket(m));
    }
    let connection_id = match try_get_u32_le(&mut buf) {
        Ok(c) => c,
        Err(e) => return Err(e),
    };
    assert(orig@.skip(6).skip(4) =~= orig@.skip(10));
    let sequence_number = match try_get_u32_le(&mut buf) {
        Ok(c) => c,
        Err(e) => return Err(e),
    };
    assert(orig@.skip(10).skip(4) =~= orig@.skip(14));
    let data_type = match try_get_u16_le(&mut buf) {
        Ok(c) => c,
        Err(e) => return Err(e),
    };
    assert(buf@ =~= orig@.skip(16));
    if data_type != CommonPacketItemId::CONNECTED_TRANSPORT_PACKET {
        let mut m = String::from_str("implicit packet data item is ");
        m.append(CommonPacketItemId(data_type).to_string().as_str());
        return Err(Error::InvalidPacket(m));
    }
    let len = match try_get_u16_le(&mut buf) {
        Ok(c) => c as usize,
        Err(e) => return Err(e),
    };
    assert(buf@ =~= orig@.skip(18));
    if buf.len() < len {
        return Err(Error::Truncated { requested: len, available: buf.len() });
    }
    let data = vstd::slice::slice_subrange(buf, 0, len);
    assert(data@ =~= orig@.subrange(18, 18 + len));
    Ok(ConnectedPacket { connection_id, sequence_number, data })
}

/// An implicit packet is the common packet of its two items: a sequenced
/// address item holding the connection ID and sequence number, and a
/// connected data item holding the data.
pub proof fn lemma_connected_is_common_packet(connection_id: u32, sequence_number: u32, data: Seq<u8>)
    ensures
        connected_packet_bytes(connection_id, sequence_number, data) == packet_bytes(
            seq![
                (CommonPacketItemId(CommonPacketItemId::SEQUENCED_ADDRESS), le32(connection_id) + le32(sequence_number)),
                (CommonPacketItemId(CommonPacketItemId::CONNECTED_TRANSPORT_PACKET), data),
            ],
        ),
{
    let a = (CommonPacketItemId(CommonPacketItemId::SEQUENCED_ADDRESS), le32(connection_id) + le32(sequence_number));
    let b = (CommonPacketItemId(CommonPacketItemId::CONNECTED_TRANSPORT_PACKET), data);
    let items = seq![a, b];
    assert(items.drop_first() =~= seq![b]);
    assert(seq![b].drop_first() =~= Seq::<ItemView>::empty());
    assert(items_bytes(Seq::<ItemView>::empty()) =~= Seq::<u8>::empty());
    assert(seq![b][0] == b);
    assert(items_bytes(seq![b]) =~= item_bytes(b));
    assert(items[0] == a);
    assert(items_bytes(items) =~= item_bytes(a) + item_bytes(b));
    assert(connected_packet_bytes(connection_id, sequence_number, data) =~= packet_bytes(items));
}

/// Decoding an encoded implicit packet gives its connection ID, sequence
/// number, and data back, when the data's length fits in 16 bits.
pub proof fn lemma_connected_round_trip(connection_id: u32, sequence_number: u32, data: Seq<u8>)
    requires
        data.len() <= 0xFFFF,
    ensures
        decode_connected(connected_packet_bytes(connection_id, sequence_number, data)) == Ok::<
            (u32, u32, Seq<u8>),
            Fault,
        >((connection_id, sequence_number, data)),
{
    let s = connected_packet_bytes(connection_id, sequence_number, data);
    lemma_le16(2);
    lemma_le16(0x8002);
    lemma_le16(8);
    lemma_le16(0xB1);
    lemma_le16(data.len() as u16);
    crate::wire::lemma_le32(connection_id);
    crate::wire::lemma_le32(sequence_number);
    assert(s.take(2) =~= le16(2));
    assert(s.skip(2).take(2) =~= le16(0x8002));
    assert(s.skip(4).take(2) =~= le16(8));
    assert(s.skip(6).take(4) =~= le32(connection_id));
    assert(s.skip(10).take(4) =~= le32(sequence_number));
    assert(s.skip(14).take(2) =~= le16(0xB1));
    assert(s.skip(16).take(2) =~= le16(data.len() as u16));
    assert(from_le16(s) == from_le16(le16(2)));
    assert(from_le16(s.skip(2)) == from_le16(le16(0x8002)));
    assert(from_le16(s.skip(4)) == from_le16(le16(8)));
    assert(from_le32(s.skip(6)) == from_le32(le32(connection_id)));
    assert(from_le32(s.skip(10)) == from_le32(le32(sequence_number)));
    assert(from_le16(s.skip(14)) == from_le16(le16(0xB1)));
    assert(from_le16(s.skip(16)) == from_le16(le16(data.len() as u16)));
    assert(s.subrange(18, 18 + data.len() as int) =~= data);
}

/// The bytes of `parts`, one after the other.
pub open spec fn concat_parts(parts: Seq<Seq<u8>>) -> Seq<u8>
    decreases parts.len(),
{
    if parts.len() == 0 {
        seq![]
    } else {
        concat_parts(parts.drop_last()) + parts.last()
    }
}

/// The views of the parts of a packet.
pub open spec fn part_views(parts: Seq<&[u8]>) -> Seq<Seq<u8>> {
    parts.map_values(|p: &[u8]| p@)
}

/// Encodes an implicit packet into `out` (cleared first) from payload parts, so
/// the caller can reuse one buffer for every send.
pub fn encode_connected_packet(out: &mut Vec<u8>, connection_id: u32, sequence_number: u32, parts: &[&[u8]])
    requires
        concat_parts(part_views(parts@)).len() <= usize::MAX,
    ensures
        final(out)@ == connected_packet_bytes(connection_id, sequence_number, concat_parts(part_views(parts@))),
{
    let mut len: usize = 0;
    let mut i: usize = 0;
    while i < parts.len()
        invariant
            i <= parts@.len(),
            len == concat_parts(part_views(parts@.take(i as int))).len(),
            concat_parts(part_views(parts@)).len() <= usize::MAX,
        decreases parts@.len() - i,
    {
        proof {
            assert(part_views(parts@.take(i + 1)).drop_last() =~= part_views(parts@.take(i as int)));
            assert(part_views(parts@.take(i + 1)) =~= part_views(parts@).take(i + 1));
            assert(part_views(parts@.take(i + 1)).last() == parts@[i as int]@);
            lemma_concat_prefix_len(part_views(parts@), i + 1);
        }
        len = len + parts[i].len();
        i = i + 1;
    }
    assert(parts@.take(i as int) =~= parts@);
    out.clear();
    put_u16_le(out, 2);
    put_u16_le(out, CommonPacketItemId::SEQUENCED_ADDRESS);
    put_u16_le(out, 8);
    put_u32_le(out, connection_id);
    put_u32_le(out, sequence_number);
    put_u16_le(out, CommonPacketItemId::CONNECTED_TRANSPORT_PACKET);
    put_u16_le(out, len as u16);
    let ghost head = out@;
    let mut j: usize = 0;
    while j < parts.len()
        invariant
            j <= parts@.len(),
            out@ == head + concat_parts(part_views(parts@.take(j as int))),
        decreases parts@.len() - j,
    {
        proof {
            assert(part_views(parts@.take(j + 1)).drop_last() =~= part_views(parts@.take(j as int)));
        }
        put_slice(out, parts[j]);
        j = j + 1;
    }
    assert(parts@.take(j as int) =~= parts@);
    assert(out@ =~= connected_packet_bytes(connection_id, sequence_number, concat_parts(part_views(parts@))));
}

/// A prefix of the parts is no longer than all of them.
proof fn lemma_concat_prefix_len(parts: Seq<Seq<u8>>, n: int)
    requires
        0 <= n <= parts.len(),
    ensures
        concat_parts(parts.take(n)).len() <= concat_parts(parts).len(),
    decreases parts.len(),
{
    if n < parts.len() {
        assert(parts.drop_last().take(n) =~= parts.take(n));
        lemma_concat_prefix_len(parts.drop_last(), n);
    } else {
        assert(parts.take(n) =~= parts);
    }
}

} // verus!
